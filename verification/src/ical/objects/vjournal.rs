//! The VJOURNAL component: modeled structurally, not validated.

use vstd::prelude::*;

verus! {

use crate::ical::objects::generics::{
    CompData,
    CompModel,
    FieldDef,
    FieldSpec,
    ValKind,
    Validadable,
    comp_model,
    defs_model,
};
use crate::ical::values::base::CodecError;

/// Makes one field table entry.
fn fd(name: &str, kind: ValKind, multiple: bool) -> (r: FieldDef)
    ensures
        r.name@ == name@,
        r.kind == kind,
        r.multiple == multiple,
{
    FieldDef { name: name.to_owned(), kind, multiple }
}

/// A journal record.
#[derive(Debug)]
pub struct VJournal {
    pub data: CompData,
}

/// The field table, in serialization order.
pub open spec fn vjournal_defs_spec() -> Seq<FieldSpec> {
    seq![
        FieldSpec { name: "UID"@, kind: ValKind::Text, multiple: false },
        FieldSpec { name: "DTSTAMP"@, kind: ValKind::Time, multiple: false },
        FieldSpec { name: "CLASS"@, kind: ValKind::Text, multiple: false },
        FieldSpec { name: "CREATED"@, kind: ValKind::Time, multiple: false },
        FieldSpec { name: "DTSTART"@, kind: ValKind::Time, multiple: false },
        FieldSpec { name: "LAST-MODIFIED"@, kind: ValKind::Time, multiple: false },
        FieldSpec { name: "ORGANIZER"@, kind: ValKind::Text, multiple: false },
        FieldSpec { name: "RECURRENCE-ID"@, kind: ValKind::Text, multiple: false },
        FieldSpec { name: "SEQUENCE"@, kind: ValKind::Int, multiple: false },
        FieldSpec { name: "STATUS"@, kind: ValKind::Text, multiple: false },
        FieldSpec { name: "SUMMARY"@, kind: ValKind::Text, multiple: false },
        FieldSpec { name: "URL"@, kind: ValKind::Text, multiple: false },
        FieldSpec { name: "RRULE"@, kind: ValKind::Text, multiple: true },
        FieldSpec { name: "ATTACH"@, kind: ValKind::Text, multiple: true },
        FieldSpec { name: "ATTENDEE"@, kind: ValKind::Text, multiple: true },
        FieldSpec { name: "CATEGORIES"@, kind: ValKind::Text, multiple: true },
        FieldSpec { name: "COMMENT"@, kind: ValKind::Text, multiple: true },
        FieldSpec { name: "CONTACT"@, kind: ValKind::Text, multiple: true },
        FieldSpec { name: "DESCRIPTION"@, kind: ValKind::Text, multiple: true },
        FieldSpec { name: "EXDATE"@, kind: ValKind::Time, multiple: true },
        FieldSpec { name: "RELATED-TO"@, kind: ValKind::Text, multiple: true },
        FieldSpec { name: "RDATE"@, kind: ValKind::Time, multiple: true },
        FieldSpec { name: "REQUEST-STATUS"@, kind: ValKind::Text, multiple: true },
    ]
}

/// Builds the field table executably.
#[verifier::rlimit(80)]
pub fn vjournal_defs() -> (r: Vec<FieldDef>)
    ensures
        defs_model(r@) == vjournal_defs_spec(),
{
    let mut v: Vec<FieldDef> = Vec::new();
    v.push(fd("UID", ValKind::Text, false));
    v.push(fd("DTSTAMP", ValKind::Time, false));
    v.push(fd("CLASS", ValKind::Text, false));
    v.push(fd("CREATED", ValKind::Time, false));
    v.push(fd("DTSTART", ValKind::Time, false));
    v.push(fd("LAST-MODIFIED", ValKind::Time, false));
    v.push(fd("ORGANIZER", ValKind::Text, false));
    v.push(fd("RECURRENCE-ID", ValKind::Text, false));
    v.push(fd("SEQUENCE", ValKind::Int, false));
    v.push(fd("STATUS", ValKind::Text, false));
    v.push(fd("SUMMARY", ValKind::Text, false));
    v.push(fd("URL", ValKind::Text, false));
    v.push(fd("RRULE", ValKind::Text, true));
    v.push(fd("ATTACH", ValKind::Text, true));
    v.push(fd("ATTENDEE", ValKind::Text, true));
    v.push(fd("CATEGORIES", ValKind::Text, true));
    v.push(fd("COMMENT", ValKind::Text, true));
    v.push(fd("CONTACT", ValKind::Text, true));
    v.push(fd("DESCRIPTION", ValKind::Text, true));
    v.push(fd("EXDATE", ValKind::Time, true));
    v.push(fd("RELATED-TO", ValKind::Text, true));
    v.push(fd("RDATE", ValKind::Time, true));
    v.push(fd("REQUEST-STATUS", ValKind::Text, true));
    proof {
        assert(defs_model(v@) =~= vjournal_defs_spec());
    }
    v
}

impl VJournal {
    /// The model of this journal's slot store.
    pub open spec fn model(&self) -> CompModel {
        comp_model(self.data)
    }
}

impl Validadable for VJournal {
    fn validate(&self) -> (r: Result<(), CodecError>) {
        Ok(())
    }
}

} // verus!
