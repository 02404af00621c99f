//! The VTODO component: an action item, with optional nested alarms.

use vstd::prelude::*;

verus! {

use crate::ical::objects::generics::{
    CompData,
    CompModel,
    FieldDef,
    FieldSpec,
    ValKind,
    Validadable,
    comp_model,
    defs_model,
};
use crate::ical::values::base::CodecError;

/// Makes one field table entry.
fn fd(name: &str, kind: ValKind, multiple: bool) -> (r: FieldDef)
    ensures
        r.name@ == name@,
        r.kind == kind,
        r.multiple == multiple,
{
    FieldDef { name: name.to_owned(), kind, multiple }
}

/// A task record.
#[derive(Debug)]
pub struct VTodo {
    pub data: CompData,
}

/// The field table, in serialization order.
pub open spec fn vtodo_defs_spec() -> Seq<FieldSpec> {
    seq![
        FieldSpec { name: "UID"@, kind: ValKind::Text, multiple: false },
        FieldSpec { name: "DTSTAMP"@, kind: ValKind::Time, multiple: false },
        FieldSpec { name: "CLASS"@, kind: ValKind::Text, multiple: false },
        FieldSpec { name: "COMPLETED"@, kind: ValKind::Time, multiple: false },
        FieldSpec { name: "CREATED"@, kind: ValKind::Time, multiple: false },
        FieldSpec { name: "DESCRIPTION"@, kind: ValKind::Text, multiple: false },
        FieldSpec { name: "DTSTART"@, kind: ValKind::Time, multiple: false },
        FieldSpec { name: "GEO"@, kind: ValKind::Text, multiple: false },
        FieldSpec { name: "LAST-MODIFIED"@, kind: ValKind::Time, multiple: false },
        FieldSpec { name: "LOCATION"@, kind: ValKind::Text, multiple: false },
        FieldSpec { name: "ORGANIZER"@, kind: ValKind::Text, multiple: false },
        FieldSpec { name: "PERCENT-COMPLETE"@, kind: ValKind::Int, multiple: false },
        FieldSpec { name: "PRIORITY"@, kind: ValKind::Int, multiple: false },
        FieldSpec { name: "RECURRENCE-ID"@, kind: ValKind::Text, multiple: false },
        FieldSpec { name: "SEQUENCE"@, kind: ValKind::Int, multiple: false },
        FieldSpec { name: "STATUS"@, kind: ValKind::Text, multiple: false },
        FieldSpec { name: "SUMMARY"@, kind: ValKind::Text, multiple: false },
        FieldSpec { name: "URL"@, kind: ValKind::Text, multiple: false },
        FieldSpec { name: "DUE"@, kind: ValKind::Time, multiple: false },
        FieldSpec { name: "DURATION"@, kind: ValKind::Span, multiple: false },
        FieldSpec { name: "ATTACH"@, kind: ValKind::Text, multiple: true },
        FieldSpec { name: "ATTENDEE"@, kind: ValKind::Text, multiple: true },
        FieldSpec { name: "CATEGORIES"@, kind: ValKind::Text, multiple: true },
        FieldSpec { name: "COMMENT"@, kind: ValKind::Text, multiple: true },
        FieldSpec { name: "CONTACT"@, kind: ValKind::Text, multiple: true },
        FieldSpec { name: "EXDATE"@, kind: ValKind::Time, multiple: true },
        FieldSpec { name: "REQUEST-STATUS"@, kind: ValKind::Text, multiple: true },
        FieldSpec { name: "RELATED-TO"@, kind: ValKind::Text, multiple: true },
        FieldSpec { name: "RESOURCES"@, kind: ValKind::Text, multiple: true },
        FieldSpec { name: "RDATE"@, kind: ValKind::Time, multiple: true },
        FieldSpec { name: "RRULE"@, kind: ValKind::Text, multiple: true },
    ]
}

/// Builds the field table executably.
#[verifier::rlimit(80)]
pub fn vtodo_defs() -> (r: Vec<FieldDef>)
    ensures
        defs_model(r@) == vtodo_defs_spec(),
{
    let mut v: Vec<FieldDef> = Vec::new();
    v.push(fd("UID", ValKind::Text, false));
    v.push(fd("DTSTAMP", ValKind::Time, false));
    v.push(fd("CLASS", ValKind::Text, false));
    v.push(fd("COMPLETED", ValKind::Time, false));
    v.push(fd("CREATED", ValKind::Time, false));
    v.push(fd("DESCRIPTION", ValKind::Text, false));
    v.push(fd("DTSTART", ValKind::Time, false));
    v.push(fd("GEO", ValKind::Text, false));
    v.push(fd("LAST-MODIFIED", ValKind::Time, false));
    v.push(fd("LOCATION", ValKind::Text, false));
    v.push(fd("ORGANIZER", ValKind::Text, false));
    v.push(fd("PERCENT-COMPLETE", ValKind::Int, false));
    v.push(fd("PRIORITY", ValKind::Int, false));
    v.push(fd("RECURRENCE-ID", ValKind::Text, false));
    v.push(fd("SEQUENCE", ValKind::Int, false));
    v.push(fd("STATUS", ValKind::Text, false));
    v.push(fd("SUMMARY", ValKind::Text, false));
    v.push(fd("URL", ValKind::Text, false));
    v.push(fd("DUE", ValKind::Time, false));
    v.push(fd("DURATION", ValKind::Span, false));
    v.push(fd("ATTACH", ValKind::Text, true));
    v.push(fd("ATTENDEE", ValKind::Text, true));
    v.push(fd("CATEGORIES", ValKind::Text, true));
    v.push(fd("COMMENT", ValKind::Text, true));
    v.push(fd("CONTACT", ValKind::Text, true));
    v.push(fd("EXDATE", ValKind::Time, true));
    v.push(fd("REQUEST-STATUS", ValKind::Text, true));
    v.push(fd("RELATED-TO", ValKind::Text, true));
    v.push(fd("RESOURCES", ValKind::Text, true));
    v.push(fd("RDATE", ValKind::Time, true));
    v.push(fd("RRULE", ValKind::Text, true));
    proof {
        assert(defs_model(v@) =~= vtodo_defs_spec());
    }
    v
}

impl VTodo {
    /// The model of this todo's slot store.
    pub open spec fn model(&self) -> CompModel {
        comp_model(self.data)
    }

    /// Every CATEGORIES value, in document order.
    pub fn get_all_categories(&self) -> (r: Vec<String>)
        requires
            self.data.slots@.len() == 31,
        ensures
            r@.map_values(|s: String| s@) == self.model().slots[22].map_values(
                |p: crate::ical::objects::generics::PropModel|
                    match p.value {
                        crate::ical::objects::generics::ValModel::Text(t) => t,
                        _ => Seq::<char>::empty(),
                    },
            ),
    {
        let mut r: Vec<String> = Vec::new();
        let slot = &self.data.slots[22];
        let ghost sm = crate::ical::objects::generics::props_model(slot@);
        let mut i: usize = 0;
        while i < slot.len()
            invariant
                i <= slot@.len(),
                sm == crate::ical::objects::generics::props_model(slot@),
                sm.len() == slot@.len(),
                r@.len() == i,
                forall|k: int|
                    0 <= k < i ==> #[trigger] r@[k]@ == (match sm[k].value {
                        crate::ical::objects::generics::ValModel::Text(t) => t,
                        _ => Seq::<char>::empty(),
                    }),
            decreases slot@.len() - i,
        {
            proof {
                assert(sm[i as int] == crate::ical::objects::generics::prop_model(
                    slot@[i as int],
                ));
            }
            match &slot[i].value {
                crate::ical::objects::generics::Val::Text(s) => {
                    r.push(s.clone());
                },
                _ => {
                    r.push(String::new());
                },
            }
            i = i + 1;
        }
        proof {
            assert(self.model().slots[22] == sm);
            assert(r@.map_values(|s: String| s@) =~= sm.map_values(
                |p: crate::ical::objects::generics::PropModel|
                    match p.value {
                        crate::ical::objects::generics::ValModel::Text(t) => t,
                        _ => Seq::<char>::empty(),
                    },
            ));
        }
        r
    }

    /// The PERCENT-COMPLETE value, if set.
    pub fn get_percent_complete(&self) -> (r: Option<i32>)
        requires
            self.data.slots@.len() == 31,
        ensures
            match r {
                Some(n) => self.model().slots[11].len() > 0 && self.model().slots[11].last().value
                    == crate::ical::objects::generics::ValModel::Int(n),
                None => self.model().slots[11].len() == 0 || !(self.model().slots[11].last().value
                    is Int),
            },
    {
        let slot = &self.data.slots[11];
        if slot.len() == 0 {
            return None;
        }
        match &slot[slot.len() - 1].value {
            crate::ical::objects::generics::Val::Int(n) => Some(*n),
            _ => None,
        }
    }

    /// The SUMMARY value, if set.
    pub fn get_summary(&self) -> (r: Option<&String>)
        requires
            self.data.slots@.len() == 31,
        ensures
            match r {
                Some(s) => self.model().slots[16].len() > 0 && self.model().slots[16].last().value
                    == crate::ical::objects::generics::ValModel::Text(s@),
                None => self.model().slots[16].len() == 0 || !(self.model().slots[16].last().value
                    is Text),
            },
    {
        let slot = &self.data.slots[16];
        if slot.len() == 0 {
            return None;
        }
        match &slot[slot.len() - 1].value {
            crate::ical::objects::generics::Val::Text(s) => Some(s),
            _ => None,
        }
    }

    /// The UID value, if set.
    pub fn get_uid(&self) -> (r: Option<&String>)
        requires
            self.data.slots@.len() == 31,
        ensures
            match r {
                Some(s) => self.model().slots[0].len() > 0 && self.model().slots[0].last().value
                    == crate::ical::objects::generics::ValModel::Text(s@),
                None => self.model().slots[0].len() == 0 || !(self.model().slots[0].last().value
                    is Text),
            },
    {
        let slot = &self.data.slots[0];
        if slot.len() == 0 {
            return None;
        }
        match &slot[slot.len() - 1].value {
            crate::ical::objects::generics::Val::Text(s) => Some(s),
            _ => None,
        }
    }
}

impl Validadable for VTodo {
    fn validate(&self) -> (r: Result<(), CodecError>) {
        Ok(())
    }
}

} // verus!
