//! The VALARM component: a reminder trigger nested in a todo or event.

use vstd::prelude::*;

verus! {

use crate::ical::objects::generics::{
    CompData,
    CompModel,
    FieldDef,
    FieldSpec,
    ValKind,
    Validadable,
    comp_model,
    defs_model,
};
use crate::ical::values::base::CodecError;

/// Makes one field table entry.
fn fd(name: &str, kind: ValKind, multiple: bool) -> (r: FieldDef)
    ensures
        r.name@ == name@,
        r.kind == kind,
        r.multiple == multiple,
{
    FieldDef { name: name.to_owned(), kind, multiple }
}

/// A reminder record.
#[derive(Debug)]
pub struct VAlarm {
    pub data: CompData,
}

/// How an alarm presents itself, read from its ACTION property.
#[derive(Clone, Copy, Debug, PartialEq, Eq, Structural)]
pub enum VAlarmType {
    Audio,
    Display,
    Email,
}

/// The field table, in serialization order.
pub open spec fn valarm_defs_spec() -> Seq<FieldSpec> {
    seq![
        FieldSpec { name: "ACTION"@, kind: ValKind::Text, multiple: false },
        FieldSpec { name: "DESCRIPTION"@, kind: ValKind::Text, multiple: false },
        FieldSpec { name: "TRIGGER"@, kind: ValKind::Span, multiple: false },
        FieldSpec { name: "SUMMARY"@, kind: ValKind::Text, multiple: false },
        FieldSpec { name: "DURATION"@, kind: ValKind::Span, multiple: false },
        FieldSpec { name: "REPEAT"@, kind: ValKind::Int, multiple: false },
        FieldSpec { name: "ATTACH"@, kind: ValKind::Text, multiple: false },
        FieldSpec { name: "ATTENDEE"@, kind: ValKind::Text, multiple: true },
    ]
}

/// Builds the field table executably.
#[verifier::rlimit(80)]
pub fn valarm_defs() -> (r: Vec<FieldDef>)
    ensures
        defs_model(r@) == valarm_defs_spec(),
{
    let mut v: Vec<FieldDef> = Vec::new();
    v.push(fd("ACTION", ValKind::Text, false));
    v.push(fd("DESCRIPTION", ValKind::Text, false));
    v.push(fd("TRIGGER", ValKind::Span, false));
    v.push(fd("SUMMARY", ValKind::Text, false));
    v.push(fd("DURATION", ValKind::Span, false));
    v.push(fd("REPEAT", ValKind::Int, false));
    v.push(fd("ATTACH", ValKind::Text, false));
    v.push(fd("ATTENDEE", ValKind::Text, true));
    proof {
        assert(defs_model(v@) =~= valarm_defs_spec());
    }
    v
}

impl VAlarm {
    /// The model of this alarm's slot store.
    pub open spec fn model(&self) -> CompModel {
        comp_model(self.data)
    }

    /// The alarm kind named by ACTION: `AUDIO` or `EMAIL`, anything else
    /// (a display action, an unknown one, or no action at all) displays.
    pub fn get_type(&self) -> (r: VAlarmType)
        requires
            self.data.slots@.len() == 8,
        ensures
            r == spec_alarm_type(self.model()),
    {
        let slot = &self.data.slots[0];
        if slot.len() == 0 {
            return VAlarmType::Display;
        }
        match &slot[slot.len() - 1].value {
            crate::ical::objects::generics::Val::Text(s) => {
                if crate::strutil::str_eq(s.as_str(), "AUDIO") {
                    VAlarmType::Audio
                } else if crate::strutil::str_eq(s.as_str(), "EMAIL") {
                    VAlarmType::Email
                } else {
                    VAlarmType::Display
                }
            },
            _ => VAlarmType::Display,
        }
    }
}

/// The alarm kind a slot store denotes.
pub open spec fn spec_alarm_type(m: CompModel) -> VAlarmType {
    if m.slots[0].len() > 0 && m.slots[0].last().value
        == crate::ical::objects::generics::ValModel::Text("AUDIO"@) {
        VAlarmType::Audio
    } else if m.slots[0].len() > 0 && m.slots[0].last().value
        == crate::ical::objects::generics::ValModel::Text("EMAIL"@) {
        VAlarmType::Email
    } else {
        VAlarmType::Display
    }
}

impl Validadable for VAlarm {
    fn validate(&self) -> (r: Result<(), CodecError>) {
        Ok(())
    }
}

} // verus!
