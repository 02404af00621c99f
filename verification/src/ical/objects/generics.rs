//! The typed iCalendar object tree.  Typed components (todos, events,
//! journals, alarms) carry their properties in slots laid out by a
//! per-component field table; everything unrecognized is kept verbatim in
//! unknown children, so serialization is lossless.

use vstd::prelude::*;

verus! {

use crate::ical::values::base::{
    CodecError,
    ICalValueType,
    ICalParameterMap,
    ICalValue,
    Param,
    params_model,
};
use crate::ical::values::string::ICalString;
use crate::ical::values::datetime::{ICalDateTime, DateTimeModel};
use crate::ical::values::duration::ICalDuration;
use crate::ical::objects::vtodo::VTodo;
use crate::ical::objects::valarm::VAlarm;
use crate::ical::objects::vevent::VEvent;
use crate::ical::objects::vjournal::VJournal;
use crate::strutil::str_eq;

/// Which value grammar a field uses.
#[derive(Clone, Copy, Debug, PartialEq, Eq, Structural)]
pub enum ValKind {
    Text,
    Int,
    Time,
    Span,
}

/// A typed property value.
#[derive(Clone, Debug)]
pub enum Val {
    Text(String),
    Int(i32),
    Time(ICalDateTime),
    Span(ICalDuration),
}

/// Spec view of a typed property value.
pub enum ValModel {
    Text(Seq<char>),
    Int(i32),
    Time(DateTimeModel),
    Span(int),
}

pub open spec fn val_model(v: Val) -> ValModel {
    match v {
        Val::Text(s) => ValModel::Text(s@),
        Val::Int(n) => ValModel::Int(n),
        Val::Time(t) => ValModel::Time(t@),
        Val::Span(d) => ValModel::Span(d@),
    }
}

/// One stored property: its typed value and its source parameters.
#[derive(Clone, Debug)]
pub struct Prop {
    pub value: Val,
    pub params: ICalParameterMap,
}

/// Spec view of one stored property.
pub struct PropModel {
    pub value: ValModel,
    pub params: Seq<(Seq<char>, Seq<char>)>,
}

pub open spec fn prop_model(p: Prop) -> PropModel {
    PropModel { value: val_model(p.value), params: params_model(p.params@) }
}

pub open spec fn props_model(s: Seq<Prop>) -> Seq<PropModel> {
    s.map_values(|p: Prop| prop_model(p))
}

/// One field of a typed component: wire name, value grammar, cardinality.
pub struct FieldDef {
    pub name: String,
    pub kind: ValKind,
    pub multiple: bool,
}

/// Spec view of a field table entry.
pub struct FieldSpec {
    pub name: Seq<char>,
    pub kind: ValKind,
    pub multiple: bool,
}

pub open spec fn defs_model(s: Seq<FieldDef>) -> Seq<FieldSpec> {
    s.map_values(|d: FieldDef| FieldSpec { name: d.name@, kind: d.kind, multiple: d.multiple })
}

/// The slot store of one typed component: one property list per field (a
/// single-valued field keeps at most one entry, the last parsed), plus
/// nested alarms and everything unrecognized, in document order.
#[derive(Debug)]
pub struct CompData {
    pub slots: Vec<Vec<Prop>>,
    pub alarms: Vec<VAlarm>,
    pub unknown: Vec<ICalObject>,
}

/// A property the typed model does not know, kept verbatim.
#[derive(Debug)]
pub struct UnknownProperty {
    pub name: String,
    pub value: ICalValue<ICalString>,
}

/// A component the typed model does not know, kept verbatim.
#[derive(Debug)]
pub struct UnknownComponent {
    pub name: String,
    pub params: ICalParameterMap,
    pub children: Vec<ICalObject>,
}

/// Any member of a component's body.
#[derive(Debug)]
pub enum ICalObject {
    UnknownComponent(UnknownComponent),
    UnknownProperty(UnknownProperty),
    VTodo(VTodo),
    VAlarm(VAlarm),
    VEvent(VEvent),
    VJournal(VJournal),
}

/// The root of a document.
#[derive(Debug)]
pub struct VCalendar {
    pub children: Vec<ICalObject>,
}

/// Spec view of a typed component.
pub struct CompModel {
    pub slots: Seq<Seq<PropModel>>,
    pub alarms: Seq<CompModel>,
    pub unknown: Seq<ObjModel>,
}

/// Spec view of a component member.
pub enum ObjModel {
    UComp { name: Seq<char>, params: Seq<(Seq<char>, Seq<char>)>, children: Seq<ObjModel> },
    UProp { name: Seq<char>, params: Seq<(Seq<char>, Seq<char>)>, value: Seq<char> },
    Todo(CompModel),
    Alarm(CompModel),
    Event(CompModel),
    Journal(CompModel),
}

/// Spec view of a document.
pub struct CalModel {
    pub children: Seq<ObjModel>,
}

pub open spec fn comp_model(c: CompData) -> CompModel
    decreases c, 1int,
{
    CompModel {
        slots: c.slots@.map_values(|ps: Vec<Prop>| props_model(ps@)),
        alarms: alarms_model(c.alarms@),
        unknown: objs_model(c.unknown@),
    }
}

pub open spec fn alarms_model(s: Seq<VAlarm>) -> Seq<CompModel>
    decreases s, 0int,
{
    if s.len() == 0 {
        Seq::empty()
    } else {
        seq![comp_model(s[0].data)] + alarms_model(s.skip(1))
    }
}

pub open spec fn objs_model(s: Seq<ICalObject>) -> Seq<ObjModel>
    decreases s, 0int,
{
    if s.len() == 0 {
        Seq::empty()
    } else {
        seq![obj_model(s[0])] + objs_model(s.skip(1))
    }
}

pub open spec fn obj_model(o: ICalObject) -> ObjModel
    decreases o, 2int,
{
    match o {
        ICalObject::UnknownComponent(u) => ObjModel::UComp {
            name: u.name@,
            params: params_model(u.params@),
            children: objs_model(u.children@),
        },
        ICalObject::UnknownProperty(u) => ObjModel::UProp {
            name: u.name@,
            params: params_model(u.value.params@),
            value: u.value.value@,
        },
        ICalObject::VTodo(t) => ObjModel::Todo(comp_model(t.data)),
        ICalObject::VAlarm(a) => ObjModel::Alarm(comp_model(a.data)),
        ICalObject::VEvent(e) => ObjModel::Event(comp_model(e.data)),
        ICalObject::VJournal(j) => ObjModel::Journal(comp_model(j.data)),
    }
}

pub open spec fn cal_model(c: VCalendar) -> CalModel {
    CalModel { children: objs_model(c.children@) }
}

impl ICalObject {
    /// The component or property name this member answers to.
    pub fn get_name(&self) -> (r: &str)
        ensures
            r@ == obj_name(obj_model(*self)),
    {
        match self {
            ICalObject::UnknownComponent(comp) => comp.name.as_str(),
            ICalObject::UnknownProperty(prop) => prop.name.as_str(),
            ICalObject::VTodo(_) => "VTODO",
            ICalObject::VAlarm(_) => "VALARM",
            ICalObject::VEvent(_) => "VEVENT",
            ICalObject::VJournal(_) => "VJOURNAL",
        }
    }
}

/// The name a component member answers to.
pub open spec fn obj_name(o: ObjModel) -> Seq<char> {
    match o {
        ObjModel::UComp { name, .. } => name,
        ObjModel::UProp { name, .. } => name,
        ObjModel::Todo(_) => "VTODO"@,
        ObjModel::Alarm(_) => "VALARM"@,
        ObjModel::Event(_) => "VEVENT"@,
        ObjModel::Journal(_) => "VJOURNAL"@,
    }
}

/// A structure-only validity hook: the typed model does not validate
/// component semantics, so every value is accepted.
pub trait Validadable {
    /// Accepts the value; semantic validation is out of the model's scope.
    fn validate(&self) -> (r: Result<(), CodecError>)
        ensures
            r is Ok,
    ;
}

/// A fresh slot store with one empty slot per field.
pub fn empty_comp(n_fields: usize) -> (r: CompData)
    ensures
        comp_model(r) == empty_comp_model(n_fields as int),
        r.slots@.len() == n_fields,
{
    let mut slots: Vec<Vec<Prop>> = Vec::new();
    let mut i: usize = 0;
    while i < n_fields
        invariant
            i <= n_fields,
            slots@.len() == i,
            forall|k: int| 0 <= k < i ==> #[trigger] slots@[k]@.len() == 0,
        decreases n_fields - i,
    {
        slots.push(Vec::new());
        i = i + 1;
    }
    let r = CompData { slots, alarms: Vec::new(), unknown: Vec::new() };
    proof {
        assert(comp_model(r).slots =~= empty_comp_model(n_fields as int).slots) by {
            assert(forall|k: int|
                0 <= k < n_fields ==> #[trigger] comp_model(r).slots[k] =~= Seq::<
                    PropModel,
                >::empty());
        }
        assert(comp_model(r).alarms =~= Seq::<CompModel>::empty());
        assert(comp_model(r).unknown =~= Seq::<ObjModel>::empty());
        assert(comp_model(r) == empty_comp_model(n_fields as int));
    }
    r
}

/// The model of a fresh slot store.
pub open spec fn empty_comp_model(n: int) -> CompModel {
    CompModel {
        slots: Seq::new(n as nat, |k: int| Seq::empty()),
        alarms: Seq::empty(),
        unknown: Seq::empty(),
    }
}

/// First field index whose wire name matches, or the table length.
pub open spec fn find_field(defs: Seq<FieldSpec>, name: Seq<char>) -> nat
    decreases defs.len(),
{
    if defs.len() == 0 {
        0
    } else if defs[0].name == name {
        0
    } else {
        1 + find_field(defs.skip(1), name)
    }
}

pub proof fn lemma_find_field_props(defs: Seq<FieldSpec>, name: Seq<char>)
    ensures
        find_field(defs, name) <= defs.len(),
        forall|j: int| 0 <= j < find_field(defs, name) ==> defs[j].name != name,
        find_field(defs, name) < defs.len() ==> defs[find_field(defs, name) as int].name == name,
    decreases defs.len(),
{
    if defs.len() > 0 && defs[0].name != name {
        lemma_find_field_props(defs.skip(1), name);
        assert forall|j: int| 0 <= j < find_field(defs, name) implies defs[j].name != name by {
            if j > 0 {
                assert(defs.skip(1)[j - 1] == defs[j]);
            }
        }
        if find_field(defs, name) < defs.len() {
            assert(defs.skip(1)[find_field(defs, name) - 1] == defs[find_field(defs, name) as int]);
        }
    }
}

/// Finds the first matching field executably.
pub fn find_field_x(defs: &Vec<FieldDef>, name: &str) -> (r: usize)
    ensures
        r == find_field(defs_model(defs@), name@),
        r <= defs@.len(),
{
    let mut k: usize = 0;
    while k < defs.len()
        invariant
            k <= defs@.len(),
            forall|j: int| 0 <= j < k ==> defs_model(defs@)[j].name != name@,
        decreases defs@.len() - k,
    {
        if str_eq(defs[k].name.as_str(), name) {
            proof {
                lemma_find_field_at(defs_model(defs@), name@, k as int);
            }
            return k;
        }
        k = k + 1;
    }
    proof {
        lemma_find_field_at(defs_model(defs@), name@, k as int);
    }
    k
}

proof fn lemma_find_field_at(defs: Seq<FieldSpec>, name: Seq<char>, k: int)
    requires
        0 <= k <= defs.len(),
        forall|j: int| 0 <= j < k ==> defs[j].name != name,
        k == defs.len() || defs[k].name == name,
    ensures
        find_field(defs, name) == k,
    decreases k,
{
    if defs.len() == 0 {
    } else if k == 0 {
        if defs[0].name != name {
            lemma_find_field_props(defs.skip(1), name);
        }
    } else {
        assert(defs[0].name != name);
        assert(forall|j: int| 0 <= j < k - 1 ==> #[trigger] defs.skip(1)[j] == defs[j + 1]);
        lemma_find_field_at(defs.skip(1), name, k - 1);
    }
}

pub proof fn lemma_alarms_model_len(s: Seq<VAlarm>)
    ensures
        alarms_model(s).len() == s.len(),
    decreases s.len(),
{
    if s.len() > 0 {
        lemma_alarms_model_len(s.skip(1));
    }
}

pub proof fn lemma_objs_model_len(s: Seq<ICalObject>)
    ensures
        objs_model(s).len() == s.len(),
    decreases s.len(),
{
    if s.len() > 0 {
        lemma_objs_model_len(s.skip(1));
    }
}

pub proof fn lemma_alarms_model_push(s: Seq<VAlarm>, x: VAlarm)
    ensures
        alarms_model(s.push(x)) == alarms_model(s).push(comp_model(x.data)),
    decreases s.len(),
{
    if s.len() == 0 {
        reveal_with_fuel(alarms_model, 2);
        assert(s.push(x).skip(1) =~= Seq::<VAlarm>::empty());
        assert(s.push(x)[0] == x);
        assert(alarms_model(s.push(x)) =~= alarms_model(s).push(comp_model(x.data)));
    } else {
        assert(s.push(x).skip(1) =~= s.skip(1).push(x));
        lemma_alarms_model_push(s.skip(1), x);
        assert(s.push(x)[0] == s[0]);
        assert(alarms_model(s.push(x)) == seq![comp_model(s[0].data)] + alarms_model(
            s.skip(1).push(x),
        ));
        assert(seq![comp_model(s[0].data)] + alarms_model(s.skip(1)).push(comp_model(x.data))
            =~= (seq![comp_model(s[0].data)] + alarms_model(s.skip(1))).push(comp_model(x.data)));
    }
}

pub proof fn lemma_objs_model_push(s: Seq<ICalObject>, x: ICalObject)
    ensures
        objs_model(s.push(x)) == objs_model(s).push(obj_model(x)),
    decreases s.len(),
{
    if s.len() == 0 {
        reveal_with_fuel(objs_model, 2);
        assert(s.push(x).skip(1) =~= Seq::<ICalObject>::empty());
        assert(s.push(x)[0] == x);
        assert(objs_model(s.push(x)) =~= objs_model(s).push(obj_model(x)));
    } else {
        assert(s.push(x).skip(1) =~= s.skip(1).push(x));
        lemma_objs_model_push(s.skip(1), x);
        assert(s.push(x)[0] == s[0]);
        assert(objs_model(s.push(x)) == seq![obj_model(s[0])] + objs_model(s.skip(1).push(x)));
        assert(seq![obj_model(s[0])] + objs_model(s.skip(1)).push(obj_model(x)) =~= (seq![
            obj_model(s[0]),
        ] + objs_model(s.skip(1))).push(obj_model(x)));
    }
}

/// Clones a parameter list, preserving its model.
pub fn clone_params(ps: &ICalParameterMap) -> (r: ICalParameterMap)
    ensures
        params_model(r@) == params_model(ps@),
{
    let r = ps.clone();
    proof {
        assert forall|i: int| 0 <= i < ps@.len() implies (#[trigger] r@[i]).name@ == ps@[i].name@
            && r@[i].value@ == ps@[i].value@ by {
            assert(vstd::pervasive::cloned::<Param>(ps[i], r[i]));
        }
        assert(params_model(r@) =~= params_model(ps@));
    }
    r
}

/// The value grammar of one field kind.
pub open spec fn sp_val_parse(
    kind: ValKind,
    raw: Seq<char>,
    params: Seq<(Seq<char>, Seq<char>)>,
) -> Result<ValModel, CodecError> {
    match kind {
        ValKind::Text => Ok(ValModel::Text(raw)),
        ValKind::Int => match crate::ical::values::integer::sp_parse_i32(raw) {
            Ok(n) => Ok(ValModel::Int(n)),
            Err(e) => Err(e),
        },
        ValKind::Time => match crate::ical::values::datetime::sp_parse_datetime(raw, params) {
            Ok(t) => Ok(ValModel::Time(t)),
            Err(e) => Err(e),
        },
        ValKind::Span => match crate::ical::values::duration::sp_parse_duration(raw) {
            Ok(d) => Ok(ValModel::Span(d)),
            Err(e) => Err(e),
        },
    }
}

/// Parses one raw value by its field kind.
pub fn val_parse(kind: ValKind, raw: &str, params: &ICalParameterMap) -> (r: Result<
    Val,
    CodecError,
>)
    ensures
        match r {
            Ok(v) => sp_val_parse(kind, raw@, params_model(params@)) == Ok::<ValModel, CodecError>(
                val_model(v),
            ),
            Err(e) => sp_val_parse(kind, raw@, params_model(params@)) == Err::<
                ValModel,
                CodecError,
            >(e),
        },
{
    match kind {
        ValKind::Text => match <ICalString as ICalValueType>::parse(raw, params) {
            Ok(s) => Ok(Val::Text(s)),
            Err(e) => Err(e),
        },
        ValKind::Int => match <i32 as ICalValueType>::parse(raw, params) {
            Ok(n) => Ok(Val::Int(n)),
            Err(e) => Err(e),
        },
        ValKind::Time => match <ICalDateTime as ICalValueType>::parse(raw, params) {
            Ok(t) => Ok(Val::Time(t)),
            Err(e) => Err(e),
        },
        ValKind::Span => match <ICalDuration as ICalValueType>::parse(raw, params) {
            Ok(d) => Ok(Val::Span(d)),
            Err(e) => Err(e),
        },
    }
}


/// The value grammar a stored value answers to.
pub open spec fn kind_of(vm: ValModel) -> ValKind {
    match vm {
        ValModel::Text(_) => ValKind::Text,
        ValModel::Int(_) => ValKind::Int,
        ValModel::Time(_) => ValKind::Time,
        ValModel::Span(_) => ValKind::Span,
    }
}

/// A stored value that can round-trip under its parameters: datetimes are
/// consistent with their `TZID`, durations fit the second count's range.
pub open spec fn val_wf(vm: ValModel, params: Seq<(Seq<char>, Seq<char>)>) -> bool {
    match vm {
        ValModel::Text(_) => true,
        ValModel::Int(_) => true,
        ValModel::Time(t) => crate::ical::values::datetime::datetime_wf(t, params),
        ValModel::Span(d) => -0x8000_0000_0000_0000 <= d <= 0x7fff_ffff_ffff_ffff,
    }
}

/// Typed-value round-trip: parsing the canonical text of any well-formed
/// stored value, under its own parameters, yields the value back.
pub proof fn lemma_value_round_trip(vm: ValModel, params: Seq<(Seq<char>, Seq<char>)>)
    requires
        val_wf(vm, params),
    ensures
        sp_val_parse(
            kind_of(vm),
            crate::ical::serializer::sp_val_canon(vm),
            params,
        ) == Ok::<ValModel, CodecError>(vm),
{
    match vm {
        ValModel::Text(_) => {},
        ValModel::Int(n) => {
            crate::ical::values::integer::lemma_i32_round_trip(n);
        },
        ValModel::Time(t) => {
            crate::ical::values::datetime::lemma_datetime_round_trip(t, params);
        },
        ValModel::Span(d) => {
            crate::ical::values::duration::lemma_duration_round_trip(d);
        },
    }
}

} // verus!
