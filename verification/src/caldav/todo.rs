//! One fetched todo: the REPORT entry's etag and URL, the enclosing
//! calendar with the todo taken out, and the todo itself.  Also the
//! current/past partition that the percent-complete filters induce.

use vstd::prelude::*;

verus! {

broadcast use vstd::set::group_set_axioms;

use crate::caldav::parser::{XmlElem, XmlModel, xml_model, follow_tree, sp_follow, split_dots, sp_get_child, ns_d, ns_c};
use crate::ical::parser::{ParseError, sp_parse_vcalendar};
use crate::ical::objects::generics::{VCalendar, ICalObject, CompModel, CalModel, ObjModel, ValModel, cal_model, obj_model, objs_model, comp_model};
use crate::ical::objects::vtodo::VTodo;
use crate::ical::serializer::{sp_to_ics, ICSAble};

/// Why a CalDAV response could not be used.
#[derive(Clone, Copy, Debug, PartialEq, Eq, Structural)]
pub enum CaldavError {
    /// A REPORT entry carries no href.
    MissingHref,
    /// A response carries no propstat/prop element.
    MissingProp,
    /// A REPORT entry carries no getetag.
    MissingEtag,
    /// A REPORT entry carries no calendar-data.
    MissingCalendarData,
    /// The calendar data holds no VTODO component.
    MissingVTodo,
    /// The calendar data is not a readable iCalendar document.
    Ical(ParseError),
}

/// Spec view of a fetched todo.
pub struct TodoModel {
    pub etag: Seq<char>,
    pub url: Seq<char>,
    pub vcal: CalModel,
    pub vtodo: CompModel,
}

/// The whole VTODO REPORT entry.
pub struct CalendarTodo {
    pub etag: String,
    pub url: String,
    /// The parsed document, with the extracted todo removed.
    pub vcal: VCalendar,
    pub vtodo: VTodo,
}

pub open spec fn todo_model(t: CalendarTodo) -> TodoModel {
    TodoModel {
        etag: t.etag@,
        url: t.url@,
        vcal: cal_model(t.vcal),
        vtodo: comp_model(t.vtodo.data),
    }
}

/// Index of the first VTODO member, or the length if there is none.
pub open spec fn find_todo_index(children: Seq<ObjModel>) -> nat
    decreases children.len(),
{
    if children.len() == 0 {
        0
    } else if children[0] is Todo {
        0
    } else {
        1 + find_todo_index(children.skip(1))
    }
}

/// How one REPORT response entry reads as a todo: href, etag and
/// calendar-data are required; the data must parse and hold a VTODO,
/// whose first occurrence is split out of the document.
pub open spec fn sp_parse_todo(m: XmlModel) -> Result<TodoModel, CaldavError> {
    match sp_follow(m, split_dots("href"@), 0, "DAV:"@) {
        None => Err(CaldavError::MissingHref),
        Some(href) => match sp_follow(m, split_dots("propstat.prop"@), 0, "DAV:"@) {
            None => Err(CaldavError::MissingProp),
            Some(prop) => match sp_get_child(prop, "getetag"@, "DAV:"@) {
                None => Err(CaldavError::MissingEtag),
                Some(etag) => match sp_get_child(
                    prop,
                    "calendar-data"@,
                    "urn:ietf:params:xml:ns:caldav"@,
                ) {
                    None => Err(CaldavError::MissingCalendarData),
                    Some(ics) => match sp_parse_vcalendar(ics.text) {
                        Err(e) => Err(CaldavError::Ical(e)),
                        Ok(cal) => {
                            let i = find_todo_index(cal.children);
                            if i < cal.children.len() {
                                match cal.children[i as int] {
                                    ObjModel::Todo(todo) => Ok(
                                        TodoModel {
                                            etag: etag.text,
                                            url: href.text,
                                            vcal: CalModel {
                                                children: cal.children.remove(i as int),
                                            },
                                            vtodo: todo,
                                        },
                                    ),
                                    _ => Err(CaldavError::MissingVTodo),
                                }
                            } else {
                                Err(CaldavError::MissingVTodo)
                            }
                        },
                    },
                },
            },
        },
    }
}

impl CalendarTodo {
    /// Reads one REPORT response entry.
    pub fn parse(el: &XmlElem) -> (r: Result<CalendarTodo, CaldavError>)
        ensures
            match r {
                Ok(t) => sp_parse_todo(xml_model(*el)) == Ok::<TodoModel, CaldavError>(
                    todo_model(t),
                ),
                Err(e) => sp_parse_todo(xml_model(*el)) == Err::<TodoModel, CaldavError>(e),
            },
    {
        let href = match follow_tree(el, "href", ns_d()) {
            Some(h) => h,
            None => {
                return Err(CaldavError::MissingHref);
            },
        };
        let prop = match follow_tree(el, "propstat.prop", ns_d()) {
            Some(p) => p,
            None => {
                return Err(CaldavError::MissingProp);
            },
        };
        let etag = match prop.get_child("getetag", ns_d()) {
            Some(e) => e,
            None => {
                return Err(CaldavError::MissingEtag);
            },
        };
        let ics = match prop.get_child("calendar-data", ns_c()) {
            Some(c) => c,
            None => {
                return Err(CaldavError::MissingCalendarData);
            },
        };
        let mut vcal = match VCalendar::parse(ics.get_text().as_str()) {
            Ok(cal) => cal,
            Err(e) => {
                return Err(CaldavError::Ical(e));
            },
        };
        let ghost cm = cal_model(vcal);
        let mut i: usize = 0;
        proof {
            crate::ical::objects::generics::lemma_objs_model_len(vcal.children@);
        }
        while i < vcal.children.len()
            invariant
                i <= vcal.children@.len(),
                cm == cal_model(vcal),
                cm.children.len() == vcal.children@.len(),
                forall|j: int| 0 <= j < i ==> !((#[trigger] cm.children[j]) is Todo),
                sp_follow(xml_model(*el), split_dots("href"@), 0, "DAV:"@) == Some(
                    xml_model(*href),
                ),
                sp_follow(xml_model(*el), split_dots("propstat.prop"@), 0, "DAV:"@) == Some(
                    xml_model(*prop),
                ),
                sp_get_child(xml_model(*prop), "getetag"@, "DAV:"@) == Some(xml_model(*etag)),
                sp_get_child(xml_model(*prop), "calendar-data"@, "urn:ietf:params:xml:ns:caldav"@)
                    == Some(xml_model(*ics)),
                sp_parse_vcalendar(xml_model(*ics).text) == Ok::<CalModel, ParseError>(cm),
            decreases vcal.children@.len() - i,
        {
            proof {
                crate::ical::serializer::lemma_objs_model_index(vcal.children@, i as int);
            }
            let is_todo = matches!(&vcal.children[i], ICalObject::VTodo(_));
            if is_todo {
                proof {
                    assert(cm.children[i as int] is Todo);
                    lemma_find_todo_at(cm.children, i as int);
                }
                let ghost oldch = vcal.children@;
                let child = vcal.children.remove(i);
                proof {
                    lemma_objs_model_remove(oldch, i as int);
                    assert(objs_model(vcal.children@) == cm.children.remove(i as int));
                }
                match child {
                    ICalObject::VTodo(vtodo) => {
                        proof {
                            assert(cm.children[i as int] == ObjModel::Todo(
                                comp_model(vtodo.data),
                            ));
                            assert(cal_model(vcal) == CalModel {
                                children: cm.children.remove(i as int),
                            });
                        }
                        return Ok(
                            CalendarTodo {
                                etag: etag.get_text().clone(),
                                url: href.get_text().clone(),
                                vcal,
                                vtodo,
                            },
                        );
                    },
                    _ => {
                        proof {
                            assert(false);
                        }
                        return Err(CaldavError::MissingVTodo);
                    },
                }
            }
            i = i + 1;
        }
        proof {
            lemma_find_todo_at(cm.children, vcal.children@.len() as int);
        }
        Err(CaldavError::MissingVTodo)
    }

    /// Serializes the enclosing calendar (without the extracted todo).
    pub fn serialize(&self) -> (r: String)
        ensures
            r@ == sp_to_ics(cal_model(self.vcal)),
    {
        self.vcal.to_ics()
    }
}

/// With no VTODO among the first `k` members, the first-VTODO index is at
/// least `k`; at a VTODO it is exactly there.
proof fn lemma_find_todo_at(children: Seq<ObjModel>, k: int)
    requires
        0 <= k <= children.len(),
        forall|j: int| 0 <= j < k ==> !((#[trigger] children[j]) is Todo),
        k == children.len() || children[k] is Todo,
    ensures
        find_todo_index(children) == k,
    decreases k,
{
    if children.len() == 0 {
    } else if k == 0 {
    } else {
        assert(forall|j: int|
            0 <= j < k - 1 ==> #[trigger] children.skip(1)[j] == children[j + 1]);
        lemma_find_todo_at(children.skip(1), k - 1);
    }
}

/// Removing one member removes exactly its model.
proof fn lemma_objs_model_remove(s: Seq<ICalObject>, i: int)
    requires
        0 <= i < s.len(),
    ensures
        objs_model(s.remove(i)) == objs_model(s).remove(i),
    decreases i,
{
    crate::ical::objects::generics::lemma_objs_model_len(s);
    if i == 0 {
        assert(s.remove(0) =~= s.skip(1));
        assert(objs_model(s).remove(0) =~= objs_model(s.skip(1)));
    } else {
        assert(s.remove(i)[0] == s[0]);
        assert(s.remove(i).skip(1) =~= s.skip(1).remove(i - 1));
        lemma_objs_model_remove(s.skip(1), i - 1);
        crate::ical::objects::generics::lemma_objs_model_len(s.remove(i));
        assert(objs_model(s.remove(i)) == seq![crate::ical::objects::generics::obj_model(s[0])]
            + objs_model(s.skip(1).remove(i - 1)));
        assert(seq![crate::ical::objects::generics::obj_model(s[0])] + objs_model(s.skip(1)).remove(
            i - 1,
        ) =~= objs_model(s).remove(i));
    }
}

/// Whether a todo counts as past: its PERCENT-COMPLETE is exactly 100.
pub open spec fn is_past_model(m: CompModel) -> bool {
    m.slots.len() > 11 && m.slots[11].len() > 0 && m.slots[11].last().value == ValModel::Int(100)
}

/// Whether a todo counts as current: its PERCENT-COMPLETE is absent or
/// not 100.
pub open spec fn is_current_model(m: CompModel) -> bool {
    !is_past_model(m)
}

impl CalendarTodo {
    /// Whether this todo belongs to the past partition.
    pub fn is_past(&self) -> (r: bool)
        ensures
            r == is_past_model(comp_model(self.vtodo.data)),
    {
        let slots = &self.vtodo.data.slots;
        if slots.len() <= 11 {
            return false;
        }
        let slot = &slots[11];
        if slot.len() == 0 {
            return false;
        }
        proof {
            assert(comp_model(self.vtodo.data).slots[11] == crate::ical::objects::generics::props_model(self.vtodo.data.slots@[11]@));
        }
        match &slot[slot.len() - 1].value {
            crate::ical::objects::generics::Val::Int(n) => *n == 100,
            _ => false,
        }
    }

    /// Whether this todo belongs to the current partition.
    pub fn is_current(&self) -> (r: bool)
        ensures
            r == is_current_model(comp_model(self.vtodo.data)),
    {
        !self.is_past()
    }
}

/// Current/past partition: every todo is in exactly one of the two
/// classes, whatever its fields hold.
pub proof fn lemma_current_past_partition(m: CompModel)
    ensures
        is_current_model(m) <==> !is_past_model(m),
{
}

/// The UID a todo carries, if any: the last UID slot entry's text.
pub open spec fn todo_uid(m: CompModel) -> Option<Seq<char>> {
    if m.slots.len() > 0 && m.slots[0].len() > 0 {
        match m.slots[0].last().value {
            ValModel::Text(t) => Some(t),
            _ => None,
        }
    } else {
        None
    }
}

/// Current/past partition over a fetched batch: with pairwise distinct
/// UIDs, the UID sets of the current and the past todos are disjoint and
/// together are exactly the UID set of the whole batch.
pub proof fn lemma_partition_uids(todos: Seq<CompModel>)
    requires
        forall|i: int, j: int|
            0 <= i < j < todos.len() ==> todo_uid(#[trigger] todos[i]) != todo_uid(
                #[trigger] todos[j],
            ),
    ensures
        uid_set(todos.filter(|m: CompModel| is_current_model(m))).disjoint(
            uid_set(todos.filter(|m: CompModel| is_past_model(m))),
        ),
        uid_set(todos.filter(|m: CompModel| is_current_model(m))) + uid_set(
            todos.filter(|m: CompModel| is_past_model(m)),
        ) =~= uid_set(todos),
    decreases todos.len(),
{
    let cur = |m: CompModel| is_current_model(m);
    let past = |m: CompModel| is_past_model(m);
    reveal_with_fuel(Seq::filter, 2);
    if todos.len() == 0 {
        assert(todos.filter(cur) =~= Seq::<CompModel>::empty());
        assert(todos.filter(past) =~= Seq::<CompModel>::empty());
    } else {
        let head = todos[0];
        let tail = todos.skip(1);
        assert(forall|i: int, j: int|
            0 <= i < j < tail.len() ==> todo_uid(#[trigger] tail[i]) != todo_uid(
                #[trigger] tail[j],
            )) by {
            assert(forall|i: int| 0 <= i < tail.len() ==> #[trigger] tail[i] == todos[i + 1]);
        }
        lemma_partition_uids(tail);
        assert(seq![head] + tail =~= todos);
        Seq::<CompModel>::filter_distributes_over_add(seq![head], tail, cur);
        Seq::<CompModel>::filter_distributes_over_add(seq![head], tail, past);
        assert(seq![head].drop_last() =~= Seq::<CompModel>::empty());
        assert(seq![head].filter(cur) =~= if is_current_model(head) {
            seq![head]
        } else {
            Seq::<CompModel>::empty()
        });
        assert(seq![head].filter(past) =~= if is_past_model(head) {
            seq![head]
        } else {
            Seq::<CompModel>::empty()
        });
        lemma_uid_set_member(tail, head);
        if is_past_model(head) {
            assert(todos.filter(past) == seq![head].filter(past) + tail.filter(past));
            assert(todos.filter(past) =~= seq![head] + tail.filter(past));
            assert(todos.filter(cur) =~= Seq::<CompModel>::empty() + tail.filter(cur));
            assert(todos.filter(cur) =~= tail.filter(cur));
            lemma_uid_set_prepend(tail.filter(past), head);
            lemma_filter_subseq_uid(tail, past, head);
            lemma_filter_subseq_uid(tail, cur, head);
        } else {
            assert(todos.filter(cur) == seq![head].filter(cur) + tail.filter(cur));
            assert(todos.filter(cur) =~= seq![head] + tail.filter(cur));
            assert(todos.filter(past) =~= Seq::<CompModel>::empty() + tail.filter(past));
            assert(todos.filter(past) =~= tail.filter(past));
            lemma_uid_set_prepend(tail.filter(cur), head);
            lemma_filter_subseq_uid(tail, cur, head);
            lemma_filter_subseq_uid(tail, past, head);
        }
        lemma_uid_set_prepend(tail, head);
    }
}

/// The set of UIDs of a batch.
pub open spec fn uid_set(todos: Seq<CompModel>) -> Set<Option<Seq<char>>> {
    todos.map_values(|m: CompModel| todo_uid(m)).to_set()
}

proof fn lemma_uid_set_prepend(todos: Seq<CompModel>, head: CompModel)
    ensures
        uid_set(seq![head] + todos) =~= uid_set(todos).insert(todo_uid(head)),
{
    let all = seq![head] + todos;
    let f = |m: CompModel| todo_uid(m);
    assert forall|u: Option<Seq<char>>| uid_set(all).contains(u) implies uid_set(todos).insert(
        todo_uid(head),
    ).contains(u) by {
        assert(all.map_values(f).contains(u));
        let i = choose|i: int|
            0 <= i < all.map_values(f).len() && all.map_values(f)[i] == u;
        if i > 0 {
            assert(todos.map_values(f)[i - 1] == u);
            assert(todos.map_values(f).contains(u));
        }
    }
    assert forall|u: Option<Seq<char>>|
        uid_set(todos).insert(todo_uid(head)).contains(u) implies uid_set(all).contains(u) by {
        if u == todo_uid(head) {
            assert(all.map_values(f)[0] == u);
            assert(all.map_values(f).contains(u));
        } else {
            assert(todos.map_values(f).contains(u));
            let i = choose|i: int|
                0 <= i < todos.map_values(f).len() && todos.map_values(f)[i] == u;
            assert(all.map_values(f)[i + 1] == u);
            assert(all.map_values(f).contains(u));
        }
    }
}

/// An element of a filtered batch is an element of the batch.
proof fn lemma_filter_element_of(s: Seq<CompModel>, p: spec_fn(CompModel) -> bool, i: int)
    requires
        0 <= i < s.filter(p).len(),
    ensures
        s.contains(s.filter(p)[i]),
    decreases s.len(),
{
    reveal_with_fuel(Seq::filter, 2);
    if s.len() > 0 {
        let fp = s.filter(p);
        let prior = s.drop_last().filter(p);
        if i < prior.len() {
            lemma_filter_element_of(s.drop_last(), p, i);
            let e = s.drop_last().filter(p)[i];
            let j = choose|j: int| 0 <= j < s.drop_last().len() && s.drop_last()[j] == e;
            assert(s[j] == e);
        } else {
            assert(p(s.last()));
            assert(fp[i] == s.last());
            assert(s[s.len() - 1] == s.last());
        }
    }
}

/// A UID absent from a batch is absent from any filtering of it.
proof fn lemma_filter_subseq_uid(
    todos: Seq<CompModel>,
    p: spec_fn(CompModel) -> bool,
    head: CompModel,
)
    requires
        !uid_set(todos).contains(todo_uid(head)),
    ensures
        !uid_set(todos.filter(p)).contains(todo_uid(head)),
{
    let f = |m: CompModel| todo_uid(m);
    let fp = todos.filter(p);
    if uid_set(fp).contains(todo_uid(head)) {
        assert(fp.map_values(f).contains(todo_uid(head)));
        let i = choose|i: int|
            0 <= i < fp.map_values(f).len() && fp.map_values(f)[i] == todo_uid(head);
        assert(fp.map_values(f)[i] == f(fp[i]));
        lemma_filter_element_of(todos, p, i);
        assert(todos.contains(fp[i]));
        let j = choose|j: int| 0 <= j < todos.len() && todos[j] == fp[i];
        assert(todos.map_values(f)[j] == f(todos[j]));
        assert(todos.map_values(f).contains(todo_uid(head)));
    }
}

/// A head with a UID unlike every tail UID is absent from the tail's set.
proof fn lemma_uid_set_member(tail: Seq<CompModel>, head: CompModel)
    requires
        forall|i: int| 0 <= i < tail.len() ==> todo_uid(#[trigger] tail[i]) != todo_uid(head),
    ensures
        !uid_set(tail).contains(todo_uid(head)),
{
    let f = |m: CompModel| todo_uid(m);
    if uid_set(tail).contains(todo_uid(head)) {
        assert(tail.map_values(f).contains(todo_uid(head)));
        let i = choose|i: int|
            0 <= i < tail.map_values(f).len() && tail.map_values(f)[i] == todo_uid(head);
        assert(tail.map_values(f)[i] == f(tail[i]));
        assert(todo_uid(tail[i]) == todo_uid(head));
    }
}

} // verus!
