//! A todo record with its fields flattened to strings, split out of the
//! enclosing document and rebuildable into it.

use vstd::prelude::*;

verus! {

use crate::ical::tree::lorax;
use crate::ical::tree::types::{
    TreeComponent,
    TreeObject,
    TreeProperty,
    TreeCompModel,
    TreeObjModel,
    TreePropModel,
    tcomp_model,
    tobj_model,
    tobjs_model,
    tfind_comp,
    lemma_tobjs_model_push,
    lemma_tobjs_model_len,
};

/// The whole VTODO REPORT entry, fields flattened.
pub struct CalendarTodo {
    pub etag: String,
    pub url: String,
    /// The parsed document, with the todo taken out.
    pub vcal: TreeComponent,
    pub vtodo: VTodo,
}

/// A todo's fields as raw strings: unset fields are empty, and anything
/// unrecognized stays verbatim under `unknown`.
pub struct VTodo {
    pub class: String,
    pub completed: String,
    pub created: String,
    pub description: String,
    pub dtstamp: String,
    pub dtstart: String,
    pub geo: String,
    pub last_modified: String,
    pub location: String,
    pub organizer: String,
    pub percent_complete: String,
    pub priority: String,
    pub recurid: String,
    pub seq: String,
    pub status: String,
    pub summary: String,
    pub uid: String,
    pub due: String,
    pub duration: String,
    pub unknown: Vec<TreeObject>,
}

impl CalendarTodo {
    /// Parses one entry's calendar data and takes its first todo apart
    /// into flat fields.
    pub fn parse(ical_str: String, etag: String, url: String) -> (r: Option<CalendarTodo>)
        ensures
            match r {
                Some(t) => lorax::sp_tree_parse(ical_str@) matches Ok(m) && tfind_comp(
                    m.children,
                    "VTODO"@,
                ) < m.children.len() && tcomp_model(t.vcal).children == m.children.remove(
                    tfind_comp(m.children, "VTODO"@) as int,
                ) && t.etag@ == etag@ && t.url@ == url@,
                None => lorax::sp_tree_parse(ical_str@) matches Err(_) || (lorax::sp_tree_parse(
                    ical_str@,
                ) matches Ok(m) && tfind_comp(m.children, "VTODO"@) == m.children.len()),
            },
    {
        let mut vcal = match lorax::parse(ical_str.as_str()) {
            Ok(v) => v,
            Err(_) => {
                return None;
            },
        };
        proof {
            lemma_tobjs_model_len(vcal.children@);
        }
        let mut comp = match vcal.pop_component("VTODO") {
            Some(c) => c,
            None => {
                return None;
            },
        };
        let vtodo = VTodo {
            class: comp.pop_property_value_or_empty("CLASS"),
            completed: comp.pop_property_value_or_empty("COMPLETED"),
            created: comp.pop_property_value_or_empty("CREATED"),
            description: comp.pop_property_value_or_empty("DESCRIPTION"),
            dtstamp: comp.pop_property_value_or_empty("DTSTAMP"),
            dtstart: comp.pop_property_value_or_empty("DTSTART"),
            geo: comp.pop_property_value_or_empty("GEO"),
            last_modified: comp.pop_property_value_or_empty("LAST-MODIFIED"),
            location: comp.pop_property_value_or_empty("LOCATION"),
            organizer: comp.pop_property_value_or_empty("ORGANIZER"),
            percent_complete: comp.pop_property_value_or_empty("PERCENT-COMPLETE"),
            priority: comp.pop_property_value_or_empty("PRIORITY"),
            recurid: comp.pop_property_value_or_empty("RECURID"),
            seq: comp.pop_property_value_or_empty("SEQ"),
            status: comp.pop_property_value_or_empty("STATUS"),
            summary: comp.pop_property_value_or_empty("SUMMARY"),
            uid: comp.pop_property_value_or_empty("UID"),
            due: comp.pop_property_value_or_empty("DUE"),
            duration: comp.pop_property_value_or_empty("DURATION"),
            unknown: comp.children,
        };
        Some(CalendarTodo { etag, url, vcal, vtodo })
    }

    /// Rebuilds the document with the todo reinserted at the end, and
    /// renders it as plain unfolded text.
    pub fn serialize(self) -> (r: String)
        ensures
            r@ == lorax::tree_comp_render(
                TreeCompModel {
                    name: tcomp_model(self.vcal).name,
                    params: tcomp_model(self.vcal).params,
                    children: tcomp_model(self.vcal).children.push(
                        rebuilt_vtodo_model(self.vtodo),
                    ),
                },
            ),
    {
        let mut vcal = self.vcal;
        let vtodo_comp = rebuild_vtodo(self.vtodo);
        let ghost oldch = vcal.children@;
        vcal.children.push(TreeObject::Component(vtodo_comp));
        proof {
            assert(vcal.children@ == oldch.push(vcal.children@.last()));
            lemma_tobjs_model_push(oldch, vcal.children@.last());
        }
        lorax::serialize(&vcal)
    }
}

/// The model of the rebuilt todo component: one property per field in a
/// fixed order, then the unrecognized members.
pub open spec fn rebuilt_vtodo_model(t: VTodo) -> TreeObjModel {
    TreeObjModel::Component(
        TreeCompModel {
            name: "VTODO"@,
            params: Seq::empty(),
            children: seq![
                prop_m("CLASS"@, t.class@),
                prop_m("COMPLETED"@, t.completed@),
                prop_m("CREATED"@, t.created@),
                prop_m("DESCRIPTION"@, t.description@),
                prop_m("DTSTAMP"@, t.dtstamp@),
                prop_m("DTSTART"@, t.dtstart@),
                prop_m("GEO"@, t.geo@),
                prop_m("LAST-MODIFIED"@, t.last_modified@),
                prop_m("LOCATION"@, t.location@),
                prop_m("ORGANIZER"@, t.organizer@),
                prop_m("PERCENT-COMPLETE"@, t.percent_complete@),
                prop_m("PRIORITY"@, t.priority@),
                prop_m("RECURID"@, t.recurid@),
                prop_m("SEQ"@, t.seq@),
                prop_m("STATUS"@, t.status@),
                prop_m("SUMMARY"@, t.summary@),
                prop_m("UID"@, t.uid@),
                prop_m("DUE"@, t.due@),
                prop_m("DURATION"@, t.duration@),
            ] + tobjs_model(t.unknown@),
        },
    )
}

pub open spec fn prop_m(name: Seq<char>, value: Seq<char>) -> TreeObjModel {
    TreeObjModel::Property(TreePropModel { name, params: Seq::empty(), value })
}

/// Rebuilds the todo component from the flat fields.
#[verifier::rlimit(60)]
fn rebuild_vtodo(t: VTodo) -> (r: TreeComponent)
    ensures
        tobj_model(TreeObject::Component(r)) == rebuilt_vtodo_model(t),
{
    let mut children: Vec<TreeObject> = Vec::new();
    children.push(mk_prop("CLASS", t.class));
    children.push(mk_prop("COMPLETED", t.completed));
    children.push(mk_prop("CREATED", t.created));
    children.push(mk_prop("DESCRIPTION", t.description));
    children.push(mk_prop("DTSTAMP", t.dtstamp));
    children.push(mk_prop("DTSTART", t.dtstart));
    children.push(mk_prop("GEO", t.geo));
    children.push(mk_prop("LAST-MODIFIED", t.last_modified));
    children.push(mk_prop("LOCATION", t.location));
    children.push(mk_prop("ORGANIZER", t.organizer));
    children.push(mk_prop("PERCENT-COMPLETE", t.percent_complete));
    children.push(mk_prop("PRIORITY", t.priority));
    children.push(mk_prop("RECURID", t.recurid));
    children.push(mk_prop("SEQ", t.seq));
    children.push(mk_prop("STATUS", t.status));
    children.push(mk_prop("SUMMARY", t.summary));
    children.push(mk_prop("UID", t.uid));
    children.push(mk_prop("DUE", t.due));
    children.push(mk_prop("DURATION", t.duration));
    let mut unknown = t.unknown;
    let ghost base = children@;
    let ghost extra = unknown@;
    children.append(&mut unknown);
    let name = "VTODO".to_owned();
    let r = TreeComponent { name, params: Vec::new(), children };
    proof {
        lemma_tobjs_model_concat(base, extra);
        lemma_tobjs_model_len(base);
        assert forall|k: int|
            0 <= k < 19 implies tobjs_model(base)[k] == rebuilt_vtodo_model_children_head(t)[k] by {
            crate::ical::tree::types::lemma_tobjs_model_index(base, k);
        }
        assert(tobjs_model(base) =~= (rebuilt_vtodo_model_children_head(t)));
        assert(tcomp_model(r).children =~= rebuilt_vtodo_model_children_head(t) + tobjs_model(
            extra,
        ));
        assert(tcomp_model(r).params =~= Seq::<(Seq<char>, Seq<char>)>::empty());
    }
    r
}

/// The fixed-order property models of the rebuilt todo.
pub open spec fn rebuilt_vtodo_model_children_head(t: VTodo) -> Seq<TreeObjModel> {
    seq![
        prop_m("CLASS"@, t.class@),
        prop_m("COMPLETED"@, t.completed@),
        prop_m("CREATED"@, t.created@),
        prop_m("DESCRIPTION"@, t.description@),
        prop_m("DTSTAMP"@, t.dtstamp@),
        prop_m("DTSTART"@, t.dtstart@),
        prop_m("GEO"@, t.geo@),
        prop_m("LAST-MODIFIED"@, t.last_modified@),
        prop_m("LOCATION"@, t.location@),
        prop_m("ORGANIZER"@, t.organizer@),
        prop_m("PERCENT-COMPLETE"@, t.percent_complete@),
        prop_m("PRIORITY"@, t.priority@),
        prop_m("RECURID"@, t.recurid@),
        prop_m("SEQ"@, t.seq@),
        prop_m("STATUS"@, t.status@),
        prop_m("SUMMARY"@, t.summary@),
        prop_m("UID"@, t.uid@),
        prop_m("DUE"@, t.due@),
        prop_m("DURATION"@, t.duration@),
    ]
}

fn mk_prop(name: &str, value: String) -> (r: TreeObject)
    ensures
        tobj_model(r) == prop_m(name@, value@),
{
    let r = TreeObject::Property(
        TreeProperty { name: name.to_owned(), params: Vec::new(), value },
    );
    proof {
        assert(crate::ical::values::base::params_model(Seq::<
            crate::ical::values::base::Param,
        >::empty()) =~= Seq::<(Seq<char>, Seq<char>)>::empty());
    }
    r
}

proof fn lemma_tobjs_model_concat(a: Seq<TreeObject>, b: Seq<TreeObject>)
    ensures
        tobjs_model(a + b) == tobjs_model(a) + tobjs_model(b),
    decreases a.len(),
{
    if a.len() == 0 {
        assert(a + b =~= b);
        assert(tobjs_model(a) =~= Seq::<TreeObjModel>::empty());
        assert(tobjs_model(a) + tobjs_model(b) =~= tobjs_model(b));
    } else {
        assert((a + b)[0] == a[0]);
        assert((a + b).skip(1) =~= a.skip(1) + b);
        lemma_tobjs_model_concat(a.skip(1), b);
        assert(tobjs_model(a + b) == seq![tobj_model(a[0])] + (tobjs_model(a.skip(1)) + tobjs_model(
            b,
        )));
        assert(seq![tobj_model(a[0])] + (tobjs_model(a.skip(1)) + tobjs_model(b)) =~= tobjs_model(
            a,
        ) + tobjs_model(b));
    }
}

} // verus!
