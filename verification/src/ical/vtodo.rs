//! A flat, string-typed reading of the first VTODO of a document, over
//! the line-oriented block reader.

use vstd::prelude::*;

verus! {

use crate::ical::peg::{self, Element, PegModel, pfind_param, pfind_block, sp_peg_parse};
use crate::strutil::str_eq;

/// The raw value of the first parameter member with the given name.
pub open spec fn pv(children: Seq<PegModel>, name: Seq<char>) -> Option<Seq<char>> {
    if pfind_param(children, name) < children.len() {
        match children[pfind_param(children, name) as int] {
            PegModel::Param { value, .. } => Some(value),
            PegModel::Block { .. } => None,
        }
    } else {
        None
    }
}

/// The members of the first block member with the given name.
pub open spec fn bv(children: Seq<PegModel>, name: Seq<char>) -> Option<Seq<PegModel>> {
    if pfind_block(children, name) < children.len() {
        match children[pfind_block(children, name) as int] {
            PegModel::Block { children: ch, .. } => Some(ch),
            PegModel::Param { .. } => None,
        }
    } else {
        None
    }
}

/// Spec view of the flat todo reading.
pub struct VTodoModel {
    pub etag: Seq<char>,
    pub completed: Option<Seq<char>>,
    pub created: Option<Seq<char>>,
    pub dtstamp: Option<Seq<char>>,
    pub last_mod: Option<Seq<char>>,
    pub percent: Option<Seq<char>>,
    pub priority: Option<Seq<char>>,
    pub status: Option<Seq<char>>,
    pub description: Option<Seq<char>>,
    pub summary: Option<Seq<char>>,
    pub uid: Option<Seq<char>>,
}

/// What deserializing answers: the document must read as a block whose
/// `VERSION` is `2.0` and which holds a `VTODO` block; the named fields
/// are that block's parameter values.
pub open spec fn sp_deserialize(text: Seq<char>, etag: Seq<char>) -> Option<VTodoModel> {
    match sp_peg_parse(text) {
        None => None,
        Some(e) => match e {
            PegModel::Param { .. } => None,
            PegModel::Block { children, .. } => {
                if pv(children, "VERSION"@) != Some("2.0"@) {
                    None
                } else {
                    match bv(children, "VTODO"@) {
                        None => None,
                        Some(todo) => Some(
                            VTodoModel {
                                etag: etag,
                                completed: pv(todo, "COMPLETED"@),
                                created: pv(todo, "CREATED"@),
                                dtstamp: pv(todo, "DTSTAMP"@),
                                last_mod: pv(todo, "LAST-MODIFIED"@),
                                percent: pv(todo, "PERCENT-COMPLETE"@),
                                priority: pv(todo, "PRIORITY"@),
                                status: pv(todo, "STATUS"@),
                                description: pv(todo, "DESCRIPTION"@),
                                summary: pv(todo, "SUMMARY"@),
                                uid: pv(todo, "UID"@),
                            },
                        ),
                    }
                }
            },
        },
    }
}

/// A flat, string-typed todo record.
#[derive(Debug)]
pub struct VTodo {
    pub etag: String,
    pub class: Option<String>,
    pub completed: Option<String>,
    pub created: Option<String>,
    pub description: Option<String>,
    pub dtstamp: Option<String>,
    pub dtstart: Option<String>,
    pub geo: Option<String>,
    pub last_mod: Option<String>,
    pub location: Option<String>,
    pub organizer: Option<String>,
    pub percent: Option<String>,
    pub priority: Option<String>,
    pub recurid: Option<String>,
    pub seq: Option<String>,
    pub status: Option<String>,
    pub summary: Option<String>,
    pub uid: Option<String>,
    pub url: Option<String>,
    pub due: Option<String>,
    pub duration: Option<String>,
}

pub open spec fn os_model(o: Option<String>) -> Option<Seq<char>> {
    match o {
        Some(s) => Some(s@),
        None => None,
    }
}

impl VTodo {
    /// Reads the first VTODO of a version-2.0 document into flat fields;
    /// fields this reading does not extract stay unset.
    pub fn deserialize(ical_str: String, etag: String) -> (r: Option<VTodo>)
        ensures
            match r {
                Some(t) => sp_deserialize(ical_str@, etag@) matches Some(m) && t.etag@ == m.etag
                    && os_model(t.completed) == m.completed && os_model(t.created) == m.created
                    && os_model(t.dtstamp) == m.dtstamp && os_model(t.last_mod) == m.last_mod
                    && os_model(t.percent) == m.percent && os_model(t.priority) == m.priority
                    && os_model(t.status) == m.status && os_model(t.description) == m.description
                    && os_model(t.summary) == m.summary && os_model(t.uid) == m.uid && t.class
                    is None && t.dtstart is None && t.geo is None && t.location is None
                    && t.organizer is None && t.recurid is None && t.seq is None && t.url is None
                    && t.due is None && t.duration is None,
                None => sp_deserialize(ical_str@, etag@) is None,
            },
    {
        let root = match peg::parse(ical_str.as_str()) {
            Some(e) => e,
            None => {
                return None;
            },
        };
        let vcal = match &root {
            Element::Block(b) => b,
            Element::Parameter(_) => {
                return None;
            },
        };
        let version = match vcal.get_param_value("VERSION") {
            Some(v) => v,
            None => {
                return None;
            },
        };
        if !str_eq(version.as_str(), "2.0") {
            return None;
        }
        let vtodo = match vcal.find_block("VTODO") {
            Some(b) => b,
            None => {
                return None;
            },
        };
        Some(
            VTodo {
                etag,
                uid: vtodo.get_param_value("UID"),
                completed: vtodo.get_param_value_date("COMPLETED"),
                created: vtodo.get_param_value_date("CREATED"),
                dtstamp: vtodo.get_param_value_date("DTSTAMP"),
                last_mod: vtodo.get_param_value_date("LAST-MODIFIED"),
                percent: vtodo.get_param_value("PERCENT-COMPLETE"),
                priority: vtodo.get_param_value("PRIORITY"),
                status: vtodo.get_param_value("STATUS"),
                description: vtodo.get_param_value("DESCRIPTION"),
                summary: vtodo.get_param_value("SUMMARY"),
                class: None,
                dtstart: None,
                geo: None,
                location: None,
                organizer: None,
                recurid: None,
                seq: None,
                url: None,
                due: None,
                duration: None,
            },
        )
    }
}

} // verus!
