//! The todo view over a fetched REPORT entry: the parsed document kept
//! whole, with named accessors reading the first `VTODO` inside it.

use vstd::prelude::*;

verus! {

use crate::ical::tree::lorax;
use crate::ical::tree::types::{
    TreeComponent,
    TreeCompModel,
    TreeObjModel,
    tcomp_model,
    tfind_comp,
    tfind_prop,
    comp_at_or_first,
};

/// The whole VTODO REPORT entry, kept as the lossless generic tree.
pub struct CalendarTodo {
    pub etag: String,
    pub url: String,
    /// The parsed document, todo included.
    pub vcal: TreeComponent,
    pub last_vtodo_index: usize,
}

/// The todo component a record's accessors read: the remembered index
/// when it still names a `VTODO`, else the first `VTODO` member.
pub open spec fn vtodo_of(t: CalendarTodo) -> Option<TreeCompModel> {
    comp_at_or_first(tcomp_model(t.vcal).children, "VTODO"@, t.last_vtodo_index as int)
}

/// The raw value of a property of the record's todo, if both exist.
pub open spec fn todo_prop(t: CalendarTodo, name: Seq<char>) -> Option<Seq<char>> {
    match vtodo_of(t) {
        None => None,
        Some(c) => if tfind_prop(c.children, name) < c.children.len() {
            match c.children[tfind_prop(c.children, name) as int] {
                TreeObjModel::Property(p) => Some(p.value),
                TreeObjModel::Component(_) => None,
            }
        } else {
            None
        },
    }
}

impl CalendarTodo {
    /// Parses one REPORT entry's calendar data; there must be a `VTODO`.
    pub fn parse(ical_str: String, etag: String, url: String) -> (r: Option<CalendarTodo>)
        ensures
            match r {
                Some(t) => lorax::sp_tree_parse(ical_str@) matches Ok(m) && tcomp_model(t.vcal)
                    == m && tfind_comp(m.children, "VTODO"@) < m.children.len() && t.etag@ == etag@
                    && t.url@ == url@,
                None => lorax::sp_tree_parse(ical_str@) matches Err(_) || (
                lorax::sp_tree_parse(ical_str@) matches Ok(m) && tfind_comp(m.children, "VTODO"@)
                    == m.children.len()),
            },
    {
        let vcal = match lorax::parse(ical_str.as_str()) {
            Ok(v) => v,
            Err(_) => {
                return None;
            },
        };
        proof {
            crate::ical::tree::types::lemma_tobjs_model_len(vcal.children@);
        }
        let last_vtodo_index = match vcal.find_component_index("VTODO") {
            Some(i) => i,
            None => {
                return None;
            },
        };
        Some(CalendarTodo { vcal, etag, url, last_vtodo_index })
    }

    /// Serializes the kept document back to plain unfolded text.
    pub fn serialize(&self) -> (r: String)
        ensures
            r@ == lorax::tree_comp_render(tcomp_model(self.vcal)),
    {
        lorax::serialize(&self.vcal)
    }

    /// The record's todo component.
    pub fn get_vtodo(&self) -> (r: Option<&TreeComponent>)
        ensures
            match r {
                Some(c) => vtodo_of(*self) == Some(tcomp_model(*c)),
                None => vtodo_of(*self) is None,
            },
    {
        self.vcal.find_component_with_guess("VTODO", self.last_vtodo_index)
    }

    /// The raw value of the named property of the record's todo.
    fn prop(&self, name: &str) -> (r: Option<&str>)
        ensures
            match r {
                Some(v) => todo_prop(*self, name@) == Some(v@),
                None => todo_prop(*self, name@) is None,
            },
    {
        let vtodo = match self.get_vtodo() {
            Some(c) => c,
            None => {
                return None;
            },
        };
        proof {
            crate::ical::tree::types::lemma_tobjs_model_len(vtodo.children@);
        }
        vtodo.get_property_value(name)
    }

    /// The raw `CLASS` value of the record's todo, if set.
    pub fn get_class(&self) -> (r: Option<&str>)
        ensures
            match r {
                Some(v) => todo_prop(*self, "CLASS"@) == Some(v@),
                None => todo_prop(*self, "CLASS"@) is None,
            },
    {
        self.prop("CLASS")
    }

    /// The raw `COMPLETED` value of the record's todo, if set.
    pub fn get_completed(&self) -> (r: Option<&str>)
        ensures
            match r {
                Some(v) => todo_prop(*self, "COMPLETED"@) == Some(v@),
                None => todo_prop(*self, "COMPLETED"@) is None,
            },
    {
        self.prop("COMPLETED")
    }

    /// The raw `CREATED` value of the record's todo, if set.
    pub fn get_created(&self) -> (r: Option<&str>)
        ensures
            match r {
                Some(v) => todo_prop(*self, "CREATED"@) == Some(v@),
                None => todo_prop(*self, "CREATED"@) is None,
            },
    {
        self.prop("CREATED")
    }

    /// The raw `DESCRIPTION` value of the record's todo, if set.
    pub fn get_description(&self) -> (r: Option<&str>)
        ensures
            match r {
                Some(v) => todo_prop(*self, "DESCRIPTION"@) == Some(v@),
                None => todo_prop(*self, "DESCRIPTION"@) is None,
            },
    {
        self.prop("DESCRIPTION")
    }

    /// The raw `DTSTAMP` value of the record's todo, if set.
    pub fn get_dtstamp(&self) -> (r: Option<&str>)
        ensures
            match r {
                Some(v) => todo_prop(*self, "DTSTAMP"@) == Some(v@),
                None => todo_prop(*self, "DTSTAMP"@) is None,
            },
    {
        self.prop("DTSTAMP")
    }

    /// The raw `DTSTART` value of the record's todo, if set.
    pub fn get_dtstart(&self) -> (r: Option<&str>)
        ensures
            match r {
                Some(v) => todo_prop(*self, "DTSTART"@) == Some(v@),
                None => todo_prop(*self, "DTSTART"@) is None,
            },
    {
        self.prop("DTSTART")
    }

    /// The raw `GEO` value of the record's todo, if set.
    pub fn get_geo(&self) -> (r: Option<&str>)
        ensures
            match r {
                Some(v) => todo_prop(*self, "GEO"@) == Some(v@),
                None => todo_prop(*self, "GEO"@) is None,
            },
    {
        self.prop("GEO")
    }

    /// The raw `LAST-MODIFIED` value of the record's todo, if set.
    pub fn get_last_modified(&self) -> (r: Option<&str>)
        ensures
            match r {
                Some(v) => todo_prop(*self, "LAST-MODIFIED"@) == Some(v@),
                None => todo_prop(*self, "LAST-MODIFIED"@) is None,
            },
    {
        self.prop("LAST-MODIFIED")
    }

    /// The raw `LOCATION` value of the record's todo, if set.
    pub fn get_location(&self) -> (r: Option<&str>)
        ensures
            match r {
                Some(v) => todo_prop(*self, "LOCATION"@) == Some(v@),
                None => todo_prop(*self, "LOCATION"@) is None,
            },
    {
        self.prop("LOCATION")
    }

    /// The raw `ORGANIZER` value of the record's todo, if set.
    pub fn get_organizer(&self) -> (r: Option<&str>)
        ensures
            match r {
                Some(v) => todo_prop(*self, "ORGANIZER"@) == Some(v@),
                None => todo_prop(*self, "ORGANIZER"@) is None,
            },
    {
        self.prop("ORGANIZER")
    }

    /// The raw `PERCENT-COMPLETE` value of the record's todo, if set.
    pub fn get_percent(&self) -> (r: Option<&str>)
        ensures
            match r {
                Some(v) => todo_prop(*self, "PERCENT-COMPLETE"@) == Some(v@),
                None => todo_prop(*self, "PERCENT-COMPLETE"@) is None,
            },
    {
        self.prop("PERCENT-COMPLETE")
    }

    /// The raw `PRIORITY` value of the record's todo, if set.
    pub fn get_priority(&self) -> (r: Option<&str>)
        ensures
            match r {
                Some(v) => todo_prop(*self, "PRIORITY"@) == Some(v@),
                None => todo_prop(*self, "PRIORITY"@) is None,
            },
    {
        self.prop("PRIORITY")
    }

    /// The raw `RECURID` value of the record's todo, if set.
    pub fn get_recurid(&self) -> (r: Option<&str>)
        ensures
            match r {
                Some(v) => todo_prop(*self, "RECURID"@) == Some(v@),
                None => todo_prop(*self, "RECURID"@) is None,
            },
    {
        self.prop("RECURID")
    }

    /// The raw `SEQ` value of the record's todo, if set.
    pub fn get_seq(&self) -> (r: Option<&str>)
        ensures
            match r {
                Some(v) => todo_prop(*self, "SEQ"@) == Some(v@),
                None => todo_prop(*self, "SEQ"@) is None,
            },
    {
        self.prop("SEQ")
    }

    /// The raw `STATUS` value of the record's todo, if set.
    pub fn get_status(&self) -> (r: Option<&str>)
        ensures
            match r {
                Some(v) => todo_prop(*self, "STATUS"@) == Some(v@),
                None => todo_prop(*self, "STATUS"@) is None,
            },
    {
        self.prop("STATUS")
    }

    /// The raw `SUMMARY` value of the record's todo, if set.
    pub fn get_summary(&self) -> (r: Option<&str>)
        ensures
            match r {
                Some(v) => todo_prop(*self, "SUMMARY"@) == Some(v@),
                None => todo_prop(*self, "SUMMARY"@) is None,
            },
    {
        self.prop("SUMMARY")
    }

    /// The raw `UID` value of the record's todo, if set.
    pub fn get_uid(&self) -> (r: Option<&str>)
        ensures
            match r {
                Some(v) => todo_prop(*self, "UID"@) == Some(v@),
                None => todo_prop(*self, "UID"@) is None,
            },
    {
        self.prop("UID")
    }

    /// The raw `URL` value of the record's todo, if set.
    pub fn get_url(&self) -> (r: Option<&str>)
        ensures
            match r {
                Some(v) => todo_prop(*self, "URL"@) == Some(v@),
                None => todo_prop(*self, "URL"@) is None,
            },
    {
        self.prop("URL")
    }

    /// The raw `DUE` value of the record's todo, if set.
    pub fn get_due(&self) -> (r: Option<&str>)
        ensures
            match r {
                Some(v) => todo_prop(*self, "DUE"@) == Some(v@),
                None => todo_prop(*self, "DUE"@) is None,
            },
    {
        self.prop("DUE")
    }

    /// The raw `DURATION` value of the record's todo, if set.
    pub fn get_duration(&self) -> (r: Option<&str>)
        ensures
            match r {
                Some(v) => todo_prop(*self, "DURATION"@) == Some(v@),
                None => todo_prop(*self, "DURATION"@) is None,
            },
    {
        self.prop("DURATION")
    }
}

} // verus!
