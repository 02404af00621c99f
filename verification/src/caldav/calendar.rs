//! One discovered calendar collection: its metadata and the two
//! ctag-gated todo caches, each an immutable shared snapshot.

use vstd::prelude::*;

verus! {

use std::rc::Rc;
use crate::caldav::parser::{XmlElem, XmlModel, xml_model, follow_tree, sp_follow, split_dots, sp_get_child, lemma_xmls_model_index, lemma_xmls_model_len, ns_d, ns_c, ns_cs, ns_i};
use crate::caldav::todo::CalendarTodo;
use crate::ical::values::base::param_lookup;
use crate::strutil::{contains_seq, contains_str, nat_canon, chars_to_string, str_to_chars, u64_to_chars, str_eq};

/// Spec view of a calendar's metadata.
pub struct CalendarInfo {
    pub url: Seq<char>,
    pub name: Seq<char>,
    pub ctag: Seq<char>,
    pub color: Option<Seq<char>>,
    pub description: Option<Seq<char>>,
    pub supports_todo: bool,
}

/// A calendar collection, as discovered over CalDAV.
pub struct Calendar {
    pub url: String,
    pub name: String,
    pub ctag: String,
    pub color: Option<String>,
    pub description: Option<String>,
    pub supports_todo: bool,
    pub cache_current_todos: Rc<Vec<CalendarTodo>>,
    pub cache_past_todos: Rc<Vec<CalendarTodo>>,
}

pub open spec fn cal_info(c: Calendar) -> CalendarInfo {
    CalendarInfo {
        url: c.url@,
        name: c.name@,
        ctag: c.ctag@,
        color: match c.color {
            Some(s) => Some(s@),
            None => None,
        },
        description: match c.description {
            Some(s) => Some(s@),
            None => None,
        },
        supports_todo: c.supports_todo,
    }
}

/// Whether some child of the supported-component-set names `VTODO` in its
/// `name` attribute.
pub open spec fn sp_supports_todo(children: Seq<XmlModel>) -> bool {
    exists|i: int|
        0 <= i < children.len() && match param_lookup(#[trigger] children[i].attrs, "name"@) {
            Some(v) => contains_seq(v, "VTODO"@),
            None => false,
        }
}

/// Whether some child of the resourcetype is named `calendar`.
pub open spec fn sp_is_calendar(children: Seq<XmlModel>) -> bool {
    exists|i: int| 0 <= i < children.len() && (#[trigger] children[i].name) == "calendar"@
}

/// How one PROPFIND response child reads as a calendar: it needs an href,
/// a propstat/prop with a display name, a ctag and a supported component
/// set, must be typed as a calendar resource, and keeps optional color
/// and description.
pub open spec fn sp_parse_calendar(m: XmlModel) -> Option<CalendarInfo> {
    match sp_follow(m, split_dots("href"@), 0, "DAV:"@) {
        None => None,
        Some(url) => match sp_follow(m, split_dots("propstat.prop"@), 0, "DAV:"@) {
            None => None,
            Some(prop) => match sp_get_child(prop, "displayname"@, "DAV:"@) {
                None => None,
                Some(name) => match sp_get_child(
                    prop,
                    "getctag"@,
                    "http://calendarserver.org/ns/"@,
                ) {
                    None => None,
                    Some(ctag) => {
                        let color = match sp_get_child(
                            prop,
                            "calendar-color"@,
                            "http://apple.com/ns/ical/"@,
                        ) {
                            Some(c) => Some(c.text),
                            None => None,
                        };
                        let description = match sp_get_child(
                            prop,
                            "calendar-description"@,
                            "urn:ietf:params:xml:ns:caldav"@,
                        ) {
                            Some(c) => Some(c.text),
                            None => None,
                        };
                        match sp_get_child(
                            prop,
                            "supported-calendar-component-set"@,
                            "urn:ietf:params:xml:ns:caldav"@,
                        ) {
                            None => None,
                            Some(set) => match sp_get_child(prop, "resourcetype"@, "DAV:"@) {
                                None => None,
                                Some(rt) => if sp_is_calendar(rt.children) {
                                    Some(
                                        CalendarInfo {
                                            url: url.text,
                                            name: name.text,
                                            ctag: ctag.text,
                                            color,
                                            description,
                                            supports_todo: sp_supports_todo(set.children),
                                        },
                                    )
                                } else {
                                    None
                                },
                            },
                        }
                    },
                },
            },
        },
    }
}

/// Relies on `std::rc::Rc::clone`: a clone is the same shared value.
#[verifier::external_body]
pub fn rc_clone<T>(rc: &Rc<T>) -> (r: Rc<T>)
    ensures
        r == *rc,
{
    rc.clone()
}

impl Calendar {
    /// Reads one PROPFIND response child as a calendar, with empty caches.
    pub fn parse(el: &XmlElem) -> (r: Option<Calendar>)
        ensures
            match r {
                Some(c) => sp_parse_calendar(xml_model(*el)) == Some(cal_info(c))
                    && c.cache_current_todos@.len() == 0 && c.cache_past_todos@.len() == 0,
                None => sp_parse_calendar(xml_model(*el)) is None,
            },
    {
        let url = match follow_tree(el, "href", ns_d()) {
            Some(u) => u,
            None => {
                return None;
            },
        };
        let prop = match follow_tree(el, "propstat.prop", ns_d()) {
            Some(p) => p,
            None => {
                return None;
            },
        };
        let name = match prop.get_child("displayname", ns_d()) {
            Some(n) => n,
            None => {
                return None;
            },
        };
        let ctag = match prop.get_child("getctag", ns_cs()) {
            Some(c) => c,
            None => {
                return None;
            },
        };
        let color = match prop.get_child("calendar-color", ns_i()) {
            Some(c) => Some(c.get_text().clone()),
            None => None,
        };
        let description = match prop.get_child("calendar-description", ns_c()) {
            Some(c) => Some(c.get_text().clone()),
            None => None,
        };
        let set = match prop.get_child("supported-calendar-component-set", ns_c()) {
            Some(s) => s,
            None => {
                return None;
            },
        };
        let supports_todo = any_child_supports_todo(set);
        let rt = match prop.get_child("resourcetype", ns_d()) {
            Some(s) => s,
            None => {
                return None;
            },
        };
        if !any_child_is_calendar(rt) {
            return None;
        }
        Some(
            Calendar {
                url: url.get_text().clone(),
                name: name.get_text().clone(),
                ctag: ctag.get_text().clone(),
                color,
                description,
                supports_todo,
                cache_current_todos: Rc::new(Vec::new()),
                cache_past_todos: Rc::new(Vec::new()),
            },
        )
    }

    /// The calendar's color, or white where none was given.
    pub fn get_color(&self) -> (r: &str)
        ensures
            match self.color {
                Some(c) => r@ == c@,
                None => r@ == "#ffffff"@,
            },
    {
        match &self.color {
            Some(c) => c.as_str(),
            None => "#ffffff",
        }
    }

    /// The calendar's name behind a color swatch, for terminal display.
    pub fn fancy_name(&self) -> (r: String)
        ensures
            r@ == fancy_name_spec(
                match self.color {
                    Some(c) => c@,
                    None => "#ffffff"@,
                },
                self.name@,
            ),
    {
        let color = self.get_color();
        let cs = str_to_chars(color);
        let red = hex_byte_at(&cs, 1);
        let green = hex_byte_at(&cs, 3);
        let blue = hex_byte_at(&cs, 5);
        let mut out: Vec<char> = Vec::new();
        out.push('\u{1B}');
        out.push('[');
        out.push('4');
        out.push('8');
        out.push(';');
        out.push('2');
        out.push(';');
        let mut rr = u64_to_chars(red as u64);
        out.append(&mut rr);
        out.push(';');
        let mut gg = u64_to_chars(green as u64);
        out.append(&mut gg);
        out.push(';');
        let mut bb = u64_to_chars(blue as u64);
        out.append(&mut bb);
        out.push('m');
        out.push(' ');
        out.push(' ');
        out.push('\u{1B}');
        out.push('[');
        out.push('0');
        out.push('m');
        out.push(' ');
        let mut nm = str_to_chars(self.name.as_str());
        out.append(&mut nm);
        proof {
            assert(out@ =~= fancy_name_spec(cs@, self.name@));
        }
        chars_to_string(&out)
    }

    /// Whether a freshly fetched ctag matches the cached one.
    pub fn ctag_matches(&self, new_ctag: &str) -> (r: bool)
        ensures
            r == (self.ctag@ == new_ctag@),
    {
        str_eq(self.ctag.as_str(), new_ctag)
    }

    /// Applies a refreshed calendar: on a ctag change the whole record is
    /// replaced (emptying both caches); on no change nothing moves.
    pub fn refresh_apply(&mut self, new_cal: Calendar) -> (changed: bool)
        ensures
            changed == (old(self).ctag@ != new_cal.ctag@),
            changed ==> *final(self) == new_cal,
            !changed ==> *final(self) == *old(self),
    {
        let changed = !str_eq(self.ctag.as_str(), new_cal.ctag.as_str());
        if changed {
            *self = new_cal;
        }
        changed
    }

    /// Whether a current-todo snapshot is cached.
    pub fn has_cached_current(&self) -> (r: bool)
        ensures
            r == (self.cache_current_todos@.len() > 0),
    {
        self.cache_current_todos.len() > 0
    }

    /// Whether a past-todo snapshot is cached.
    pub fn has_cached_past(&self) -> (r: bool)
        ensures
            r == (self.cache_past_todos@.len() > 0),
    {
        self.cache_past_todos.len() > 0
    }

    /// A shared handle to the cached current-todo snapshot.
    pub fn cached_current(&self) -> (r: Rc<Vec<CalendarTodo>>)
        ensures
            r == self.cache_current_todos,
    {
        rc_clone(&self.cache_current_todos)
    }

    /// A shared handle to the cached past-todo snapshot.
    pub fn cached_past(&self) -> (r: Rc<Vec<CalendarTodo>>)
        ensures
            r == self.cache_past_todos,
    {
        rc_clone(&self.cache_past_todos)
    }

    /// Replaces the current-todo snapshot wholesale and hands it back;
    /// nothing else of the calendar moves, and earlier snapshot handles
    /// keep their contents.
    pub fn store_current(&mut self, todos: Vec<CalendarTodo>) -> (r: Rc<Vec<CalendarTodo>>)
        ensures
            final(self).cache_current_todos@ == todos@,
            r@ == todos@,
            final(self).cache_past_todos == old(self).cache_past_todos,
            cal_info(*final(self)) == cal_info(*old(self)),
    {
        let rc = Rc::new(todos);
        self.cache_current_todos = rc_clone(&rc);
        rc
    }

    /// Replaces the past-todo snapshot wholesale and hands it back.
    pub fn store_past(&mut self, todos: Vec<CalendarTodo>) -> (r: Rc<Vec<CalendarTodo>>)
        ensures
            final(self).cache_past_todos@ == todos@,
            r@ == todos@,
            final(self).cache_current_todos == old(self).cache_current_todos,
            cal_info(*final(self)) == cal_info(*old(self)),
    {
        let rc = Rc::new(todos);
        self.cache_past_todos = rc_clone(&rc);
        rc
    }
}

/// Whether any child of the set names `VTODO`.
fn any_child_supports_todo(set: &XmlElem) -> (r: bool)
    ensures
        r == sp_supports_todo(xml_model(*set).children),
{
    let ghost cm = xml_model(*set).children;
    proof {
        lemma_xmls_model_len(set.children@);
    }
    let mut k: usize = 0;
    while k < set.children.len()
        invariant
            k <= set.children@.len(),
            cm == xml_model(*set).children,
            cm.len() == set.children@.len(),
            forall|i: int|
                0 <= i < k ==> match param_lookup(#[trigger] cm[i].attrs, "name"@) {
                    Some(v) => !contains_seq(v, "VTODO"@),
                    None => true,
                },
        decreases set.children@.len() - k,
    {
        proof {
            lemma_xmls_model_index(set.children@, k as int);
        }
        match set.children[k].attr("name") {
            Some(v) => {
                if contains_str(v.as_str(), "VTODO") {
                    return true;
                }
            },
            None => {},
        }
        k = k + 1;
    }
    false
}

/// Whether any child of the resourcetype is named `calendar`.
fn any_child_is_calendar(rt: &XmlElem) -> (r: bool)
    ensures
        r == sp_is_calendar(xml_model(*rt).children),
{
    let ghost cm = xml_model(*rt).children;
    proof {
        lemma_xmls_model_len(rt.children@);
    }
    let mut k: usize = 0;
    while k < rt.children.len()
        invariant
            k <= rt.children@.len(),
            cm == xml_model(*rt).children,
            cm.len() == rt.children@.len(),
            forall|i: int| 0 <= i < k ==> (#[trigger] cm[i].name) != "calendar"@,
        decreases rt.children@.len() - k,
    {
        proof {
            lemma_xmls_model_index(rt.children@, k as int);
        }
        if str_eq(rt.children[k].name.as_str(), "calendar") {
            proof {
                assert(cm[k as int].name == "calendar"@);
            }
            return true;
        }
        k = k + 1;
    }
    false
}

/// One hexadecimal digit's value.
pub open spec fn hex_digit(c: char) -> Option<int> {
    if '0' <= c && c <= '9' {
        Some(c as int - '0' as int)
    } else if 'a' <= c && c <= 'f' {
        Some(c as int - 'a' as int + 10)
    } else if 'A' <= c && c <= 'F' {
        Some(c as int - 'A' as int + 10)
    } else {
        None
    }
}

/// Two hex characters of a color string read as a byte, or white's 255
/// where the window is missing or malformed.
pub open spec fn hex_byte_spec(s: Seq<char>, at: int) -> int {
    if 0 <= at && at + 2 <= s.len() {
        match (hex_digit(s[at]), hex_digit(s[at + 1])) {
            (Some(h), Some(l)) => 16 * h + l,
            _ => 255,
        }
    } else {
        255
    }
}

/// Reads two hex characters as a byte, falling back to 255.
fn hex_byte_at(cs: &Vec<char>, at: usize) -> (r: u8)
    ensures
        r == hex_byte_spec(cs@, at as int),
{
    if at >= cs.len() || cs.len() - at < 2 {
        return 255;
    }
    let h = match hex_digit_x(cs[at]) {
        Some(h) => h,
        None => {
            return 255;
        },
    };
    let l = match hex_digit_x(cs[at + 1]) {
        Some(l) => l,
        None => {
            return 255;
        },
    };
    16 * h + l
}

fn hex_digit_x(c: char) -> (r: Option<u8>)
    ensures
        match r {
            Some(v) => hex_digit(c) == Some(v as int) && v < 16,
            None => hex_digit(c) is None,
        },
{
    let u = c as u32;
    if '0' <= c && c <= '9' {
        Some((u - ('0' as u32)) as u8)
    } else if 'a' <= c && c <= 'f' {
        Some((u - ('a' as u32) + 10) as u8)
    } else if 'A' <= c && c <= 'F' {
        Some((u - ('A' as u32) + 10) as u8)
    } else {
        None
    }
}

/// The terminal rendering of a calendar name: a background color swatch
/// in the calendar's color, then the name.
pub open spec fn fancy_name_spec(color: Seq<char>, name: Seq<char>) -> Seq<char> {
    seq!['\u{1B}', '[', '4', '8', ';', '2', ';'] + nat_canon(hex_byte_spec(color, 1)) + seq![';']
        + nat_canon(hex_byte_spec(color, 3)) + seq![';'] + nat_canon(hex_byte_spec(color, 5))
        + seq!['m', ' ', ' ', '\u{1B}', '[', '0', 'm', ' '] + name
}

} // verus!
