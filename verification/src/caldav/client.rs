//! The verified core of the CalDAV client: request bodies, response
//! walking and the ctag-gated cache steps.  The network transport drives
//! these from outside the library.

use vstd::prelude::*;

verus! {

use crate::caldav::calendar::Calendar;
use crate::caldav::parser::{
    XmlElem,
    xml_model,
    follow_tree,
    sp_follow,
    sp_get_child,
    split_dots,
    add_path,
    add_path_spec,
    go_back,
    go_back_spec,
    format_ns_attrs,
    ns_d,
    ns_c,
    lemma_xmls_model_index,
    lemma_xmls_model_len,
};
use crate::caldav::todo::CalendarTodo;
use crate::strutil::{contains_seq, contains_str, str_eq};
use vstd::string::StringExecFns;

/// A CalDAV session's verified state: credentials, the calendar home and
/// the discovered calendars.  The HTTP transport lives outside.
pub struct CalDAVClient {
    pub username: String,
    pub password: String,
    pub home: String,
    pub calendars: Vec<Calendar>,
}

/// Index of the first calendar with the given name, or the count.
pub open spec fn find_cal(cals: Seq<Calendar>, name: Seq<char>) -> nat
    decreases cals.len(),
{
    if cals.len() == 0 {
        0
    } else if cals[0].name@ == name {
        0
    } else {
        1 + find_cal(cals.skip(1), name)
    }
}

impl CalDAVClient {
    /// Finds the first calendar with the given display name.
    pub fn get_calendar(&self, name: &str) -> (r: Option<&Calendar>)
        ensures
            match r {
                Some(c) => find_cal(self.calendars@, name@) < self.calendars@.len() && *c
                    == self.calendars@[find_cal(self.calendars@, name@) as int] && c.name@ == name@,
                None => find_cal(self.calendars@, name@) == self.calendars@.len(),
            },
    {
        let mut k: usize = 0;
        while k < self.calendars.len()
            invariant
                k <= self.calendars@.len(),
                forall|j: int| 0 <= j < k ==> (#[trigger] self.calendars@[j].name@) != name@,
            decreases self.calendars@.len() - k,
        {
            if str_eq(self.calendars[k].name.as_str(), name) {
                proof {
                    lemma_find_cal_at(self.calendars@, name@, k as int);
                }
                return Some(&self.calendars[k]);
            }
            k = k + 1;
        }
        proof {
            lemma_find_cal_at(self.calendars@, name@, k as int);
        }
        None
    }
}

proof fn lemma_find_cal_at(cals: Seq<Calendar>, name: Seq<char>, k: int)
    requires
        0 <= k <= cals.len(),
        forall|j: int| 0 <= j < k ==> (#[trigger] cals[j].name@) != name,
        k == cals.len() || cals[k].name@ == name,
    ensures
        find_cal(cals, name) == k,
    decreases k,
{
    if cals.len() == 0 || k == 0 {
    } else {
        assert(forall|j: int| 0 <= j < k - 1 ==> #[trigger] cals.skip(1)[j] == cals[j + 1]);
        lemma_find_cal_at(cals.skip(1), name, k - 1);
    }
}

/// The wrapper element of every PROPFIND body.
pub open spec fn propfind_body_spec(inner: Seq<char>) -> Seq<char> {
    "<d:propfind "@
        + "xmlns:d=\"DAV:\" xmlns:c=\"urn:ietf:params:xml:ns:caldav\" xmlns:cs=\"http://calendarserver.org/ns/\" xmlns:i=\"http://apple.com/ns/ical/\""@
        + ">"@ + inner + "</d:propfind>"@
}

/// Builds a PROPFIND request body around the given property element.
pub fn propfind_body(inner: &str) -> (r: String)
    ensures
        r@ == propfind_body_spec(inner@),
{
    let mut r = String::new();
    r.append("<d:propfind ");
    let ns = format_ns_attrs();
    r.append(ns.as_str());
    r.append(">");
    r.append(inner);
    r.append("</d:propfind>");
    r
}

/// The wrapper element of every calendar-query REPORT body.
pub open spec fn calquery_body_spec(inner: Seq<char>) -> Seq<char> {
    "<d:calendar-query "@
        + "xmlns:d=\"DAV:\" xmlns:c=\"urn:ietf:params:xml:ns:caldav\" xmlns:cs=\"http://calendarserver.org/ns/\" xmlns:i=\"http://apple.com/ns/ical/\""@
        + ">"@ + inner + "</d:calendar-query>"@
}

/// Builds a calendar-query REPORT body around the given inner elements.
pub fn calquery_body(inner: &str) -> (r: String)
    ensures
        r@ == calquery_body_spec(inner@),
{
    let mut r = String::new();
    r.append("<d:calendar-query ");
    let ns = format_ns_attrs();
    r.append(ns.as_str());
    r.append(">");
    r.append(inner);
    r.append("</d:calendar-query>");
    r
}

/// The property element asking for a calendar's metadata.
pub fn calendar_props() -> (r: &'static str)
    ensures
        r@
            == "<d:prop><d:displayname /><c:supported-calendar-component-set /><cs:getctag /><c:calendar-description /><i:calendar-color /><d:resourcetype /></d:prop>"@,
{
    "<d:prop><d:displayname /><c:supported-calendar-component-set /><cs:getctag /><c:calendar-description /><i:calendar-color /><d:resourcetype /></d:prop>"
}

/// The property element asking for the current user principal.
pub fn principal_props() -> (r: &'static str)
    ensures
        r@ == "<d:prop><d:current-user-principal /></d:prop>"@,
{
    "<d:prop><d:current-user-principal /></d:prop>"
}

/// The property element asking for the calendar home set.
pub fn homeset_props() -> (r: &'static str)
    ensures
        r@ == "<d:prop><c:calendar-home-set /></d:prop>"@,
{
    "<d:prop><c:calendar-home-set /></d:prop>"
}

/// The REPORT filter matching todos whose percent-complete is not 100.
pub fn filter_current_defined() -> (r: &'static str)
    ensures
        r@
            == "<c:prop-filter name=\"PERCENT-COMPLETE\"><c:text-match collation=\"i;ascii-numeric\" negate-condition=\"yes\">100</c:text-match></c:prop-filter>"@,
{
    "<c:prop-filter name=\"PERCENT-COMPLETE\"><c:text-match collation=\"i;ascii-numeric\" negate-condition=\"yes\">100</c:text-match></c:prop-filter>"
}

/// The REPORT filter matching todos with no percent-complete at all.
pub fn filter_current_undefined() -> (r: &'static str)
    ensures
        r@ == "<c:prop-filter name=\"PERCENT-COMPLETE\"><c:is-not-defined/></c:prop-filter>"@,
{
    "<c:prop-filter name=\"PERCENT-COMPLETE\"><c:is-not-defined/></c:prop-filter>"
}

/// The REPORT filter matching todos whose percent-complete is exactly 100.
pub fn filter_past() -> (r: &'static str)
    ensures
        r@
            == "<c:prop-filter name=\"PERCENT-COMPLETE\"><c:text-match collation=\"i;ascii-numeric\">100</c:text-match></c:prop-filter>"@,
{
    "<c:prop-filter name=\"PERCENT-COMPLETE\"><c:text-match collation=\"i;ascii-numeric\">100</c:text-match></c:prop-filter>"
}

/// The inner REPORT body fetching todos under the given property filter.
pub open spec fn todos_query_spec(filter: Seq<char>) -> Seq<char> {
    "<d:prop><d:getetag /><c:calendar-data /></d:prop><c:filter><c:comp-filter name=\"VCALENDAR\"><c:comp-filter name=\"VTODO\">"@
        + filter + "</c:comp-filter></c:comp-filter></c:filter>"@
}

/// Builds the inner REPORT body for a todo fetch.
pub fn todos_query(filter: &str) -> (r: String)
    ensures
        r@ == todos_query_spec(filter@),
{
    let mut r = String::new();
    r.append(
        "<d:prop><d:getetag /><c:calendar-data /></d:prop><c:filter><c:comp-filter name=\"VCALENDAR\"><c:comp-filter name=\"VTODO\">",
    );
    r.append(filter);
    r.append("</c:comp-filter></c:comp-filter></c:filter>");
    r
}

/// What the principal discovery answers: the principal href, absolute as
/// it stands or resolved against the base URL.
pub open spec fn sp_principal(m: crate::caldav::parser::XmlModel, base: Seq<char>) -> Option<
    Seq<char>,
> {
    match sp_follow(
        m,
        split_dots("response.propstat.prop.current-user-principal.href"@),
        0,
        "DAV:"@,
    ) {
        None => None,
        Some(h) => if contains_seq(h.text, "http"@) {
            Some(h.text)
        } else {
            Some(add_path_spec(base, h.text))
        },
    }
}

/// Extracts the principal URL from a PROPFIND response.
pub fn principal_from_response(root: &XmlElem, base_url: &str) -> (r: Option<String>)
    ensures
        match r {
            Some(u) => sp_principal(xml_model(*root), base_url@) == Some(u@),
            None => sp_principal(xml_model(*root), base_url@) is None,
        },
{
    let href = match follow_tree(
        root,
        "response.propstat.prop.current-user-principal.href",
        ns_d(),
    ) {
        Some(h) => h,
        None => {
            return None;
        },
    };
    let text = href.get_text();
    if contains_str(text.as_str(), "http") {
        Some(text.clone())
    } else {
        Some(add_path(base_url, text.as_str()))
    }
}

/// What the home-set discovery answers: the home href, absolute as it
/// stands or resolved against the principal URL's parent.
pub open spec fn sp_homeset(m: crate::caldav::parser::XmlModel, principal: Seq<char>) -> Option<
    Seq<char>,
> {
    match sp_follow(m, split_dots("response.propstat.prop"@), 0, "DAV:"@) {
        None => None,
        Some(prop) => match sp_get_child(prop, "calendar-home-set"@, "urn:ietf:params:xml:ns:caldav"@) {
            None => None,
            Some(home) => match sp_get_child(home, "href"@, "DAV:"@) {
                None => None,
                Some(h) => if contains_seq(h.text, "http"@) {
                    Some(h.text)
                } else {
                    Some(add_path_spec(go_back_spec(principal), h.text))
                },
            },
        },
    }
}

/// Extracts the calendar-home URL from a PROPFIND response.
pub fn homeset_from_response(root: &XmlElem, principal_url: &str) -> (r: Option<String>)
    ensures
        match r {
            Some(u) => sp_homeset(xml_model(*root), principal_url@) == Some(u@),
            None => sp_homeset(xml_model(*root), principal_url@) is None,
        },
{
    let prop = match follow_tree(root, "response.propstat.prop", ns_d()) {
        Some(p) => p,
        None => {
            return None;
        },
    };
    let home = match prop.get_child("calendar-home-set", ns_c()) {
        Some(h) => h,
        None => {
            return None;
        },
    };
    let href = match home.get_child("href", ns_d()) {
        Some(h) => h,
        None => {
            return None;
        },
    };
    let text = href.get_text();
    if contains_str(text.as_str(), "http") {
        Some(text.clone())
    } else {
        let parent = go_back(principal_url);
        Some(add_path(parent.as_str(), text.as_str()))
    }
}

/// The calendars named by a PROPFIND response, from child `k` on: each
/// response child that reads as a calendar, in order.
pub open spec fn sp_calendars(
    children: Seq<crate::caldav::parser::XmlModel>,
    k: int,
) -> Seq<crate::caldav::calendar::CalendarInfo>
    decreases children.len() - k,
{
    if k < 0 || k >= children.len() {
        Seq::empty()
    } else {
        match crate::caldav::calendar::sp_parse_calendar(children[k]) {
            Some(info) => seq![info] + sp_calendars(children, k + 1),
            None => sp_calendars(children, k + 1),
        }
    }
}

/// Reads every calendar out of a PROPFIND response, with empty caches.
pub fn calendars_from_response(root: &XmlElem) -> (r: Vec<Calendar>)
    ensures
        r@.map_values(|c: Calendar| crate::caldav::calendar::cal_info(c)) == sp_calendars(
            crate::caldav::parser::xml_model(*root).children,
            0,
        ),
        forall|i: int|
            0 <= i < r@.len() ==> (#[trigger] r@[i]).cache_current_todos@.len() == 0
                && r@[i].cache_past_todos@.len() == 0,
{
    let ghost cm = xml_model(*root).children;
    let mut out: Vec<Calendar> = Vec::new();
    let mut k: usize = 0;
    proof {
        lemma_xmls_model_len(root.children@);
    }
    while k < root.children.len()
        invariant
            k <= root.children@.len(),
            cm == xml_model(*root).children,
            cm.len() == root.children@.len(),
            out@.map_values(|c: Calendar| crate::caldav::calendar::cal_info(c)) + sp_calendars(
                cm,
                k as int,
            ) =~= sp_calendars(cm, 0),
            forall|i: int|
                0 <= i < out@.len() ==> (#[trigger] out@[i]).cache_current_todos@.len() == 0
                    && out@[i].cache_past_todos@.len() == 0,
        decreases root.children@.len() - k,
    {
        proof {
            lemma_xmls_model_index(root.children@, k as int);
        }
        match Calendar::parse(&root.children[k]) {
            Some(cal) => {
                out.push(cal);
                proof {
                    assert(out@.map_values(|c: Calendar| crate::caldav::calendar::cal_info(c))
                        =~= out@.drop_last().map_values(
                        |c: Calendar| crate::caldav::calendar::cal_info(c),
                    ).push(crate::caldav::calendar::cal_info(out@.last())));
                }
            },
            None => {},
        }
        k = k + 1;
    }
    proof {
        assert(sp_calendars(cm, root.children@.len() as int) =~= Seq::<
            crate::caldav::calendar::CalendarInfo,
        >::empty());
        assert(out@.map_values(|c: Calendar| crate::caldav::calendar::cal_info(c)) + Seq::<
            crate::caldav::calendar::CalendarInfo,
        >::empty() =~= out@.map_values(|c: Calendar| crate::caldav::calendar::cal_info(c)));
    }
    out
}

/// Concatenates the two current-todo fetches: the incomplete-with-value
/// batch first, the undefined batch after.
pub fn combine_current(todos1: Vec<CalendarTodo>, todos2: Vec<CalendarTodo>) -> (r: Vec<
    CalendarTodo,
>)
    ensures
        r@ == todos1@ + todos2@,
{
    let mut a = todos1;
    let mut b = todos2;
    a.append(&mut b);
    a
}

} // verus!
