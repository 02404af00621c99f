use std::rc::Rc;
use remcal::caldav::calendar::Calendar;
use remcal::caldav::client;
use remcal::caldav::parser::{add_path, follow_tree, go_back, ns_c, ns_cs, ns_d, xml_parse};
use remcal::caldav::todo::{CaldavError, CalendarTodo};

const CAL_RESPONSE: &str = r#"<d:multistatus xmlns:d="DAV:" xmlns:c="urn:ietf:params:xml:ns:caldav" xmlns:cs="http://calendarserver.org/ns/" xmlns:i="http://apple.com/ns/ical/"><d:response><d:href>/cal/home/tasks/</d:href><d:propstat><d:prop><d:displayname>Tasks</d:displayname><cs:getctag>A</cs:getctag><i:calendar-color>#102030</i:calendar-color><c:supported-calendar-component-set><c:comp name="VTODO"/></c:supported-calendar-component-set><d:resourcetype><d:collection/><c:calendar/></d:resourcetype></d:prop></d:propstat></d:response></d:multistatus>"#;

#[test]
fn test_calendar_discovery() {
    let root = xml_parse(CAL_RESPONSE).expect("xml did not parse");
    let cals = client::calendars_from_response(&root);
    assert_eq!(cals.len(), 1);
    let cal = &cals[0];
    assert_eq!(cal.name, "Tasks");
    assert_eq!(cal.ctag, "A");
    assert_eq!(cal.url, "/cal/home/tasks/");
    assert!(cal.supports_todo);
    assert_eq!(cal.get_color(), "#102030");
    assert_eq!(cal.fancy_name(), "\u{1B}[48;2;16;32;48m  \u{1B}[0m Tasks");
}

#[test]
fn test_follow_tree_path() {
    let root = xml_parse(CAL_RESPONSE).expect("xml did not parse");
    let name = follow_tree(&root, "response.propstat.prop.displayname", ns_d())
        .expect("path not found");
    assert_eq!(name.get_text(), "Tasks");
    let ctag = follow_tree(&root, "response.propstat.prop", ns_d())
        .and_then(|p| p.get_child("getctag", ns_cs()))
        .expect("no ctag");
    assert_eq!(ctag.get_text(), "A");
    assert!(follow_tree(&root, "response.nothing.here", ns_d()).is_none());
}

#[test]
fn test_url_helpers() {
    assert_eq!(add_path("http://h/cal/", "/tasks/"), "http://h/cal/tasks/");
    assert_eq!(go_back("http://h/cal/home/"), "http://h/cal");
    assert_eq!(go_back("http://h/x"), "http://h/");
    assert_eq!(go_back("not a url"), "not a url");
}

#[test]
fn test_request_bodies() {
    let body = client::propfind_body(client::principal_props());
    assert_eq!(
        body,
        "<d:propfind xmlns:d=\"DAV:\" xmlns:c=\"urn:ietf:params:xml:ns:caldav\" xmlns:cs=\"http://calendarserver.org/ns/\" xmlns:i=\"http://apple.com/ns/ical/\"><d:prop><d:current-user-principal /></d:prop></d:propfind>"
    );
    let q = client::calquery_body(&client::todos_query(client::filter_past()));
    assert!(q.starts_with("<d:calendar-query "));
    assert!(q.contains("PERCENT-COMPLETE"));
    assert!(q.ends_with("</d:calendar-query>"));
}

const TODO_RESPONSE: &str = r#"<d:multistatus xmlns:d="DAV:" xmlns:c="urn:ietf:params:xml:ns:caldav"><d:response><d:href>/cal/home/tasks/1.ics</d:href><d:propstat><d:prop><d:getetag>"etag-7"</d:getetag><c:calendar-data>BEGIN:VCALENDAR
VERSION:2.0
BEGIN:VTODO
SUMMARY:Water plants
PERCENT-COMPLETE:50
UID:u-1
END:VTODO
END:VCALENDAR</c:calendar-data></d:prop></d:propstat></d:response></d:multistatus>"#;

#[test]
fn test_report_entry() {
    let root = xml_parse(TODO_RESPONSE).expect("xml did not parse");
    let entry = root.get_child("response", ns_d()).expect("no response");
    let todo = CalendarTodo::parse(entry).expect("todo did not parse");
    assert_eq!(todo.etag, "\"etag-7\"");
    assert_eq!(todo.url, "/cal/home/tasks/1.ics");
    assert_eq!(todo.vtodo.get_summary().map(String::as_str), Some("Water plants"));
    assert_eq!(todo.vtodo.get_percent_complete(), Some(50));
    // the enclosing document kept everything but the extracted todo
    assert_eq!(todo.vcal.children.len(), 1);
    assert!(todo.is_current());
    assert!(!todo.is_past());
}

fn fresh_calendar(ctag: &str) -> Calendar {
    Calendar {
        url: "/cal/home/tasks/".to_string(),
        name: "Tasks".to_string(),
        ctag: ctag.to_string(),
        color: None,
        description: None,
        supports_todo: true,
        cache_current_todos: Rc::new(Vec::new()),
        cache_past_todos: Rc::new(Vec::new()),
    }
}

fn sample_todo(percent: &str) -> CalendarTodo {
    let ics = if percent.is_empty() {
        "BEGIN:VCALENDAR\r\nBEGIN:VTODO\r\nUID:u-1\r\nEND:VTODO\r\nEND:VCALENDAR".to_string()
    } else {
        format!(
            "BEGIN:VCALENDAR\r\nBEGIN:VTODO\r\nUID:u-1\r\nPERCENT-COMPLETE:{}\r\nEND:VTODO\r\nEND:VCALENDAR",
            percent
        )
    };
    let root = xml_parse(&format!(
        r#"<d:response xmlns:d="DAV:" xmlns:c="urn:ietf:params:xml:ns:caldav"><d:href>/u1.ics</d:href><d:propstat><d:prop><d:getetag>e</d:getetag><c:calendar-data>{}</c:calendar-data></d:prop></d:propstat></d:response>"#,
        ics
    ))
    .expect("xml did not parse");
    CalendarTodo::parse(&root).expect("todo did not parse")
}

#[test]
fn test_cache_invalidation() {
    // a calendar with ctag "A" and a cached current snapshot
    let mut cal = fresh_calendar("A");
    let snapshot = cal.store_current(vec![sample_todo("50")]);
    assert_eq!(snapshot.len(), 1);

    // the server still reports ctag "A": nothing changes, the cache is used
    let changed = cal.refresh_apply(fresh_calendar("A"));
    assert!(!changed);
    assert!(cal.has_cached_current());
    let again = cal.cached_current();
    assert!(Rc::ptr_eq(&again, &snapshot));

    // the server reports ctag "B": metadata is replaced, caches emptied
    let old_handle = cal.cached_current();
    let changed = cal.refresh_apply(fresh_calendar("B"));
    assert!(changed);
    assert_eq!(cal.ctag, "B");
    assert!(!cal.has_cached_current());
    // a reader holding the old snapshot sees no change to it
    assert_eq!(old_handle.len(), 1);

    // the fetched replacement snapshot goes in wholesale
    let replacement = cal.store_current(client::combine_current(
        vec![sample_todo("25")],
        vec![sample_todo("")],
    ));
    assert_eq!(replacement.len(), 2);
    assert_eq!(old_handle.len(), 1);
}

#[test]
fn test_current_past_partition() {
    let current = sample_todo("50");
    let undefined = sample_todo("");
    let past = sample_todo("100");
    assert!(current.is_current() && !current.is_past());
    assert!(undefined.is_current() && !undefined.is_past());
    assert!(past.is_past() && !past.is_current());
}

#[test]
fn test_get_calendar_by_name() {
    let client = remcal::caldav::client::CalDAVClient {
        username: String::new(),
        password: String::new(),
        home: "/cal/home/".to_string(),
        calendars: vec![fresh_calendar("A"), {
            let mut c = fresh_calendar("B");
            c.name = "Chores".to_string();
            c
        }],
    };
    assert_eq!(client.get_calendar("Chores").map(|c| c.ctag.as_str()), Some("B"));
    assert!(client.get_calendar("Nope").is_none());
}

#[test]
fn test_principal_and_homeset() {
    let principal = xml_parse(
        r#"<d:multistatus xmlns:d="DAV:"><d:response><d:propstat><d:prop><d:current-user-principal><d:href>/principals/me/</d:href></d:current-user-principal></d:prop></d:propstat></d:response></d:multistatus>"#,
    )
    .expect("xml did not parse");
    assert_eq!(
        client::principal_from_response(&principal, "http://h/dav/").as_deref(),
        Some("http://h/dav/principals/me/")
    );
    let homeset = xml_parse(
        r#"<d:multistatus xmlns:d="DAV:" xmlns:c="urn:ietf:params:xml:ns:caldav"><d:response><d:propstat><d:prop><c:calendar-home-set><d:href>/cal/home/</d:href></c:calendar-home-set></d:prop></d:propstat></d:response></d:multistatus>"#,
    )
    .expect("xml did not parse");
    assert_eq!(
        client::homeset_from_response(&homeset, "http://h/principals/me/").as_deref(),
        Some("http://h/principals/cal/home/")
    );
    let _ = ns_c();
}

#[test]
fn test_report_entry_errors() {
    let no_href = xml_parse(r#"<d:response xmlns:d="DAV:"><d:propstat/></d:response>"#)
        .expect("xml did not parse");
    match CalendarTodo::parse(&no_href) {
        Err(e) => assert_eq!(e, CaldavError::MissingHref),
        Ok(_) => panic!("entry without href parsed"),
    }
    let no_todo = xml_parse(
        r#"<d:response xmlns:d="DAV:" xmlns:c="urn:ietf:params:xml:ns:caldav"><d:href>/x</d:href><d:propstat><d:prop><d:getetag>e</d:getetag><c:calendar-data>BEGIN:VCALENDAR
END:VCALENDAR</c:calendar-data></d:prop></d:propstat></d:response>"#,
    )
    .expect("xml did not parse");
    match CalendarTodo::parse(&no_todo) {
        Err(e) => assert_eq!(e, CaldavError::MissingVTodo),
        Ok(_) => panic!("entry without a todo parsed"),
    }
}
