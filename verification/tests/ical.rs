use remcal::ical::objects::generics::{ICalObject, UnknownProperty, VCalendar};
use remcal::ical::todo::CalendarTodo as TodoView;
use remcal::ical::components::todo::CalendarTodo as FlatTodo;
use remcal::ical::vtodo::VTodo as FlatVTodo;
use remcal::ical::parser::{ContentLine, ParseError};
use remcal::ical::peg;
use remcal::ical::serializer::ICSAble;
use remcal::ical::tree::lorax;
use remcal::ical::values::base::{CodecError, ICalValue};
use remcal::ical::objects::valarm::VAlarmType;

#[test]
fn test() {
    let str = "\nBEGIN:VCALENDAR\nVERSION:2.0\nEND:VCALENDAR";
    let res = peg::parse(str).expect("Failed to parse ical");
    let block = res.expect_block("VCALENDAR").expect("not a VCALENDAR block");
    assert_eq!(block.get_param_value("VERSION").as_deref(), Some("2.0"));
}

#[test]
fn test_serialize_property_line_fold() {
    let name = "EXAMPLE".to_string();
    let str = "This is a really long line. ".repeat(20);
    let value: ICalValue<String> = ICalValue { value: str, params: Vec::new() };
    let prop = UnknownProperty { name, value };
    let mut ics = String::new();
    prop.to_ics(&mut ics);
    for line in ics.lines() {
        let len = line.len();
        if len > 75 {
            panic!("Line is too long ({} > 75). Line: \"{}\"", len, line);
        }
    }
}

const SAMPLE: &str = "BEGIN:VCALENDAR\nVERSION:2.0\nCALSCALE:GREGORIAN\nPRODID:-//Apple Inc.//iOS 18.0.1//EN\nBEGIN:VTODO\nCOMPLETED:20241016T020342Z\nCREATED:20241014T211812Z\nDTSTAMP:20241027T214435Z\nLAST-MODIFIED:20241016T020342Z\nPERCENT-COMPLETE:100\nSTATUS:COMPLETED\nDESCRIPTION:\nSUMMARY:Chop Saw\nUID:F87D9736-8ADE-47E4-AC46-638B5C86E7D0\nX-APPLE-SORT-ORDER:740793996\nEND:VTODO\nEND:VCALENDAR";

#[test]
fn test_info_loss() {
    let in_ics = SAMPLE.replace("\n", "\r\n");

    let vcal = VCalendar::parse(&in_ics).expect("Failed to parse ical");
    let out_ics = vcal.to_ics();

    let in_lines: Vec<&str> = in_ics.split("\r\n").collect();
    let out_lines: Vec<&str> = out_ics.split("\r\n").collect();

    let in_lines_len = in_lines.len();
    let out_lines_len = out_lines.len();
    if in_lines_len != out_lines_len {
        panic!("Lines lost! Expected {} got {}", in_lines_len, out_lines_len);
    }

    for in_line in in_lines {
        assert!(out_lines.contains(&in_line), "Output does not contain {}", in_line);
    }
}

#[test]
fn test_unknown_property_round_trip() {
    let in_ics = "BEGIN:VCALENDAR\r\nBEGIN:VTODO\r\nX-CUSTOM:value\r\nEND:VTODO\r\nEND:VCALENDAR";
    let vcal = VCalendar::parse(in_ics).expect("Failed to parse ical");
    let out = vcal.to_ics();
    assert!(out.lines().any(|l| l == "X-CUSTOM:value"));
    assert_eq!(out, in_ics);
}

#[test]
fn test_typed_document_round_trip() {
    // properties stand in the serializer's field order, so the text is
    // reproduced byte for byte
    let in_ics = "BEGIN:VCALENDAR\r\nVERSION:2.0\r\nBEGIN:VTODO\r\nUID:u-9\r\nDTSTAMP:20241027T214435Z\r\nCOMPLETED:20241016T020342Z\r\nPERCENT-COMPLETE:100\r\nSUMMARY:Chop Saw\r\nX-APPLE-SORT-ORDER:740793996\r\nEND:VTODO\r\nEND:VCALENDAR";
    let vcal = VCalendar::parse(in_ics).expect("Failed to parse ical");
    let out = vcal.to_ics();
    assert_eq!(out, in_ics);
}

#[test]
fn test_content_line_reading() {
    let cl = ContentLine::from_str("DTSTART;TZID=America/New_York;X=a=b:19980119T020000")
        .expect("Failed to parse line");
    assert_eq!(cl.name, "DTSTART");
    assert_eq!(cl.params.len(), 2);
    assert_eq!(cl.params[0].name, "TZID");
    assert_eq!(cl.params[0].value, "America/New_York");
    assert_eq!(cl.params[1].name, "X");
    assert_eq!(cl.params[1].value, "a=b");
    assert_eq!(cl.value, "19980119T020000");
}

#[test]
fn test_lex_errors() {
    assert_eq!(ContentLine::from_str("NOCOLON").unwrap_err(), ParseError::NoColon);
    assert_eq!(ContentLine::from_str(":value").unwrap_err(), ParseError::EmptyName);
    assert_eq!(ContentLine::from_str("A;B:c").unwrap_err(), ParseError::BadParam);
    assert_eq!(ContentLine::parse_parameter("TZID=UTC").unwrap(), ("TZID".to_string(), "UTC".to_string()));
    assert_eq!(ContentLine::parse_parameter("TZID").unwrap_err(), ParseError::BadParam);
}

#[test]
fn test_structural_errors() {
    assert_eq!(VCalendar::parse("").unwrap_err(), ParseError::EmptyDocument);
    assert_eq!(VCalendar::parse("BEGIN:OTHER\r\nEND:OTHER").unwrap_err(), ParseError::NotVCalendar);
    assert_eq!(
        VCalendar::parse("BEGIN:VCALENDAR\r\nBEGIN:VTODO\r\nEND:OTHER\r\nEND:VCALENDAR").unwrap_err(),
        ParseError::UnexpectedEnd
    );
}

#[test]
fn test_folding_multibyte() {
    // one hundred two-octet characters fold without splitting any of them
    let value: String = std::iter::repeat('\u{e9}').take(100).collect();
    let prop = UnknownProperty {
        name: "NOTE".to_string(),
        value: ICalValue { value, params: Vec::new() },
    };
    let mut ics = String::new();
    prop.to_ics(&mut ics);
    for line in ics.lines() {
        assert!(line.len() <= 75, "physical line too long: {}", line.len());
        // a split inside a character would leave invalid text; lines()
        // working on &str already guarantees boundaries, so count evenness
        let tail = line.trim_start_matches(' ').trim_start_matches("NOTE:");
        assert!(tail.chars().all(|c| c == '\u{e9}'));
    }
    let unfolded = ics.replace("\r\n ", "");
    assert_eq!(unfolded.trim_start_matches("\r\n"), format!("NOTE:{}", "\u{e9}".repeat(100)));
}

#[test]
fn test_unfolding_variants() {
    let folded = "BEGIN:VCALENDAR\r\nSUMM\r\n ARY:split acr\n\toss lines\r\nEND:VCALENDAR";
    let vcal = VCalendar::parse(folded).expect("Failed to parse ical");
    let out = vcal.to_ics();
    assert!(out.lines().any(|l| l == "SUMMARY:split across lines"));
}

#[test]
fn test_tree_round_trip() {
    let in_ics = SAMPLE.replace("\n", "\r\n");
    let tree = lorax::parse(&in_ics).expect("Failed to parse ical");
    assert_eq!(tree.name, "VCALENDAR");
    let out = lorax::serialize(&tree);
    // the plain tree rendering ends each line, the input does not
    assert_eq!(out.trim_end_matches("\r\n"), in_ics);
}

#[test]
fn test_todo_view_getters() {
    let in_ics = SAMPLE.replace("\n", "\r\n");
    let todo = TodoView::parse(in_ics, "etag-1".to_string(), "/cal/1.ics".to_string())
        .expect("no VTODO found");
    assert_eq!(todo.get_percent().as_deref(), Some("100"));
    assert_eq!(todo.get_status().as_deref(), Some("COMPLETED"));
    assert_eq!(todo.get_summary().as_deref(), Some("Chop Saw"));
    assert_eq!(todo.get_uid().as_deref(), Some("F87D9736-8ADE-47E4-AC46-638B5C86E7D0"));
    assert_eq!(todo.get_class(), None);
}

#[test]
fn test_flat_todo_fields() {
    let in_ics = SAMPLE.replace("\n", "\r\n");
    let todo = FlatTodo::parse(in_ics, "etag-1".to_string(), "/cal/1.ics".to_string())
        .expect("no VTODO found");
    assert_eq!(todo.vtodo.summary, "Chop Saw");
    assert_eq!(todo.vtodo.percent_complete, "100");
    assert_eq!(todo.vtodo.class, "");
    assert_eq!(todo.vtodo.unknown.len(), 1);
    let out = todo.serialize();
    assert!(out.lines().any(|l| l == "SUMMARY:Chop Saw"));
    assert!(out.lines().any(|l| l == "X-APPLE-SORT-ORDER:740793996"));
}

#[test]
fn test_flat_deserialize() {
    let str = "\nBEGIN:VCALENDAR\nVERSION:2.0\nBEGIN:VTODO\nSUMMARY:Chop Saw\nPERCENT-COMPLETE:100\nEND:VTODO\nEND:VCALENDAR";
    let todo = FlatVTodo::deserialize(str.to_string(), "etag-9".to_string()).expect("no todo");
    assert_eq!(todo.summary.as_deref(), Some("Chop Saw"));
    assert_eq!(todo.percent.as_deref(), Some("100"));
    assert_eq!(todo.etag, "etag-9");
    assert_eq!(todo.uid, None);
}

#[test]
fn test_typed_values_canonicalized() {
    let in_ics = "BEGIN:VCALENDAR\r\nBEGIN:VTODO\r\nPERCENT-COMPLETE:+042\r\nEND:VTODO\r\nEND:VCALENDAR";
    let vcal = VCalendar::parse(in_ics).expect("Failed to parse ical");
    let out = vcal.to_ics();
    assert!(out.lines().any(|l| l == "PERCENT-COMPLETE:42"));
}

#[test]
fn test_duration_property_week_form() {
    let in_ics = "BEGIN:VCALENDAR\r\nBEGIN:VTODO\r\nDURATION:P49D\r\nEND:VTODO\r\nEND:VCALENDAR";
    let vcal = VCalendar::parse(in_ics).expect("Failed to parse ical");
    let out = vcal.to_ics();
    assert!(out.lines().any(|l| l == "DURATION:P7W"));
}

#[test]
fn test_object_names() {
    let in_ics = "BEGIN:VCALENDAR\r\nX-ONE:1\r\nBEGIN:VGROUP\r\nEND:VGROUP\r\nEND:VCALENDAR";
    let vcal = VCalendar::parse(in_ics).expect("Failed to parse ical");
    assert_eq!(vcal.children.len(), 2);
    assert_eq!(vcal.children[0].get_name(), "X-ONE");
    assert_eq!(vcal.children[1].get_name(), "VGROUP");
    assert!(matches!(vcal.children[1], ICalObject::UnknownComponent(_)));
}

#[test]
fn test_codec_error_surfaces() {
    let r = VCalendar::parse("BEGIN:VCALENDAR\r\nBEGIN:VTODO\r\nPRIORITY:abc\r\nEND:VTODO\r\nEND:VCALENDAR");
    assert_eq!(r.unwrap_err(), ParseError::Codec(CodecError::BadInteger));
}

#[test]
fn test_nested_alarm() {
    let in_ics = "BEGIN:VCALENDAR\r\nBEGIN:VTODO\r\nUID:u\r\nBEGIN:VALARM\r\nACTION:AUDIO\r\nEND:VALARM\r\nEND:VTODO\r\nEND:VCALENDAR";
    let vcal = VCalendar::parse(in_ics).expect("Failed to parse ical");
    let ICalObject::VTodo(ref todo) = vcal.children[0] else {
        panic!("expected a todo");
    };
    assert_eq!(todo.data.alarms.len(), 1);
    assert_eq!(todo.data.alarms[0].get_type(), VAlarmType::Audio);
    let out = vcal.to_ics();
    assert!(out.lines().any(|l| l == "BEGIN:VALARM"));
    assert!(out.lines().any(|l| l == "ACTION:AUDIO"));
}

#[test]
fn test_optional_last_write_wins() {
    let in_ics = "BEGIN:VCALENDAR\r\nBEGIN:VTODO\r\nSUMMARY:first\r\nSUMMARY:second\r\nEND:VTODO\r\nEND:VCALENDAR";
    let vcal = VCalendar::parse(in_ics).expect("Failed to parse ical");
    let ICalObject::VTodo(ref todo) = vcal.children[0] else {
        panic!("expected a todo");
    };
    assert_eq!(todo.get_summary().map(String::as_str), Some("second"));
    let out = vcal.to_ics();
    assert_eq!(out.lines().filter(|l| l.starts_with("SUMMARY:")).count(), 1);
}

#[test]
fn test_multiple_keeps_order() {
    let in_ics = "BEGIN:VCALENDAR\r\nBEGIN:VTODO\r\nCATEGORIES:one\r\nCATEGORIES:two\r\nEND:VTODO\r\nEND:VCALENDAR";
    let vcal = VCalendar::parse(in_ics).expect("Failed to parse ical");
    let ICalObject::VTodo(ref todo) = vcal.children[0] else {
        panic!("expected a todo");
    };
    assert_eq!(todo.get_all_categories(), vec!["one".to_string(), "two".to_string()]);
}
