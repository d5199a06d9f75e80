use icalendar::parser::{parameter, parameters, parse_property, property_key, Parameter, ParseErrorKind};
use icalendar::{
    fold_line, normalize, unescape_text, CalendarDateTime, DatePerhapsTime, LocalDateTime, Property,
    ValueType,
};

fn parsed(input: &str) -> Parameter {
    let (rest, p) = parameter(input).unwrap();
    assert_eq!(rest, "");
    p
}

#[test]
fn parameters_test_parameter() {
    assert_eq!(parsed(";KEY=VALUE"), Parameter::new_ref("KEY", Some("VALUE")));
    assert_eq!(parsed("; KEY=VALUE"), Parameter::new_ref("KEY", Some("VALUE")));
    assert_eq!(parsed("; KEY=VAL UE"), Parameter::new_ref("KEY", Some("VAL UE")));
    assert_eq!(parsed("; KEY="), Parameter::new_ref("KEY", None));
    assert_eq!(parsed(";KEY=VAL-UE"), Parameter::new_ref("KEY", Some("VAL-UE")));
    assert_eq!(parsed(";KEY"), Parameter { key: "KEY".into(), val: None });
    assert_eq!(parsed(";email=rust@hoodie.de"), Parameter::new_ref("email", Some("rust@hoodie.de")));
}

#[test]
fn test_parameter_with_dash() {
    assert_eq!(parsed(";X-HOODIE-KEY=VALUE"), Parameter::new_ref("X-HOODIE-KEY", Some("VALUE")));
}

#[test]
fn test_quirky_parameter() {
    assert_eq!(parsed(";KEY="), Parameter::new_ref("KEY", None));
}

#[test]
fn parameters_parse_parameter_list() {
    assert_eq!(parameters(";KEY=VALUE").1, vec![Parameter::new_ref("KEY", Some("VALUE"))]);
    assert_eq!(
        parameters(";KEY=VALUE;DATE=TODAY").1,
        vec![Parameter::new_ref("KEY", Some("VALUE")), Parameter::new_ref("DATE", Some("TODAY"))]
    );
    assert_eq!(
        parameters(";KEY=VALUE;DATE=20170218").1,
        vec![Parameter::new_ref("KEY", Some("VALUE")), Parameter::new_ref("DATE", Some("20170218"))]
    );
}

#[test]
fn parameter_rest_and_quotes() {
    let (rest, p) = parameter(";CN=\"Doe; John\":mailto:x").unwrap();
    assert_eq!(p, Parameter::new_ref("CN", Some("Doe; John")));
    assert_eq!(rest, ":mailto:x");
    let (rest, ps) = parameters(";A=1;B:value");
    assert_eq!(ps.len(), 2);
    assert_eq!(rest, ":value");
}

#[test]
fn parameter_errors() {
    assert_eq!(parameter("KEY=V").unwrap_err().kind, ParseErrorKind::ExpectedSemicolon);
    let e = parameter("; =V").unwrap_err();
    assert_eq!(e.kind, ParseErrorKind::EmptyKey);
    assert_eq!(e.position, 2);
    assert_eq!(parameter(";K=\"open").unwrap_err().kind, ParseErrorKind::UnclosedQuote);
}

#[test]
fn property_key_reads_key() {
    let (rest, key) = property_key("X-WR-CALNAME;A=B:v").unwrap();
    assert_eq!(key, "X-WR-CALNAME");
    assert_eq!(rest, ";A=B:v");
    assert_eq!(property_key("BEGIN:VEVENT").unwrap_err().kind, ParseErrorKind::ReservedKey);
    assert_eq!(property_key("END:VEVENT").unwrap_err().kind, ParseErrorKind::ReservedKey);
    assert_eq!(property_key(":x").unwrap_err().kind, ParseErrorKind::EmptyKey);
    assert!(property_key("ENDING:x").is_ok());
}

#[test]
fn parse_description_line() {
    let line = "DESCRIPTION;VALUE=TEXT:Hi\\, there\\nbye";
    let p = parse_property(line).unwrap();
    assert_eq!(p.key(), "DESCRIPTION");
    assert_eq!(p.params().len(), 1);
    assert_eq!(p.params().get("VALUE").unwrap().value(), "TEXT");
    assert_eq!(p.value(), "Hi, there\nbye");
    let mut out = String::new();
    p.fmt_write(&mut out);
    assert_eq!(out, format!("{line}\r\n"));
}

#[test]
fn parse_errors_of_lines() {
    assert_eq!(parse_property("SUMMARY").unwrap_err().kind, ParseErrorKind::ExpectedColon);
    assert_eq!(parse_property("BEGIN:VCALENDAR").unwrap_err().kind, ParseErrorKind::ReservedKey);
    let e = parse_property("SUMMARY;X=\"a:b").unwrap_err();
    assert_eq!(e.kind, ParseErrorKind::ExpectedColon);
    assert_eq!(e.position, 7);
    assert_eq!(e.fragment, ";X=\"a:b");
    assert_eq!(parse_property("").unwrap_err().kind, ParseErrorKind::EmptyKey);
}

#[test]
fn parse_keeps_unknown_keys_raw() {
    let p = parse_property("X-VENDOR;Y=1:a\\,b").unwrap();
    assert_eq!(p.key(), "X-VENDOR");
    assert_eq!(p.value(), "a\\,b");
    assert_eq!(p.value_type(), None);
}

#[test]
fn parse_last_parameter_wins() {
    let p = parse_property("SUMMARY;LANGUAGE=en;LANGUAGE=de:x").unwrap();
    assert_eq!(p.params().len(), 1);
    assert_eq!(p.params().get("LANGUAGE").unwrap().value(), "de");
}

#[test]
fn property_round_trip() {
    let prop = Property::new("SUMMARY", "a; b, c\\d\ne")
        .add_parameter("LANGUAGE", "en")
        .add_parameter("X-NOTE", "one:two")
        .done();
    let mut out = String::new();
    prop.fmt_write(&mut out);
    let unfolded = normalize(&out);
    let line = unfolded.trim_end_matches('\n');
    let back = parse_property(line).unwrap();
    assert_eq!(back.key(), "SUMMARY");
    assert_eq!(back.value(), "a; b, c\\d\ne");
    assert_eq!(back.params().len(), 2);
    assert_eq!(back.params().get("LANGUAGE").unwrap().value(), "en");
    assert_eq!(back.params().get("X-NOTE").unwrap().value(), "one:two");
}

#[test]
fn test_unfold() {
    let input = "1 hello world\r\n2 hello\r\n  world\r\n3 hello world\r\n4 hello world";

    let expected = r#"1 hello world
2 hello world
3 hello world
4 hello world"#;

    assert_eq!(normalize(input), expected);
}

#[test]
fn fold_line_short() {
    let line = "This is a short line";
    assert_eq!(line, fold_line(line));
}

#[test]
fn fold_line_folds_on_char_boundary() {
    let line = "Content lines shouldn't be folded in the middle \
         of a UTF-8 character. 老虎.";

    let expected = "Content lines shouldn't be folded in the middle \
         of a UTF-8 character. 老\r\n 虎.";
    assert_eq!(expected, fold_line(line));
}

#[test]
fn preserve_spaces() {
    let lines = [
        r#"01234567890123456789012345678901234567890123456789012345HERE_COMES_A_SPACE( )"#,
        r#"01234567890123456789012345678901234567890123456789012345HERE_COMES_A_SPACE( )<-----78901234567890123456789012345678901234567890123HERE_COMES_A_SPACE( )<---"#,
    ];
    for line in lines {
        let folded = fold_line(line);
        let unfolded = normalize(&folded);

        assert_eq!(line, unfolded);
    }
}

#[test]
fn fold_unfold_multibyte_near_limit() {
    let mut line = String::new();
    for i in 0..200 {
        line.push(if i % 7 == 0 { ' ' } else if i % 3 == 0 { 'é' } else if i % 5 == 0 { '虎' } else { 'a' });
    }
    let folded = fold_line(&line);
    for physical in folded.split("\r\n") {
        assert!(physical.len() <= 75);
        assert!(!physical.starts_with("  "));
    }
    assert_eq!(normalize(&folded), line);
}

#[test]
fn fold_exact_boundary() {
    let line = "x".repeat(75);
    assert_eq!(fold_line(&line), line);
    let longer = "x".repeat(76);
    assert_eq!(fold_line(&longer), format!("{}\r\n x", "x".repeat(75)));
}

#[test]
fn escape_special_characters_in_text() {
    let line = "\n\\;,:";

    let expected = r"\n\\\;\,:";
    assert_eq!(expected, Property::escape_text(line));
}

#[test]
fn unescape_inverts_escape() {
    let value = "Hi, there;\\ and\nbye: N";
    assert_eq!(unescape_text(&Property::escape_text(value)), value);
    assert_eq!(unescape_text("a\\Nb\\x"), "a\nb\\x");
}

#[test]
fn escape_special_characters_in_serialized_property() {
    let line = "\n\\;,:";
    let expected = r"\n\\\;\,:";

    let prop = Property::new("DESCRIPTION", line)
        .append_parameter(icalendar::Parameter::new("VALUE", "TEXT"))
        .done();
    let expected = format!("DESCRIPTION;VALUE=TEXT:{expected}\r\n");

    let mut buf = String::new();
    prop.fmt_write(&mut buf);
    assert_eq!(expected, buf);
}

#[test]
fn serialize_property() {
    let prop = Property::new("SUMMARY", "This is a summary");
    let expected = "SUMMARY:This is a summary\r\n";
    let mut buf = String::new();
    prop.fmt_write(&mut buf);
    assert_eq!(expected, buf);
}

#[test]
fn quote_parameter_values() {
    assert_eq!(Property::quote_if_contains_colon("a:b"), "\"a:b\"");
    assert_eq!(Property::quote_if_contains_colon("a;b"), "\"a;b\"");
    assert_eq!(Property::quote_if_contains_colon("plain"), "plain");
}

#[test]
fn value_type_inference() {
    assert_eq!(Property::new("DTSTART", "20250101T090000").value_type(), Some(ValueType::DateTime));
    let date = Property::new("DTSTART", "20250101").add_parameter("VALUE", "DATE").done();
    assert_eq!(date.value_type(), Some(ValueType::Date));
    assert_eq!(Property::new("X-UNKNOWN", "a,b").value_type(), None);
    let mut out = String::new();
    Property::new("X-UNKNOWN", "a,b").fmt_write(&mut out);
    assert_eq!(out, "X-UNKNOWN:a,b\r\n");
    assert_eq!(ValueType::from_str("UTC-OFFSET"), Some(ValueType::UtcOffset));
    assert_eq!(ValueType::from_str("NOPE"), None);
    assert_eq!(ValueType::by_name("SUMMARY"), Some(ValueType::Text));
}

#[test]
fn parse_dtstart_utc_and_floating() {
    let utc = parse_property("DTSTART:20250101T090000Z").unwrap();
    let fields = LocalDateTime::new(2025, 1, 1, 9, 0, 0).unwrap();
    assert_eq!(
        DatePerhapsTime::from_property(&utc),
        Some(DatePerhapsTime::DateTime(CalendarDateTime::Utc(fields)))
    );
    let floating = parse_property("DTSTART:20250101T090000").unwrap();
    assert_eq!(
        DatePerhapsTime::from_property(&floating),
        Some(DatePerhapsTime::DateTime(CalendarDateTime::Floating(fields)))
    );
    assert_eq!(CalendarDateTime::from_str("not a date"), None);
    assert_eq!(CalendarDateTime::Utc(fields).to_string(), "20250101T090000Z");
}

#[test]
fn date_and_from_parsed() {
    let d = icalendar::CalendarDate::from_ymd_opt(2024, 2, 29).unwrap();
    let p = DatePerhapsTime::Date(d).to_property("DTSTART");
    let mut out = String::new();
    p.fmt_write(&mut out);
    assert_eq!(out, "DTSTART;VALUE=DATE:20240229\r\n");
    assert_eq!(DatePerhapsTime::from_property(&p), Some(DatePerhapsTime::Date(d)));
    assert_eq!(icalendar::CalendarDate::from_ymd_opt(2023, 2, 29), None);
    let t = LocalDateTime::new(2020, 5, 6, 7, 8, 9).unwrap();
    assert_eq!(CalendarDateTime::from_parsed(Some(t), Some(t)), Some(CalendarDateTime::Floating(t)));
    assert_eq!(CalendarDateTime::from_parsed(None, Some(t)), Some(CalendarDateTime::Utc(t)));
    assert_eq!(CalendarDateTime::from_parsed(None, None), None);
}

#[test]
fn parameters_map_replaces_in_place() {
    let prop = Property::new("X", "v")
        .add_parameter("A", "1")
        .add_parameter("B", "2")
        .add_parameter("A", "3")
        .done();
    assert_eq!(prop.params().len(), 2);
    assert_eq!(prop.params().at(0).key(), "A");
    assert_eq!(prop.params().at(0).value(), "3");
    let mut out = String::new();
    prop.fmt_write(&mut out);
    assert_eq!(out, "X;A=3;B=2:v\r\n");
}

#[test]
fn properties_from_array_and_converters() {
    let props = Property::from_array([("SUMMARY", "a"), ("PRIORITY", "5")]);
    assert_eq!(props.len(), 2);
    assert_eq!(props[1].key(), "PRIORITY");
    assert_eq!(props[1].get_value_as(|s| s.parse::<u8>().ok()), Some(5));
    let p = Property::new("X", "v").add_parameter("N", "7").done();
    assert_eq!(p.get_param_as("N", |s| s.parse::<u32>().ok()), Some(7));
    assert_eq!(p.get_param_as("M", |s| s.parse::<u32>().ok()), None);
}

#[test]
fn empty_inputs() {
    assert_eq!(fold_line(""), "");
    assert_eq!(normalize(""), "");
    assert_eq!(Property::escape_text(""), "");
    assert_eq!(unescape_text(""), "");
    assert_eq!(parameters("").1.len(), 0);
}

#[test]
fn content_lines_split() {
    let lines = icalendar::parser::content_lines("BEGIN:VEVENT\r\nSUMMARY:long\r\n  line\r\n\r\nEND:VEVENT\r\n");
    assert_eq!(lines, vec!["BEGIN:VEVENT", "SUMMARY:long line", "END:VEVENT"]);
}

#[test]
fn fold_round_trip_with_carriage_return() {
    let line = format!("{}\r{}", "a".repeat(74), "b".repeat(80));
    assert_eq!(normalize(&fold_line(&line)), line);
}

#[test]
fn fold_avoids_unicode_whitespace() {
    let line = format!("{}\u{c}b", "a".repeat(75));
    let folded = fold_line(&line);
    assert_eq!(folded, format!("{}\r\n a\u{c}b", "a".repeat(74)));
    let nbsp = format!("{}\u{a0}b", "a".repeat(74));
    assert_eq!(fold_line(&nbsp), format!("{}\r\n a\u{a0}b", "a".repeat(73)));
    assert_eq!(normalize(&folded), line);
}

#[test]
fn unicode_keys_parse() {
    let p = parse_property("ÜBER;NÄME=x:wert").unwrap();
    assert_eq!(p.key(), "ÜBER");
    assert_eq!(p.params().get("NÄME").unwrap().value(), "x");
    assert_eq!(p.value(), "wert");
    assert_eq!(property_key("§X:1").unwrap_err().kind, ParseErrorKind::EmptyKey);
}

#[test]
fn cloned_property_is_equal() {
    let p = Property::new("SUMMARY", "x").add_parameter("A", "1").done();
    let c = p.clone();
    assert_eq!(c.key(), "SUMMARY");
    assert_eq!(c.params().get("A").unwrap().value(), "1");
}
