use icsutils::db::IcsCal;
use icsutils::{
    calendar_keywords, filter_calendar_lines, not_filtered_keywords, parse_calendar_content,
    BEGIN_VCALENDAR, DESCRIPTION, LOCATION, SUMMARY,
};

const SOURCE: &str = "BEGIN:VCALENDAR\r\nVERSION:2.0\r\nPRODID:-//Google Inc//Google Calendar 70.9054//EN\r\nCALSCALE:GREGORIAN\r\nMETHOD:PUBLISH\r\nX-WR-CALNAME:Work\r\nBEGIN:VEVENT\r\nDTSTART:20200101T100000Z\r\nSUMMARY:Board meeting\r\nDESCRIPTION:Budget and\r\n  hiring\r\nLOCATION:Room 4\r\nEND:VEVENT\r\nEND:VCALENDAR\r\n";

fn cal(name: &str, is_private: bool) -> IcsCal {
    IcsCal { name: name.to_string(), is_private, ics_url: String::new() }
}

#[test]
fn private_calendar_hides_details() {
    let out = parse_calendar_content(cal("Work", true), SOURCE.to_string());
    assert_eq!(out, "BEGIN:VEVENT\nDTSTART:20200101T100000Z\nSUMMARY:Work\nEND:VEVENT\n");
}

#[test]
fn public_calendar_keeps_details() {
    let out = parse_calendar_content(cal("Work", false), SOURCE.to_string());
    assert_eq!(
        out,
        "BEGIN:VEVENT\nDTSTART:20200101T100000Z\nSUMMARY:Board meeting\nDESCRIPTION:Budget and hiring\nLOCATION:Room 4\nEND:VEVENT\n"
    );
}

#[test]
fn empty_source_gives_empty_content() {
    assert_eq!(parse_calendar_content(cal("Work", true), String::new()), "");
}

#[test]
fn keywords_of_public_and_private_calendars() {
    assert_eq!(calendar_keywords(false).len(), 7);
    let private = calendar_keywords(true);
    assert_eq!(private.len(), 10);
    assert!(private.contains(&DESCRIPTION));
    assert!(private.contains(&LOCATION));
    assert!(!private.contains(&SUMMARY));
}

#[test]
fn keyword_prefix_test() {
    let keys = calendar_keywords(false);
    assert!(!not_filtered_keywords("BEGIN:VCALENDAR", &keys));
    assert!(!not_filtered_keywords("VERSION:2.0", &keys));
    assert!(not_filtered_keywords("BEGIN:VEVENT", &keys));
    assert!(not_filtered_keywords("BEGIN", &keys));
    assert!(not_filtered_keywords("", &keys));
    assert!(not_filtered_keywords("DESCRIPTION:x", &keys));
    assert!(!not_filtered_keywords("DESCRIPTION:x", &calendar_keywords(true)));
    assert_eq!(BEGIN_VCALENDAR, "BEGIN:VCALENDAR");
}

#[test]
fn filter_of_given_lines() {
    let lines = vec![
        "METHOD:PUBLISH".to_string(),
        "SUMMARY:Dentist".to_string(),
        "LOCATION:Main street".to_string(),
        "SUMMARY".to_string(),
        "Ünïcode: é".to_string(),
    ];
    assert_eq!(
        filter_calendar_lines(&cal("Private stuff", true), &lines),
        "SUMMARY:Private stuff\nSUMMARY\nÜnïcode: é\n"
    );
    assert_eq!(
        filter_calendar_lines(&cal("Private stuff", false), &lines),
        "SUMMARY:Dentist\nLOCATION:Main street\nSUMMARY\nÜnïcode: é\n"
    );
}

#[test]
fn law_filter_line_by_line_on_values() {
    let c = cal("N", true);
    let a = vec!["SUMMARY:a".to_string(), "X:1".to_string()];
    let b = vec!["PRODID:p".to_string(), "Y:2".to_string()];
    let mut ab = a.clone();
    ab.extend(b.clone());
    assert_eq!(
        filter_calendar_lines(&c, &ab),
        filter_calendar_lines(&c, &a) + &filter_calendar_lines(&c, &b)
    );
}

#[test]
fn output_is_made_of_whole_lines() {
    let out = parse_calendar_content(cal("Work", true), SOURCE.to_string());
    assert!(out.ends_with('\n'));
    for line in out.lines() {
        assert!(!line.starts_with("BEGIN:VCALENDAR") && !line.starts_with("VERSION:"));
        assert!(!line.starts_with("DESCRIPTION:") && !line.starts_with("LOCATION:"));
        if line.starts_with("SUMMARY:") {
            assert_eq!(line, "SUMMARY:Work");
        }
    }
}

#[test]
fn filtering_again_changes_nothing() {
    let lines = vec![
        "VERSION:2.0".to_string(),
        "SUMMARY:Dentist".to_string(),
        "DESCRIPTION:teeth".to_string(),
        "DTSTART:20200101".to_string(),
    ];
    for private in [true, false] {
        let c = cal("Me", private);
        let once = filter_calendar_lines(&c, &lines);
        let kept: Vec<String> = once.lines().map(|l| l.to_string()).collect();
        assert_eq!(filter_calendar_lines(&c, &kept), once);
    }
}
