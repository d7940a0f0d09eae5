use icsutils::text::{body_text, push_lower_hex, starts_with};

#[test]
fn prefix_tests() {
    assert!(starts_with("SUMMARY:x", "SUMMARY:"));
    assert!(starts_with("abc", ""));
    assert!(!starts_with("SUMM", "SUMMARY:"));
    assert!(!starts_with("summary:x", "SUMMARY:"));
    assert!(starts_with("été", "ét"));
}

#[test]
fn body_text_decodes_or_is_empty() {
    assert_eq!(body_text(b"BEGIN:VCALENDAR".to_vec()), "BEGIN:VCALENDAR");
    assert_eq!(body_text(vec![0xc3, 0xa9]), "é");
    assert_eq!(body_text(vec![0xff, 0x41]), "");
    assert_eq!(body_text(vec![0xed, 0xa0, 0x80]), "");
    assert_eq!(body_text(Vec::new()), "");
}

#[test]
fn lower_hex_values() {
    for n in [0u64, 9, 10, 15, 16, 255, 4096, 0xdead_beef, u64::MAX] {
        let mut s = String::from("x");
        push_lower_hex(&mut s, n);
        assert_eq!(s, format!("x{:x}", n));
    }
}
