use wry::http_syntax::header_value_to_str;
use wry::text::decimal_string;
use wry::{Counter, HeaderFields};

#[test]
fn counter_starts_at_one_and_counts_up() {
    let c = Counter::new();
    assert_eq!(c.next(), 1);
    assert_eq!(c.next(), 2);
    assert_eq!(c.next(), 3);
}

#[test]
fn decimal_string_matches_to_string() {
    for n in [0usize, 1, 9, 10, 42, 100, 1234, 99999, usize::MAX] {
        assert_eq!(decimal_string(n), n.to_string());
    }
}

#[test]
fn header_value_to_str_accepts_visible_ascii_only() {
    assert_eq!(header_value_to_str(&b"text/plain".to_vec()), Some("text/plain".to_string()));
    assert_eq!(header_value_to_str(&b"a\tb".to_vec()), Some("a\tb".to_string()));
    assert_eq!(header_value_to_str(&Vec::new()), Some(String::new()));
    assert_eq!(header_value_to_str(&b"\x80\x81\x82".to_vec()), None);
    assert_eq!(header_value_to_str(&b"a\x7fb".to_vec()), None);
    assert_eq!(header_value_to_str(&b"a\x01b".to_vec()), None);
}

#[test]
fn header_fields_replace_under_same_name() {
    let mut f = HeaderFields::new();
    f.insert("a".to_string(), "1".to_string());
    f.insert("b".to_string(), "2".to_string());
    f.insert("a".to_string(), "3".to_string());
    assert_eq!(f.len(), 2);
    assert_eq!(f.get("a").unwrap(), "3");
    assert_eq!(f.get("b").unwrap(), "2");
    assert!(f.get("c").is_none());
}
