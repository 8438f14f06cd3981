use pwmirror::strmap::StrMap;
use pwmirror::text::parse_u32;
use pwmirror::text::str_eq;
use pwmirror::text::str_has_prefix;
use pwmirror::text::str_has_substring;
use pwmirror::text::str_has_suffix;

#[test]
fn parse_u32_plain_numbers() {
    assert_eq!(parse_u32("0"), Some(0));
    assert_eq!(parse_u32("5"), Some(5));
    assert_eq!(parse_u32("4294967295"), Some(u32::MAX));
    assert_eq!(parse_u32("007"), Some(7));
}

#[test]
fn parse_u32_accepts_leading_plus() {
    assert_eq!(parse_u32("+5"), Some(5));
    assert_eq!(parse_u32("+"), None);
}

#[test]
fn parse_u32_rejects_garbage_and_overflow() {
    assert_eq!(parse_u32(""), None);
    assert_eq!(parse_u32("x"), None);
    assert_eq!(parse_u32("12x"), None);
    assert_eq!(parse_u32("-1"), None);
    assert_eq!(parse_u32("4294967296"), None);
    assert_eq!(parse_u32("99999999999999999999"), None);
    assert_eq!(parse_u32("1 2"), None);
}

#[test]
fn string_scans() {
    assert!(str_eq("abc", "abc"));
    assert!(!str_eq("abc", "abd"));
    assert!(str_has_prefix("node.name", "node"));
    assert!(!str_has_prefix("node", "node.name"));
    assert!(str_has_suffix("node.name", ".name"));
    assert!(!str_has_suffix("name", ".name"));
    assert!(str_has_substring("media.class", "ia.cl"));
    assert!(!str_has_substring("media.class", "xyz"));
    assert!(str_has_substring("anything", ""));
}

#[test]
fn strmap_insert_get_and_replace() {
    let mut m: StrMap<String> = StrMap::new();
    assert!(m.is_empty());
    m.insert("b".to_owned(), "2".to_owned());
    m.insert("a".to_owned(), "1".to_owned());
    assert_eq!(m.len(), 2);
    assert_eq!(m.get("a").map(String::as_str), Some("1"));
    assert_eq!(m.get("b").map(String::as_str), Some("2"));
    assert_eq!(m.get("c"), None);
    m.insert("a".to_owned(), "9".to_owned());
    assert_eq!(m.len(), 2);
    assert_eq!(m.get("a").map(String::as_str), Some("9"));
}

#[test]
fn strmap_keeps_key_order() {
    let mut m: StrMap<u32> = StrMap::new();
    m.insert("zeta".to_owned(), 1);
    m.insert("alpha".to_owned(), 2);
    m.insert("mid".to_owned(), 3);
    let keys: Vec<&str> = (0..m.len()).map(|i| m.entry_at(i).0.as_str()).collect();
    assert_eq!(keys, vec!["alpha", "mid", "zeta"]);
}

#[test]
fn strmap_remove_and_clear() {
    let mut m: StrMap<u32> = StrMap::new();
    m.insert("a".to_owned(), 1);
    m.insert("b".to_owned(), 2);
    assert_eq!(m.remove("a"), Some(1));
    assert_eq!(m.remove("a"), None);
    assert!(m.contains_key("b"));
    m.clear();
    assert_eq!(m.len(), 0);
    assert!(!m.contains_key("b"));
}

#[test]
fn strmap_duplicate_is_equal_and_independent() {
    let mut m: StrMap<String> = StrMap::new();
    m.insert("k".to_owned(), "v".to_owned());
    let mut d = m.duplicate();
    assert_eq!(d.get("k").map(String::as_str), Some("v"));
    d.insert("k2".to_owned(), "w".to_owned());
    assert_eq!(m.len(), 1);
    assert_eq!(d.len(), 2);
}
