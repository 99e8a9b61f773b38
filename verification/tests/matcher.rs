use dende_rs::{ConfigError, Matcher};

#[test]
fn literal_substring_matches() {
    let m = Matcher::from_spec(&Some(String::from("ERROR")), &None).unwrap();
    assert!(m.matches("ERROR disk full"));
    assert!(m.matches("xxERRORxx"));
    assert!(!m.matches("INFO ok"));
    assert!(!m.matches("ERRO R"));
    assert!(!m.matches(""));
}

#[test]
fn literal_is_byte_exact() {
    let m = Matcher::from_spec(&Some(String::from("é")), &None).unwrap();
    assert!(m.matches("caf\u{e9}"));
    // the decomposed form e + combining accent has different bytes
    assert!(!m.matches("cafe\u{301}"));
}

#[test]
fn literal_empty_pattern_matches_everything() {
    let m = Matcher::from_spec(&Some(String::new()), &None).unwrap();
    assert!(m.matches(""));
    assert!(m.matches("anything"));
}

#[test]
fn search_wins_over_regex() {
    let m = Matcher::from_spec(&Some(String::from("a.b")), &Some(String::from("x+"))).unwrap();
    assert!(m.matches("za.bz"));
    assert!(!m.matches("xxx"));
}

#[test]
fn regex_unanchored_search() {
    let m = Matcher::from_spec(&None, &Some(String::from("dis+k"))).unwrap();
    assert!(m.matches("ERROR dissssk full"));
    assert!(m.matches("disk"));
    assert!(!m.matches("dik"));
}

#[test]
fn regex_is_not_full_line_match() {
    let m = Matcher::from_spec(&None, &Some(String::from("^ERROR"))).unwrap();
    assert!(m.matches("ERROR here"));
    assert!(!m.matches("xx ERROR here"));
    let any = Matcher::from_spec(&None, &Some(String::from("ERROR"))).unwrap();
    assert!(any.matches("xx ERROR here"));
}

#[test]
fn invalid_regex_is_refused() {
    let r = Matcher::from_spec(&None, &Some(String::from("(unclosed")));
    assert!(matches!(r, Err(ConfigError::InvalidRegex)));
}

#[test]
fn empty_spec_is_refused() {
    let r = Matcher::from_spec(&None, &None);
    assert!(matches!(r, Err(ConfigError::NoMatcher)));
}
