use cymbal::sanitize_string;

#[test]
fn it_replaces_null_characters() {
    let content = sanitize_string("\u{0000} is not valid JSON".to_string());
    assert_eq!(content, "\u{FFFD} is not valid JSON");
}

#[test]
fn leaves_clean_strings_alone() {
    let content = sanitize_string("no control characters here".to_string());
    assert_eq!(content, "no control characters here");
}

#[test]
fn replaces_every_null_character() {
    let content = sanitize_string("a\u{0000}b\u{0000}c".to_string());
    assert_eq!(content, "a\u{FFFD}b\u{FFFD}c");
}

#[test]
fn empty_string_stays_empty() {
    assert_eq!(sanitize_string(String::new()), "");
}
