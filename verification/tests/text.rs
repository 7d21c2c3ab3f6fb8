use acp_agent::failure::Failure;
use acp_agent::order::{bytes_before, place_texts, texts_before, Place};
use acp_agent::paths::{
    components_of, file_name_of, is_same_path, join_path, parent_of, path_is_absolute, path_parts,
    sibling,
};
use acp_agent::text::{
    has_char, has_prefix, has_suffix, last_occurrence, pad_number, same, split_at_char,
    to_ascii_lower, to_decimal, trimmed,
};

#[test]
fn numbers_are_written_out() {
    assert_eq!(to_decimal(0), "0");
    assert_eq!(
        to_decimal(u128::MAX),
        "340282366920938463463374607431768211455"
    );
    assert_eq!(pad_number(7, 2), "07");
    assert_eq!(pad_number(-7, 4), "-007");
    assert_eq!(pad_number(123, 2), "123");
}

#[test]
fn texts_are_taken_apart() {
    assert_eq!(trimmed(" \u{a0}a b\n"), "a b");
    assert_eq!(to_ascii_lower("ABÄ"), "abÄ");
    assert_eq!(split_at_char("a,,b", ','), vec!["a", "", "b"]);
    assert_eq!(split_at_char("", ','), vec![""]);
    assert_eq!(last_occurrence("a-b-c", "-"), Some(3));
    assert_eq!(last_occurrence("abc", "-"), None);
    assert!(has_prefix("abc", "ab"));
    assert!(!has_prefix("a", "ab"));
    assert!(has_suffix("abc", "bc"));
    assert!(has_char("abc", 'b'));
    assert!(same("ä", "ä"));
    assert!(!same("a", "ab"));
}

#[test]
fn paths_are_read_as_the_platform_does() {
    assert_eq!(join_path("/a", "b"), "/a/b");
    assert_eq!(join_path("/a/", "b"), "/a/b");
    assert_eq!(join_path("/a", "/b"), "/b");
    assert_eq!(join_path("", "b"), "b");
    assert!(path_is_absolute("/a"));
    assert!(!path_is_absolute("a"));
    assert_eq!(file_name_of("/a/b/").as_deref(), Some("b"));
    assert_eq!(file_name_of("/a/..").as_deref(), None);
    assert_eq!(file_name_of("/").as_deref(), None);
    assert_eq!(parent_of("/a/b").as_deref(), Some("/a"));
    assert_eq!(parent_of("/a").as_deref(), Some("/"));
    assert_eq!(parent_of("a").as_deref(), Some(""));
    assert_eq!(parent_of("/").as_deref(), None);
    assert_eq!(sibling("/a/b", "c"), "/a/c");
    assert_eq!(path_parts("./a//b/./c").names, vec!["a", "b", "c"]);
    assert!(path_parts("a/..").climbs);
    assert!(is_same_path("/a//b/.", "/a/b"));
    assert!(!is_same_path("a/b", "./a/b"));
    assert_eq!(components_of("/a/./../b"), vec!["a", "..", "b"]);
}

#[test]
fn texts_have_an_order() {
    assert!(matches!(place_texts("a", "b"), Place::Before));
    assert!(matches!(place_texts("b", "ab"), Place::After));
    assert!(matches!(place_texts("a", "a"), Place::Same));
    assert!(matches!(place_texts("a", "aa"), Place::Before));
    assert!(bytes_before(&b"a".to_vec(), &b"b".to_vec()));
    assert!(texts_before(
        &vec!["a".to_string()],
        &vec!["a".to_string(), "b".to_string()]
    ));
    assert!(!texts_before(&vec!["b".to_string()], &vec!["a".to_string()]));
}

#[test]
fn failures_tell_their_chain() {
    let failure = Failure::new("inner".to_string())
        .within("middle".to_string())
        .within("outer".to_string());
    assert_eq!(failure.message, "outer");
    assert_eq!(failure.causes, vec!["middle", "inner"]);
    assert_eq!(failure.chain(), "outer: middle: inner");
}
