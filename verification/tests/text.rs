use srch::entry::{Entry, Kind};
use srch::request::default_reserved;
use srch::text::{same_text, starts_with_dot};

#[test]
fn same_text_compares_character_by_character() {
    assert!(same_text("", ""));
    assert!(same_text("abc", "abc"));
    assert!(!same_text("abc", "abd"));
    assert!(!same_text("abc", "ab"));
    assert!(!same_text("ab", "abc"));
    assert!(!same_text("abc", "ABC"));
    assert!(same_text("na\u{ef}ve", "na\u{ef}ve"));
    assert!(!same_text("na\u{ef}ve", "naive"));
}

#[test]
fn starts_with_dot_looks_at_the_first_character() {
    assert!(starts_with_dot("."));
    assert!(starts_with_dot(".."));
    assert!(starts_with_dot(".hidden"));
    assert!(!starts_with_dot(""));
    assert!(!starts_with_dot("a.b"));
    assert!(!starts_with_dot("\u{b7}dot"));
}

#[test]
fn the_default_reserved_name_is_the_git_directory() {
    assert_eq!(default_reserved(), vec![String::from(".git")]);
}

#[test]
fn an_entry_keeps_what_it_was_made_of() {
    let entry = Entry::new("./src/lib.rs", "lib.rs", Kind::RegularFile);
    assert_eq!(entry.path, "./src/lib.rs");
    assert_eq!(entry.name, "lib.rs");
    assert_eq!(entry.kind, Kind::RegularFile);
    let copy = entry.clone();
    assert_eq!(copy.path, entry.path);
    assert_eq!(copy.name, entry.name);
    assert_eq!(copy.kind, entry.kind);
}
