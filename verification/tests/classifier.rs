use srch::classifier::{ignore, is_reserved};
use srch::entry::Kind;
use srch::pattern::Matcher;
use srch::request::TraversalRequest;

fn request(include_hidden: bool, reserved: &[&str]) -> TraversalRequest {
    TraversalRequest::new(
        String::from("."),
        Matcher::exact("x"),
        include_hidden,
        false,
        reserved.iter().map(|s| s.to_string()).collect(),
    )
}

fn all_kinds() -> [Kind; 8] {
    [
        Kind::Directory,
        Kind::RegularFile,
        Kind::Symlink,
        Kind::BlockDevice,
        Kind::CharDevice,
        Kind::Fifo,
        Kind::Socket,
        Kind::Other,
    ]
}

#[test]
fn special_kinds_are_ignored_whatever_the_flags() {
    let special = [Kind::Symlink, Kind::BlockDevice, Kind::CharDevice, Kind::Fifo, Kind::Socket];
    for include_hidden in [false, true] {
        let r = request(include_hidden, &[]);
        for kind in special {
            for name in [None, Some("plain"), Some(".dotted")] {
                for required in [false, true] {
                    assert!(ignore(Some(kind), name, required, &r));
                }
            }
        }
    }
}

#[test]
fn missing_metadata_is_ignored() {
    for include_hidden in [false, true] {
        let r = request(include_hidden, &[]);
        assert!(ignore(None, Some("plain"), false, &r));
        assert!(ignore(None, None, true, &r));
    }
}

#[test]
fn only_a_directory_passes_where_one_is_required() {
    let r = request(true, &[]);
    for kind in all_kinds() {
        let expected = kind != Kind::Directory;
        assert_eq!(ignore(Some(kind), None, true, &r), expected);
    }
    assert!(!ignore(Some(Kind::RegularFile), Some("a"), false, &r));
    assert!(!ignore(Some(Kind::Other), Some("a"), false, &r));
}

#[test]
fn dotted_names_are_ignored_unless_hidden_is_included() {
    let visible_only = request(false, &[]);
    let all = request(true, &[]);
    for kind in [Kind::Directory, Kind::RegularFile, Kind::Other] {
        assert!(ignore(Some(kind), Some(".hidden"), false, &visible_only));
        assert!(ignore(Some(kind), Some("."), false, &visible_only));
        assert!(!ignore(Some(kind), Some(".hidden"), false, &all));
        assert!(!ignore(Some(kind), Some("a.b"), false, &visible_only));
        assert!(!ignore(Some(kind), Some(""), false, &visible_only));
    }
}

#[test]
fn an_object_without_a_name_is_judged_by_its_kind_alone() {
    let r = request(false, &[".git"]);
    assert!(!ignore(Some(Kind::Directory), None, true, &r));
    assert!(!ignore(Some(Kind::Directory), None, false, &r));
    assert!(ignore(Some(Kind::Symlink), None, true, &r));
}

#[test]
fn reserved_names_are_ignored_whatever_the_flags() {
    for include_hidden in [false, true] {
        let r = request(include_hidden, &[".git", "node_modules"]);
        assert!(ignore(Some(Kind::Directory), Some(".git"), false, &r));
        assert!(ignore(Some(Kind::Directory), Some("node_modules"), true, &r));
        assert!(ignore(Some(Kind::RegularFile), Some(".git"), false, &r));
        assert!(!ignore(Some(Kind::Directory), Some("git"), false, &r));
        assert!(!ignore(Some(Kind::Directory), Some("node_module"), false, &r));
    }
}

#[test]
fn the_decision_does_not_depend_on_pattern_root_or_files_only() {
    let a = TraversalRequest::new(String::from("."), Matcher::exact("x"), false, false, vec![]);
    let b = TraversalRequest::new(
        String::from("/tmp"),
        Matcher::regex(".*").unwrap(),
        false,
        true,
        vec![],
    );
    for kind in all_kinds() {
        for name in [None, Some("plain"), Some(".dotted")] {
            for required in [false, true] {
                assert_eq!(
                    ignore(Some(kind), name, required, &a),
                    ignore(Some(kind), name, required, &b)
                );
            }
        }
    }
}

#[test]
fn is_reserved_looks_for_the_whole_name() {
    let names = vec![String::from(".git"), String::from("target")];
    assert!(is_reserved(".git", &names));
    assert!(is_reserved("target", &names));
    assert!(!is_reserved(".gi", &names));
    assert!(!is_reserved("targets", &names));
    assert!(!is_reserved("", &names));
    assert!(!is_reserved(".git", &Vec::new()));
}

#[test]
fn classify_gives_each_file_type_its_kind() {
    assert_eq!(Kind::classify(true, false, false, false, false, false, false), Kind::Directory);
    assert_eq!(Kind::classify(false, true, false, false, false, false, false), Kind::RegularFile);
    assert_eq!(Kind::classify(false, false, true, false, false, false, false), Kind::Symlink);
    assert_eq!(Kind::classify(false, false, false, true, false, false, false), Kind::BlockDevice);
    assert_eq!(Kind::classify(false, false, false, false, true, false, false), Kind::CharDevice);
    assert_eq!(Kind::classify(false, false, false, false, false, true, false), Kind::Fifo);
    assert_eq!(Kind::classify(false, false, false, false, false, false, true), Kind::Socket);
    assert_eq!(Kind::classify(false, false, false, false, false, false, false), Kind::Other);
}

#[test]
fn classify_never_takes_a_link_for_what_it_points_to() {
    assert_eq!(Kind::classify(true, false, true, false, false, false, false), Kind::Symlink);
    assert_eq!(Kind::classify(false, true, true, false, false, false, false), Kind::Symlink);
}

#[test]
fn is_directory_tells_directories_apart() {
    for kind in all_kinds() {
        assert_eq!(kind.is_directory(), kind == Kind::Directory);
    }
}
