use srch::entry::{Entry, Kind};
use srch::pattern::Matcher;
use srch::request::TraversalRequest;
use srch::results::SearchResults;
use srch::walk::Walk;

fn request(pattern: &str, include_hidden: bool, files_only: bool) -> TraversalRequest {
    TraversalRequest::new(
        String::from("."),
        Matcher::regex(pattern).unwrap(),
        include_hidden,
        files_only,
        vec![String::from(".git")],
    )
}

fn dir(path: &str, name: &str) -> Entry {
    Entry::new(path, name, Kind::Directory)
}

fn file(path: &str, name: &str) -> Entry {
    Entry::new(path, name, Kind::RegularFile)
}

fn counts(r: &SearchResults) -> (u64, u64, u64, u64) {
    (r.directories_matched(), r.files_matched(), r.objects_scanned(), r.directories_pushed())
}

/// The children of each directory of a small tree: `a/`, `b.txt` and `.hidden/`
/// under the root, `c.txt` under `.hidden/`, nothing under `a/`.
fn listing(path: &str) -> Vec<Entry> {
    match path {
        "." => vec![dir("./a", "a"), file("./b.txt", "b.txt"), dir("./.hidden", ".hidden")],
        "./.hidden" => vec![file("./.hidden/c.txt", "c.txt")],
        _ => vec![],
    }
}

/// Drives a walk over the small tree and returns what it printed and the order in
/// which it expanded directories.
fn run(request: TraversalRequest) -> (Walk, Vec<String>, Vec<String>) {
    let mut walk = Walk::new(request);
    let mut printed = Vec::new();
    let mut expanded = Vec::new();
    while let Some(path) = walk.next_directory() {
        if !walk.expands(Some(Kind::Directory)) {
            continue;
        }
        for entry in listing(&path) {
            assert!(walk.has_room(1));
            if let Some(line) = walk.visit(&entry) {
                printed.push(line);
            }
        }
        expanded.push(path);
    }
    (walk, printed, expanded)
}

#[test]
fn a_hidden_directory_is_left_out_by_default() {
    let (walk, printed, expanded) = run(request("b.txt", false, false));
    assert_eq!(printed, vec![String::from("./b.txt")]);
    assert_eq!(expanded, vec![String::from("."), String::from("./a")]);
    assert_eq!(walk.results().directories_pushed(), 2);
    assert_eq!(walk.results().files_matched(), 1);
    assert_eq!(walk.results().directories_matched(), 0);
    assert_eq!(walk.results().objects_scanned(), 2);
    assert_eq!(walk.pending(), 0);
}

#[test]
fn a_hidden_directory_is_walked_when_included() {
    let (walk, printed, expanded) = run(request("b.txt", true, false));
    assert_eq!(printed, vec![String::from("./b.txt")]);
    assert_eq!(
        expanded,
        vec![String::from("."), String::from("./a"), String::from("./.hidden")]
    );
    assert_eq!(walk.results().directories_pushed(), 3);
    assert_eq!(walk.results().objects_scanned(), 4);
    assert_eq!(walk.results().files_matched(), 1);
    assert_eq!(walk.results().directories_matched(), 0);
}

#[test]
fn hidden_children_are_reported_when_included() {
    let (walk, printed, _) = run(request("c.txt", true, false));
    assert_eq!(printed, vec![String::from("./.hidden/c.txt")]);
    assert_eq!(counts(walk.results()), (0, 1, 4, 3));
    let (walk, printed, _) = run(request("c.txt", false, false));
    assert!(printed.is_empty());
    assert_eq!(counts(walk.results()), (0, 0, 2, 2));
}

#[test]
fn a_matching_directory_is_counted_and_printed_in_purple() {
    let (walk, printed, _) = run(request("a", false, false));
    assert_eq!(printed, vec![String::from("\u{1b}[35m./a\u{1b}[0m")]);
    assert_eq!(counts(walk.results()), (1, 0, 2, 2));
}

#[test]
fn files_only_leaves_directories_out_of_scanning_and_matching() {
    let (walk, printed, expanded) = run(request(".*", true, true));
    assert_eq!(printed, vec![String::from("./b.txt"), String::from("./.hidden/c.txt")]);
    assert_eq!(
        expanded,
        vec![String::from("."), String::from("./a"), String::from("./.hidden")]
    );
    assert_eq!(counts(walk.results()), (0, 2, 2, 3));
    let (walk, printed, _) = run(request(".*", true, false));
    assert_eq!(printed.len(), 4);
    assert_eq!(counts(walk.results()), (2, 2, 4, 3));
}

#[test]
fn a_new_walk_holds_the_root_alone() {
    let mut walk = Walk::new(request("x", false, false));
    assert_eq!(walk.pending(), 1);
    assert_eq!(counts(walk.results()), (0, 0, 0, 1));
    assert_eq!(walk.request().root(), ".");
    assert_eq!(walk.next_directory(), Some(String::from(".")));
    assert_eq!(walk.pending(), 0);
    assert_eq!(walk.next_directory(), None);
    assert_eq!(walk.next_directory(), None);
    assert_eq!(counts(walk.results()), (0, 0, 0, 1));
}

#[test]
fn the_root_is_expanded_whatever_its_name() {
    let dotted = TraversalRequest::new(
        String::from(".config"),
        Matcher::exact("x"),
        false,
        false,
        vec![String::from(".config")],
    );
    let mut walk = Walk::new(dotted);
    assert_eq!(walk.next_directory(), Some(String::from(".config")));
    assert!(walk.expands(Some(Kind::Directory)));
}

#[test]
fn a_directory_is_expanded_only_if_it_still_is_one() {
    let walk = Walk::new(request("x", true, false));
    assert!(walk.expands(Some(Kind::Directory)));
    assert!(!walk.expands(None));
    assert!(!walk.expands(Some(Kind::RegularFile)));
    assert!(!walk.expands(Some(Kind::Symlink)));
    assert!(!walk.expands(Some(Kind::Socket)));
    assert!(!walk.expands(Some(Kind::Other)));
}

#[test]
fn a_directory_that_is_not_expanded_adds_nothing() {
    let mut walk = Walk::new(request(".*", false, false));
    assert_eq!(walk.next_directory(), Some(String::from(".")));
    assert!(!walk.expands(None));
    assert_eq!(walk.next_directory(), None);
    assert_eq!(counts(walk.results()), (0, 0, 0, 1));
}

#[test]
fn special_children_are_neither_counted_nor_queued_nor_printed() {
    for include_hidden in [false, true] {
        let mut walk = Walk::new(request(".*", include_hidden, false));
        walk.next_directory();
        for kind in [Kind::Symlink, Kind::BlockDevice, Kind::CharDevice, Kind::Fifo, Kind::Socket]
        {
            assert_eq!(walk.visit(&Entry::new("./x", "x", kind)), None);
        }
        assert_eq!(counts(walk.results()), (0, 0, 0, 1));
        assert_eq!(walk.pending(), 0);
    }
}

#[test]
fn reserved_children_are_passed_over_even_when_hidden_is_included() {
    let mut walk = Walk::new(request(".*", true, false));
    walk.next_directory();
    assert_eq!(walk.visit(&dir("./.git", ".git")), None);
    assert_eq!(walk.visit(&file("./.git", ".git")), None);
    assert_eq!(walk.visit(&dir("./.github", ".github")), Some(String::from("\u{1b}[35m./.github\u{1b}[0m")));
    assert_eq!(counts(walk.results()), (1, 0, 1, 2));
}

#[test]
fn record_takes_the_verdict_as_given() {
    let mut walk = Walk::new(request("never", false, false));
    walk.next_directory();
    assert_eq!(walk.record(&file("./f", "f"), true), Some(String::from("./f")));
    assert_eq!(walk.record(&file("./g", "g"), false), None);
    assert_eq!(walk.record(&dir("./d", "d"), true), Some(String::from("\u{1b}[35m./d\u{1b}[0m")));
    assert_eq!(walk.record(&dir("./e", "e"), false), None);
    assert_eq!(walk.record(&file("./.h", ".h"), true), None);
    assert_eq!(walk.record(&Entry::new("./o", "o", Kind::Other), true), Some(String::from("./o")));
    assert_eq!(counts(walk.results()), (1, 2, 5, 3));
    assert_eq!(walk.pending(), 2);
    assert_eq!(walk.next_directory(), Some(String::from("./d")));
    assert_eq!(walk.next_directory(), Some(String::from("./e")));
    assert_eq!(walk.next_directory(), None);
}

#[test]
fn record_in_files_only_mode_never_reports_a_directory() {
    let mut walk = Walk::new(request("never", false, true));
    walk.next_directory();
    assert_eq!(walk.record(&dir("./d", "d"), true), None);
    assert_eq!(walk.record(&file("./f", "f"), true), Some(String::from("./f")));
    assert_eq!(counts(walk.results()), (0, 1, 1, 2));
    assert_eq!(walk.pending(), 1);
}

#[test]
fn search_takes_a_whole_listing_in_order() {
    let mut walk = Walk::new(request("[ab].*", false, false));
    walk.next_directory();
    let entries = vec![
        file("./b.txt", "b.txt"),
        dir("./z", "z"),
        dir("./a", "a"),
        file("./c.txt", "c.txt"),
        file("./.a", ".a"),
        file("./a.txt", "a.txt"),
    ];
    assert!(walk.has_room(entries.len()));
    let printed = walk.search(&entries);
    assert_eq!(
        printed,
        vec![
            String::from("./b.txt"),
            String::from("\u{1b}[35m./a\u{1b}[0m"),
            String::from("./a.txt"),
        ]
    );
    assert_eq!(counts(walk.results()), (1, 2, 5, 3));
    assert_eq!(walk.next_directory(), Some(String::from("./z")));
    assert_eq!(walk.next_directory(), Some(String::from("./a")));
    assert_eq!(walk.next_directory(), None);
}

#[test]
fn search_of_an_empty_listing_changes_nothing() {
    let mut walk = Walk::new(request(".*", false, false));
    walk.next_directory();
    assert!(walk.search(&Vec::new()).is_empty());
    assert_eq!(counts(walk.results()), (0, 0, 0, 1));
    assert_eq!(walk.pending(), 0);
}

#[test]
fn search_and_visit_agree() {
    let entries = listing(".");
    let mut whole = Walk::new(request(".*", true, false));
    let mut single = Walk::new(request(".*", true, false));
    whole.next_directory();
    single.next_directory();
    let printed = whole.search(&entries);
    let mut lines = Vec::new();
    for entry in &entries {
        if let Some(line) = single.visit(entry) {
            lines.push(line);
        }
    }
    assert_eq!(printed, lines);
    assert_eq!(counts(whole.results()), counts(single.results()));
    assert_eq!(whole.pending(), single.pending());
}

#[test]
fn directories_are_expanded_breadth_first_each_once() {
    let mut walk = Walk::new(request("x", false, false));
    let mut order = Vec::new();
    while let Some(path) = walk.next_directory() {
        let children = match path.as_str() {
            "." => vec![dir("./a", "a"), dir("./b", "b")],
            "./a" => vec![dir("./a/c", "c"), file("./a/f", "f")],
            "./b" => vec![dir("./b/d", "d")],
            "./a/c" => vec![dir("./a/c/e", "e")],
            _ => vec![],
        };
        walk.search(&children);
        order.push(path);
    }
    assert_eq!(order, vec![".", "./a", "./b", "./a/c", "./b/d", "./a/c/e"]);
    assert_eq!(counts(walk.results()), (0, 0, 6, 6));
}

#[test]
fn the_order_of_siblings_does_not_change_the_counts() {
    let mut forward = Walk::new(request("b.*", false, false));
    let mut backward = Walk::new(request("b.*", false, false));
    let mut entries = vec![
        dir("./a", "a"),
        file("./b.txt", "b.txt"),
        dir("./.hidden", ".hidden"),
        dir("./b", "b"),
    ];
    forward.next_directory();
    backward.next_directory();
    forward.search(&entries);
    entries.reverse();
    backward.search(&entries);
    assert_eq!(counts(forward.results()), (1, 1, 3, 3));
    assert_eq!(counts(forward.results()), counts(backward.results()));
    assert_eq!(forward.pending(), backward.pending());
}

#[test]
fn has_room_tells_whether_the_counters_can_grow() {
    let walk = Walk::new(request("x", false, false));
    assert!(walk.has_room(0));
    assert!(walk.has_room(1));
    assert!(walk.has_room(1_000_000));
    assert!(!walk.has_room(usize::MAX));
}

#[test]
fn a_child_without_a_kind_is_passed_over() {
    let mut walk = Walk::new(request(".*", true, false));
    walk.next_directory();
    assert_eq!(walk.visit_found("./gone", "gone", None), None);
    assert_eq!(counts(walk.results()), (0, 0, 0, 1));
    assert_eq!(walk.pending(), 0);
    assert_eq!(
        walk.visit_found("./f", "f", Some(Kind::RegularFile)),
        Some(String::from("./f"))
    );
    assert_eq!(walk.visit_found("./gone", "gone", None), None);
    assert_eq!(
        walk.visit_found("./d", "d", Some(Kind::Directory)),
        Some(String::from("\u{1b}[35m./d\u{1b}[0m"))
    );
    assert_eq!(counts(walk.results()), (1, 1, 2, 2));
    assert_eq!(walk.next_directory(), Some(String::from("./d")));
    assert_eq!(walk.next_directory(), None);
}

#[test]
fn visit_found_does_as_visit_for_a_child_with_a_kind() {
    let children = [
        ("./a", "a", Kind::Directory),
        ("./b.txt", "b.txt", Kind::RegularFile),
        ("./.hidden", ".hidden", Kind::Directory),
        ("./l", "l", Kind::Symlink),
        ("./.git", ".git", Kind::Directory),
        ("./o", "o", Kind::Other),
    ];
    for include_hidden in [false, true] {
        for files_only in [false, true] {
            let mut found = Walk::new(request("[ab].*|o", include_hidden, files_only));
            let mut visited = Walk::new(request("[ab].*|o", include_hidden, files_only));
            found.next_directory();
            visited.next_directory();
            for (path, name, kind) in children {
                assert_eq!(
                    found.visit_found(path, name, Some(kind)),
                    visited.visit(&Entry::new(path, name, kind))
                );
            }
            assert_eq!(counts(found.results()), counts(visited.results()));
            assert_eq!(found.pending(), visited.pending());
        }
    }
}

#[test]
fn a_listing_without_passed_over_children_is_scanned_child_by_child() {
    let entries = vec![
        dir("./a", "a"),
        file("./b", "b"),
        dir("./c", "c"),
        file("./d", "d"),
        file("./e", "e"),
    ];
    let mut all = Walk::new(request("x", false, false));
    all.next_directory();
    all.search(&entries);
    assert_eq!(counts(all.results()), (0, 0, 5, 1 + 2));
    let mut files = Walk::new(request("x", false, true));
    files.next_directory();
    files.search(&entries);
    assert_eq!(counts(files.results()), (0, 0, 5 - 2, 1 + 2));
}
