use file_watcher::paths::{components, same_path};
use file_watcher::paths::{extension, file_name, file_stem, is_absolute, path_join, with_extension};
use file_watcher::time_span::TimeSpan;

#[test]
fn join_puts_one_separator_between_parts() {
    assert_eq!(path_join("/data", "history.json"), "/data/history.json");
    assert_eq!(path_join("/data/", "history.json"), "/data/history.json");
    assert_eq!(path_join("", "history.json"), "history.json");
}

#[test]
fn join_with_absolute_path_replaces_base() {
    assert_eq!(path_join("/src", "/other/file.txt"), "/other/file.txt");
}

#[test]
fn join_with_empty_name_adds_separator() {
    assert_eq!(path_join("src", ""), "src/");
}

#[test]
fn absolute_paths_start_with_separator() {
    assert!(is_absolute("/home/user"));
    assert!(!is_absolute("home/user"));
    assert!(!is_absolute(""));
}

#[test]
fn file_name_is_last_normal_component() {
    assert_eq!(file_name("a/b.txt"), Some("b.txt".to_string()));
    assert_eq!(file_name("b.txt"), Some("b.txt".to_string()));
    assert_eq!(file_name("a/b/"), Some("b".to_string()));
    assert_eq!(file_name("a/b/."), Some("b".to_string()));
    assert_eq!(file_name("a/./"), Some("a".to_string()));
}

#[test]
fn root_parent_and_empty_have_no_file_name() {
    assert_eq!(file_name("/"), None);
    assert_eq!(file_name(""), None);
    assert_eq!(file_name(".."), None);
    assert_eq!(file_name("a/.."), None);
    assert_eq!(file_name("."), None);
}

#[test]
fn extension_follows_last_dot() {
    assert_eq!(extension("movie.mkv.part"), Some("part".to_string()));
    assert_eq!(extension("dir/movie.mkv"), Some("mkv".to_string()));
    assert_eq!(extension("archive."), Some("".to_string()));
    assert_eq!(extension("README"), None);
    assert_eq!(extension(".bashrc"), None);
    assert_eq!(extension(".config.yml"), Some("yml".to_string()));
}

#[test]
fn stem_is_name_before_last_dot() {
    assert_eq!(file_stem("movie.mkv.part"), Some("movie.mkv".to_string()));
    assert_eq!(file_stem("README"), Some("README".to_string()));
    assert_eq!(file_stem(".bashrc"), Some(".bashrc".to_string()));
    assert_eq!(file_stem("/"), None);
}

#[test]
fn with_extension_replaces_or_adds() {
    assert_eq!(with_extension("/cfg/config.json", "json.bak"), "/cfg/config.json.bak");
    assert_eq!(with_extension("/cfg/config.yml", "yaml.bak"), "/cfg/config.yaml.bak");
    assert_eq!(with_extension("/data/history.json", "bak"), "/data/history.bak");
    assert_eq!(with_extension("/data/history", "bak"), "/data/history.bak");
    assert_eq!(with_extension("a/b.txt/", "bak"), "a/b.bak");
    assert_eq!(with_extension("a/b.txt", ""), "a/b");
    assert_eq!(with_extension("/", "bak"), "/");
}

#[test]
fn spans_from_seconds_and_millis() {
    let s = TimeSpan::from_secs(3);
    assert_eq!(s.as_secs(), 3);
    assert_eq!(s.subsec_nanos(), 0);
    let m = TimeSpan::from_millis(1500);
    assert_eq!(m.as_secs(), 1);
    assert_eq!(m.subsec_nanos(), 500_000_000);
    let n = TimeSpan::new(1, 2_500_000_000);
    assert_eq!(n.as_secs(), 3);
    assert_eq!(n.subsec_nanos(), 500_000_000);
}

#[test]
fn saturating_sub_stops_at_zero() {
    let five = TimeSpan::from_secs(5);
    let two = TimeSpan::from_millis(2000);
    let three = five.saturating_sub(&two);
    assert_eq!(three.as_secs(), 3);
    assert!(!three.is_zero());
    let none = two.saturating_sub(&five);
    assert!(none.is_zero());
    assert!(TimeSpan::zero().is_zero());
    assert!(TimeSpan::from_millis(1000).same_as(&TimeSpan::from_secs(1)));
}

#[test]
fn largest_span_round_trips() {
    let big = TimeSpan::new(u64::MAX, 999_999_999);
    assert_eq!(big.as_secs(), u64::MAX);
    assert_eq!(big.subsec_nanos(), 999_999_999);
}

#[test]
fn joined_path_keeps_file_name() {
    for base in ["/videos", "/videos/", "", "relative/dir"] {
        assert_eq!(file_name(&path_join(base, "movie.mkv")), Some("movie.mkv".to_string()));
    }
}

#[test]
fn span_rebuilt_from_its_parts() {
    let s = TimeSpan::from_millis(123_456);
    let back = TimeSpan::new(s.as_secs(), s.subsec_nanos());
    assert!(back.same_as(&s));
}

#[test]
fn components_skip_empty_and_current_pieces() {
    assert_eq!(components("/a//b/"), vec!["/", "a", "b"]);
    assert_eq!(components("./a/./b"), vec![".", "a", "b"]);
    assert_eq!(components("a/../b"), vec!["a", "..", "b"]);
    assert_eq!(components(""), Vec::<String>::new());
    assert_eq!(components("/"), vec!["/"]);
    assert_eq!(components("."), vec!["."]);
    assert!(same_path("/h/x", "/h/x/"));
    assert!(same_path("/h//x", "/h/./x"));
    assert!(!same_path("/h/x", "h/x"));
    assert!(!same_path("./x", "x"));
    assert!(!same_path("/h/x", "/h/y"));
}
