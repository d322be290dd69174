use ginpee::collector::{collect_files, CollectError, WalkItem};
use ginpee::pattern::{IncludeSet, PatternSyntaxError};

fn dir(path: &str) -> WalkItem {
    WalkItem::Entry { path: path.to_string(), is_file: false }
}

fn file(path: &str) -> WalkItem {
    WalkItem::Entry { path: path.to_string(), is_file: true }
}

fn failed(depth: Option<usize>, detail: &str) -> WalkItem {
    WalkItem::Failed { depth, detail: detail.to_string() }
}

fn patterns(list: &[&str]) -> Vec<String> {
    list.iter().map(|s| s.to_string()).collect()
}

fn paths(list: &[&str]) -> Vec<String> {
    list.iter().map(|s| s.to_string()).collect()
}

#[test]
fn test_collect_files_with_patterns() {
    let items = vec![dir(""), file("main.rs"), file("README.md")];

    let files = collect_files(&items, &patterns(&["*.rs"])).unwrap();
    assert_eq!(files.len(), 1);
    assert!(files[0].ends_with("main.rs"));
}

#[test]
fn test_collect_files_without_extension() {
    let items = vec![dir(""), file("config"), dir("subdir"), file("subdir/config")];

    let files = collect_files(&items, &patterns(&["**/config"])).unwrap();
    assert_eq!(files.len(), 2);
}

#[test]
fn test_collect_exact_filename() {
    let items = vec![dir(""), file("Cargo.toml"), dir("nested"), file("nested/other.toml")];

    let files = collect_files(&items, &patterns(&["Cargo.toml"])).unwrap();
    assert_eq!(files.len(), 1);
    assert!(files[0].ends_with("Cargo.toml"));
}

#[test]
fn two_calls_give_the_same_list() {
    let items = vec![
        dir(""),
        file("b.rs"),
        dir("src"),
        file("src/a.rs"),
        file("src/notes.txt"),
        failed(Some(2), "denied"),
    ];
    let wanted = patterns(&["**/*.rs", "notes.txt"]);
    let first = collect_files(&items, &wanted);
    let second = collect_files(&items, &wanted);
    assert_eq!(first, second);
    assert_eq!(first.unwrap(), paths(&["b.rs", "src/a.rs", "src/notes.txt"]));
}

#[test]
fn no_pattern_selects_every_regular_file() {
    let items = vec![
        dir(""),
        file(".hidden"),
        file("Makefile"),
        dir("src"),
        file("src/main.rs"),
        dir("src/deep"),
        file("src/deep/x"),
    ];
    let files = collect_files(&items, &patterns(&[])).unwrap();
    assert_eq!(files, paths(&[".hidden", "Makefile", "src/main.rs", "src/deep/x"]));
}

#[test]
fn literal_pattern_matches_base_name_at_any_depth() {
    let items = vec![dir(""), dir("sub"), dir("sub/dir"), file("sub/dir/config"), file("sub/config.bak")];
    let files = collect_files(&items, &patterns(&["config"])).unwrap();
    assert_eq!(files, paths(&["sub/dir/config"]));
}

#[test]
fn literal_pattern_needs_the_whole_base_name() {
    let items = vec![file("xconfig"), file("config"), file("a/configx"), file("a/config/b")];
    let files = collect_files(&items, &patterns(&["config"])).unwrap();
    assert_eq!(files, paths(&["config"]));
}

#[test]
fn literal_pattern_with_a_directory_matches_the_relative_path() {
    let items = vec![file("src/main.rs"), file("other/src/main.rs"), file("main.rs")];
    let files = collect_files(&items, &patterns(&["src/main.rs"])).unwrap();
    assert_eq!(files, paths(&["src/main.rs"]));
}

#[test]
fn star_stays_within_one_segment() {
    let items = vec![file("top.rs"), file("a/mid.rs"), file("a/b/deep.rs")];
    let files = collect_files(&items, &patterns(&["*.rs"])).unwrap();
    assert_eq!(files, paths(&["top.rs"]));
}

#[test]
fn double_star_matches_at_any_depth() {
    let items = vec![file("top.rs"), file("a/mid.rs"), file("a/b/deep.rs"), file("a/b/deep.txt")];
    let files = collect_files(&items, &patterns(&["**/*.rs"])).unwrap();
    assert_eq!(files, paths(&["top.rs", "a/mid.rs", "a/b/deep.rs"]));
}

#[test]
fn question_mark_and_class_are_wildcards() {
    let items = vec![file("a1.c"), file("a2.c"), file("ab.c"), file("d/a1.c")];
    assert_eq!(
        collect_files(&items, &patterns(&["a?.c"])).unwrap(),
        paths(&["a1.c", "a2.c", "ab.c"])
    );
    assert_eq!(
        collect_files(&items, &patterns(&["a[0-9].c"])).unwrap(),
        paths(&["a1.c", "a2.c"])
    );
}

#[test]
fn matching_is_case_sensitive() {
    let items = vec![file("Makefile"), file("makefile"), file("A.RS"), file("a.rs")];
    assert_eq!(
        collect_files(&items, &patterns(&["makefile", "*.RS"])).unwrap(),
        paths(&["makefile", "A.RS"])
    );
}

#[test]
fn wildcards_match_a_leading_dot() {
    let items = vec![file(".env"), file("a/.env"), file("env")];
    assert_eq!(collect_files(&items, &patterns(&["*env"])).unwrap(), paths(&[".env", "env"]));
}

#[test]
fn directories_are_never_returned() {
    let items = vec![dir(""), dir("config"), file("config/config"), dir("x.rs"), file("x.rs/y.rs")];
    assert_eq!(
        collect_files(&items, &patterns(&["config", "**/*.rs"])).unwrap(),
        paths(&["config/config", "x.rs/y.rs"])
    );
    assert_eq!(
        collect_files(&items, &patterns(&[])).unwrap(),
        paths(&["config/config", "x.rs/y.rs"])
    );
}

#[test]
fn a_file_matched_by_two_patterns_is_listed_once() {
    let items = vec![file("main.c"), file("Makefile")];
    let files = collect_files(&items, &patterns(&["*.c", "main.c", "**/*", "Makefile"])).unwrap();
    assert_eq!(files, paths(&["main.c", "Makefile"]));
}

#[test]
fn c_sources_and_makefile_are_both_selected() {
    let items = vec![dir(""), file("main.c"), file("Makefile")];
    let files = collect_files(&items, &patterns(&["*.c", "Makefile"])).unwrap();
    assert_eq!(files, paths(&["main.c", "Makefile"]));
}

#[test]
fn selection_follows_the_order_of_the_walk() {
    let items = vec![dir(""), file("Makefile"), file("main.c")];
    let files = collect_files(&items, &patterns(&["*.c", "Makefile"])).unwrap();
    assert_eq!(files, paths(&["Makefile", "main.c"]));
}

#[test]
fn recursive_pattern_finds_config_at_every_depth() {
    let items = vec![
        dir(""),
        dir("dir1"),
        file("dir1/config"),
        dir("dir2"),
        dir("dir2/subdir"),
        file("dir2/subdir/config"),
        file("config"),
    ];
    let files = collect_files(&items, &patterns(&["**/config"])).unwrap();
    assert_eq!(files, paths(&["dir1/config", "dir2/subdir/config", "config"]));
}

#[test]
fn exact_name_selects_only_files_of_that_name() {
    let items = vec![dir(""), file("Cargo.toml"), dir("nested"), file("nested/other.toml")];
    let files = collect_files(&items, &patterns(&["Cargo.toml"])).unwrap();
    assert_eq!(files, paths(&["Cargo.toml"]));
}

#[test]
fn bad_pattern_fails_with_the_offending_pattern() {
    let items = vec![file("a")];
    let err = collect_files(&items, &patterns(&["*.rs", "a**", "[x"])).unwrap_err();
    assert_eq!(
        err,
        CollectError::PatternSyntax(PatternSyntaxError {
            pattern: "a**".to_string(),
            position: 0,
            message: "recursive wildcards must form a single path component".to_string(),
        })
    );
}

#[test]
fn each_kind_of_syntax_error_is_reported() {
    let items: Vec<WalkItem> = Vec::new();
    assert_eq!(
        collect_files(&items, &patterns(&["***"])).unwrap_err(),
        CollectError::PatternSyntax(PatternSyntaxError {
            pattern: "***".to_string(),
            position: 2,
            message: "wildcards are either regular `*` or recursive `**`".to_string(),
        })
    );
    assert_eq!(
        collect_files(&items, &patterns(&["src/[x"])).unwrap_err(),
        CollectError::PatternSyntax(PatternSyntaxError {
            pattern: "src/[x".to_string(),
            position: 4,
            message: "invalid range pattern".to_string(),
        })
    );
    assert_eq!(
        collect_files(&items, &patterns(&["a/**b"])).unwrap_err(),
        CollectError::PatternSyntax(PatternSyntaxError {
            pattern: "a/**b".to_string(),
            position: 4,
            message: "recursive wildcards must form a single path component".to_string(),
        })
    );
}

#[test]
fn bad_pattern_comes_before_an_unreadable_root() {
    let items = vec![failed(Some(0), "no such directory")];
    let err = collect_files(&items, &patterns(&["[", "ok"])).unwrap_err();
    match err {
        CollectError::PatternSyntax(e) => assert_eq!(e.pattern, "["),
        other => panic!("unexpected error {:?}", other),
    }
}

#[test]
fn unreadable_root_fails() {
    let items = vec![failed(Some(0), "no such directory")];
    assert_eq!(
        collect_files(&items, &patterns(&["*.rs"])).unwrap_err(),
        CollectError::RootAccess { detail: "no such directory".to_string() }
    );
    assert_eq!(
        collect_files(&items, &patterns(&[])).unwrap_err(),
        CollectError::RootAccess { detail: "no such directory".to_string() }
    );
}

#[test]
fn first_root_failure_is_the_one_reported() {
    let items = vec![
        dir(""),
        file("a.rs"),
        failed(Some(1), "deeper"),
        failed(Some(0), "first"),
        failed(Some(0), "second"),
    ];
    assert_eq!(
        collect_files(&items, &patterns(&[])).unwrap_err(),
        CollectError::RootAccess { detail: "first".to_string() }
    );
}

#[test]
fn unreadable_entry_below_the_root_is_skipped() {
    let items = vec![
        dir(""),
        file("a.rs"),
        failed(Some(1), "permission denied"),
        failed(None, "bad line in a skip file"),
        file("b.rs"),
    ];
    assert_eq!(collect_files(&items, &patterns(&["*.rs"])).unwrap(), paths(&["a.rs", "b.rs"]));
}

#[test]
fn empty_walk_gives_an_empty_list() {
    let items: Vec<WalkItem> = Vec::new();
    assert_eq!(collect_files(&items, &patterns(&["*"])).unwrap(), paths(&[]));
    assert_eq!(collect_files(&items, &patterns(&[])).unwrap(), paths(&[]));
}

#[test]
fn include_set_compiles_once_and_selects() {
    let set = IncludeSet::new(&patterns(&["*.md", "LICENSE"])).unwrap();
    assert!(set.accepts("README.md"));
    assert!(set.accepts("docs/LICENSE"));
    assert!(!set.accepts("docs/README.md"));
    assert!(!set.accepts("LICENSE.txt"));
    let items = vec![file("README.md"), file("docs/LICENSE"), file("docs/README.md")];
    assert_eq!(set.select(&items).unwrap(), paths(&["README.md", "docs/LICENSE"]));
}

#[test]
fn include_set_without_patterns_accepts_everything() {
    let set = IncludeSet::new(&patterns(&[])).unwrap();
    assert!(set.accepts(""));
    assert!(set.accepts("any/thing"));
}

#[test]
fn include_set_reports_the_first_bad_pattern() {
    let err = IncludeSet::new(&patterns(&["ok", "b**", "***"])).err().unwrap();
    assert_eq!(err.pattern, "b**");
    assert_eq!(err.position, 0);
}
