use claw_runtime::glob_search::{glob_search_output, search_pattern, sort_glob_matches, GlobMatch};
use claw_runtime::search::{apply_limit, grep_search_checked, grep_search_files, GrepSearchInput, SearchFile};

fn input(pattern: &str, mode: Option<&str>) -> GrepSearchInput {
    GrepSearchInput {
        pattern: pattern.to_string(),
        path: None,
        glob: None,
        output_mode: mode.map(|m| m.to_string()),
        before: None,
        after: None,
        context_short: None,
        context: None,
        line_numbers: None,
        case_insensitive: None,
        file_type: None,
        head_limit: None,
        offset: None,
        multiline: None,
    }
}

fn file(path: &str, contents: Option<&str>) -> SearchFile {
    SearchFile { path: path.to_string(), contents: contents.map(|c| c.to_string()) }
}

#[test]
fn globs_and_greps_directory() {
    let globbed = glob_search_output(
        vec![GlobMatch { path: "/d/demo.rs".to_string(), modified: Some(1) }],
        0,
    );
    assert_eq!(globbed.num_files, 1);

    let files = vec![file("/d/demo.rs", Some("fn main() {\n println!(\"hello\");\n}\n"))];
    let mut q = input("hello", Some("content"));
    q.glob = Some("**/*.rs".to_string());
    q.line_numbers = Some(true);
    q.case_insensitive = Some(false);
    q.head_limit = Some(10);
    q.offset = Some(0);
    q.multiline = Some(false);
    let grep_output = grep_search_files(&q, &files).expect("grep should succeed");
    assert!(grep_output.content.clone().unwrap_or_default().contains("hello"));
    assert_eq!(grep_output.content.unwrap(), "/d/demo.rs:2: println!(\"hello\");");
}

#[test]
fn grep_lists_files_with_matches_by_default() {
    let files = vec![
        file("/a.txt", Some("alpha\nbeta")),
        file("/b.txt", Some("gamma")),
        file("/c.txt", None),
        file("/d.txt", Some("Beta")),
    ];
    let out = grep_search_files(&input("beta", None), &files).unwrap();
    assert_eq!(out.mode.as_deref(), Some("files_with_matches"));
    assert_eq!(out.filenames, vec!["/a.txt".to_string()]);
    assert_eq!(out.num_files, 1);
    assert_eq!(out.content, None);
    let mut ci = input("beta", None);
    ci.case_insensitive = Some(true);
    let out = grep_search_files(&ci, &files).unwrap();
    assert_eq!(out.filenames, vec!["/a.txt".to_string(), "/d.txt".to_string()]);
}

#[test]
fn grep_count_mode_counts_every_match() {
    let files = vec![file("/a", Some("ab ab\nab")), file("/b", Some("none"))];
    let out = grep_search_files(&input("ab", Some("count")), &files).unwrap();
    assert_eq!(out.num_matches, Some(3));
    assert_eq!(out.filenames, vec!["/a".to_string()]);
}

#[test]
fn grep_content_windows_and_limits() {
    let files = vec![file("/f", Some("1\n2\nx\n4\n5"))];
    let mut q = input("x", Some("content"));
    q.context = Some(1);
    q.line_numbers = Some(false);
    let out = grep_search_files(&q, &files).unwrap();
    assert_eq!(out.content.as_deref(), Some("/f:2\n/f:x\n/f:4"));
    assert_eq!(out.num_lines, Some(3));
    q.head_limit = Some(1);
    q.offset = Some(1);
    let out = grep_search_files(&q, &files).unwrap();
    assert_eq!(out.content.as_deref(), Some("/f:x"));
    assert_eq!(out.applied_limit, Some(1));
    assert_eq!(out.applied_offset, Some(1));
}

#[test]
fn grep_rejects_bad_patterns() {
    let e = grep_search_files(&input("(", None), &Vec::new()).unwrap_err();
    assert_eq!(e.kind(), claw_runtime::file_ops::ErrorKind::InvalidInput);
    let mut q = input("a", None);
    q.glob = Some("[".to_string());
    assert!(grep_search_files(&q, &Vec::new()).is_err());
}

#[test]
fn grep_checked_refuses_overflowing_windows() {
    let files = vec![file("/f", Some("x\ny"))];
    let mut q = input("x", Some("content"));
    q.after = Some(usize::MAX);
    assert!(grep_search_checked(&q, &files).is_none());
    q.after = Some(usize::MAX - 1);
    let out = grep_search_checked(&q, &files).unwrap().unwrap();
    assert_eq!(out.content.as_deref(), Some("/f:1:x\n/f:2:y"));
    q.pattern = "y".to_string();
    assert!(grep_search_checked(&q, &files).is_none());
    q.pattern = "nothing".to_string();
    q.after = Some(usize::MAX);
    assert!(grep_search_checked(&q, &files).is_some());
    q.pattern = "x".to_string();
    q.after = Some(1);
    let out = grep_search_checked(&q, &files).unwrap().unwrap();
    assert_eq!(out.content.as_deref(), Some("/f:1:x\n/f:2:y"));
}

#[test]
fn apply_limit_skips_and_caps() {
    let (items, limit, offset) = apply_limit((0..300).collect::<Vec<u32>>(), None, None);
    assert_eq!(items.len(), 250);
    assert_eq!(limit, Some(250));
    assert_eq!(offset, None);
    let (items, limit, offset) = apply_limit(vec![1, 2, 3], Some(0), Some(1));
    assert_eq!(items, vec![2, 3]);
    assert_eq!(limit, None);
    assert_eq!(offset, Some(1));
    let (items, _, _) = apply_limit(vec![1, 2, 3], Some(5), Some(7));
    assert!(items.is_empty());
}

#[test]
fn glob_matches_are_ordered_newest_first_and_capped() {
    let m = |p: &str, t: Option<i128>| GlobMatch { path: p.to_string(), modified: t };
    let sorted = sort_glob_matches(vec![
        m("old", Some(1)),
        m("new", Some(9)),
        m("none", None),
        m("mid", Some(5)),
        m("new2", Some(9)),
    ]);
    let names: Vec<&str> = sorted.iter().map(|g| g.path.as_str()).collect();
    assert_eq!(names, vec!["none", "new", "new2", "mid", "old"]);

    let many: Vec<GlobMatch> = (0..150).map(|i| m(&format!("f{i}"), Some(i))).collect();
    let out = glob_search_output(many, 7);
    assert!(out.truncated);
    assert_eq!(out.num_files, 100);
    assert_eq!(out.filenames[0], "f149");
    assert_eq!(out.duration_ms, 7);
    let few = glob_search_output(vec![m("a", None)], 0);
    assert!(!few.truncated);
    assert_eq!(few.filenames, vec!["a".to_string()]);
}

#[test]
fn glob_pattern_is_joined_unless_absolute() {
    assert_eq!(search_pattern("/abs/*.rs", "/base"), "/abs/*.rs");
    assert_eq!(search_pattern("**/*.rs", "/base"), "/base/**/*.rs");
}
