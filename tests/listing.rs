use swap_worktree::listing::{
    find_worktree_for_branch, parse_worktree_branches, parse_worktree_records,
};
use swap_worktree::order::text_less;
use swap_worktree::paths::{determine_repo_root, normalize_path, parent_dir};
use swap_worktree::text::split_into_lines;

#[test]
fn parses_branches_from_porcelain() {
    let fixture = r#"worktree /repos/main
HEAD e1e1b70d2e8c133c96ab8050cc582f88aa83ef77
branch refs/heads/main

worktree /repos/feature-a
HEAD 1c1cdd9c68b3bd55a72efa87c67fd03c4b5aa20c
branch refs/heads/feature/a

worktree /repos/detached
HEAD 9a9a71114237d6a1f2ba4d0332eec2a3edf1b738

"#;
    let branches = parse_worktree_branches(fixture);
    assert_eq!(branches, vec!["feature/a".to_string(), "main".to_string()]);
}

#[test]
fn dedupes_and_sorts_branch_names() {
    let fixture = r#"branch refs/heads/main
branch refs/heads/main
branch feature/b
branch   
"#;
    let branches = parse_worktree_branches(fixture);
    assert_eq!(branches, vec!["feature/b".to_string(), "main".to_string()]);
}

#[test]
fn empty_normalized_branch_is_not_listed() {
    assert!(parse_worktree_branches("branch refs/heads/\n").is_empty());
    assert_eq!(
        parse_worktree_branches("branch refs/heads/\nbranch refs/heads/x\n"),
        vec!["x".to_string()]
    );
}

#[test]
fn branch_list_of_empty_listing_is_empty() {
    assert!(parse_worktree_branches("").is_empty());
}

#[test]
fn branch_list_keeps_prefix_only_once_stripped() {
    let branches = parse_worktree_branches("branch refs/heads/refs/heads/x\nbranch zeta\nbranch alpha\n");
    assert_eq!(
        branches,
        vec!["alpha".to_string(), "refs/heads/x".to_string(), "zeta".to_string()]
    );
}

#[test]
fn records_without_trailing_blank_line() {
    let listing = "worktree /r/main\nHEAD 1\nbranch refs/heads/main\n\nworktree /r/b\nHEAD 2\nbranch refs/heads/b";
    let records = parse_worktree_records(listing);
    assert_eq!(records.len(), 2);
    assert_eq!(records[0].path, "/r/main");
    assert_eq!(records[0].branch.as_deref(), Some("main"));
    assert_eq!(records[1].path, "/r/b");
    assert_eq!(records[1].branch.as_deref(), Some("b"));
}

#[test]
fn trailing_blank_line_does_not_change_records() {
    let bare = "worktree /r/main\nbranch refs/heads/main\n\nworktree /r/x\nHEAD 3";
    let ended = format!("{bare}\n\n");
    let a = parse_worktree_records(bare);
    let b = parse_worktree_records(&ended);
    assert_eq!(a.len(), b.len());
    for (x, y) in a.iter().zip(b.iter()) {
        assert_eq!(x.path, y.path);
        assert_eq!(x.branch, y.branch);
    }
    assert_eq!(a[1].branch, None);
}

#[test]
fn records_with_same_branch_are_all_kept() {
    let listing = "worktree /r/one\nbranch refs/heads/dup\n\nworktree /r/two\nbranch refs/heads/dup\n";
    let records = parse_worktree_records(listing);
    assert_eq!(records.len(), 2);
    assert_eq!(records[0].path, "/r/one");
    assert_eq!(records[1].path, "/r/two");
}

#[test]
fn finds_first_worktree_of_branch() {
    let listing = "worktree /r/main\nbranch refs/heads/main\n\nworktree /r/one\nbranch refs/heads/dup\n\nworktree /r/two\nbranch refs/heads/dup";
    assert_eq!(
        find_worktree_for_branch("/base", listing, "dup"),
        Some("/r/one".to_string())
    );
    assert_eq!(
        find_worktree_for_branch("/base", listing, "main"),
        Some("/r/main".to_string())
    );
    assert_eq!(find_worktree_for_branch("/base", listing, "other"), None);
}

#[test]
fn finds_branch_in_last_record_without_blank_line() {
    let listing = "worktree /r/main\nbranch refs/heads/main\n\nworktree /r/feat\nHEAD 9\nbranch refs/heads/feat";
    assert_eq!(
        find_worktree_for_branch("/base", listing, "feat"),
        Some("/r/feat".to_string())
    );
}

#[test]
fn branch_found_with_or_without_namespace() {
    for listing in [
        "worktree /w/x\nHEAD 1c1c\nbranch refs/heads/feature/a",
        "worktree /w/x\nHEAD 1c1c\nbranch feature/a",
    ] {
        assert_eq!(
            find_worktree_for_branch("/base", listing, "feature/a"),
            Some("/w/x".to_string())
        );
    }
}

#[test]
fn detached_worktree_matches_no_branch() {
    let listing = "worktree /r/det\nHEAD 9a9a\ndetached\n\n";
    assert_eq!(find_worktree_for_branch("/base", listing, "det"), None);
    assert_eq!(find_worktree_for_branch("/base", listing, ""), None);
}

#[test]
fn relative_worktree_path_is_taken_from_base() {
    let listing = "worktree ../other\nbranch refs/heads/b\n";
    assert_eq!(
        find_worktree_for_branch("/r/main", listing, "b"),
        Some("/r/main/../other".to_string())
    );
}

#[test]
fn worktree_paths_are_trimmed() {
    let listing = "worktree   /r/spaced  \r\nbranch  refs/heads/s \r\n";
    assert_eq!(
        find_worktree_for_branch("/base", listing, "s"),
        Some("/r/spaced".to_string())
    );
}

#[test]
fn splits_lines_at_newlines() {
    assert_eq!(split_into_lines(""), vec!["".to_string()]);
    assert_eq!(
        split_into_lines("a\nb\n"),
        vec!["a".to_string(), "b".to_string(), "".to_string()]
    );
}

#[test]
fn orders_text_by_code_point() {
    assert!(text_less("a", "b"));
    assert!(text_less("ab", "abc"));
    assert!(!text_less("abc", "ab"));
    assert!(!text_less("same", "same"));
    assert!(text_less("Z", "a"));
}

#[test]
fn normalizes_paths() {
    assert_eq!(normalize_path("/base", "/abs"), "/abs");
    assert_eq!(normalize_path("/base", "rel"), "/base/rel");
    assert_eq!(normalize_path("/base/", "rel"), "/base/rel");
    assert_eq!(normalize_path("", "rel"), "rel");
}

#[test]
fn parent_directories() {
    assert_eq!(parent_dir("/a/b/.git"), Some("/a/b".to_string()));
    assert_eq!(parent_dir("/a"), Some("/".to_string()));
    assert_eq!(parent_dir("/"), None);
    assert_eq!(parent_dir("plain"), Some(String::new()));
    assert_eq!(parent_dir(""), None);
    assert_eq!(parent_dir("/repo/.git/"), Some("/repo".to_string()));
    assert_eq!(parent_dir("/a//b"), Some("/a".to_string()));
    assert_eq!(parent_dir("/a/b/."), Some("/a".to_string()));
    assert_eq!(parent_dir("/a//b//"), Some("/a".to_string()));
    assert_eq!(parent_dir("./a"), Some(".".to_string()));
    assert_eq!(parent_dir("//a"), Some("/".to_string()));
}

#[test]
fn repo_root_from_common_dir() {
    assert_eq!(determine_repo_root("/w/a", "/repo/.git\n"), "/repo");
    assert_eq!(determine_repo_root("/w/a", ".git\n"), "/w/a");
    assert_eq!(determine_repo_root("/w/a", "../main/.git"), "/w/a/../main");
    assert_eq!(determine_repo_root("/w/a", "/repo/.git/\n"), "/repo");
}
