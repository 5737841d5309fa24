use swap_worktree::completion::{branch_candidates, completion_destination};
use swap_worktree::git::{
    combined_output, current_branch, ensure_git_worktree, list_worktree_branches, GitOutput,
};
use swap_worktree::stash::{find_stash_reference, stash_message_for, stash_worktree};
use swap_worktree::text::trim;

fn output(stdout: &str, stderr: &str, success: bool) -> GitOutput {
    GitOutput {
        stdout: stdout.to_string(),
        stderr: stderr.to_string(),
        success,
    }
}

#[test]
fn combines_trimmed_streams() {
    assert_eq!(combined_output(&output(" a \n", "", true)), "a");
    assert_eq!(combined_output(&output("", " b\n", true)), "b");
    assert_eq!(combined_output(&output("a\n", "b\n", true)), "a\nb");
    assert_eq!(combined_output(&output(" ", "\n", true)), "");
}

#[test]
fn trim_removes_surrounding_whitespace() {
    assert_eq!(trim("  x y \t\r\n"), "x y");
    assert_eq!(trim(""), "");
    assert_eq!(trim("\u{3000}x\u{a0}\u{2028}"), "x");
    assert_eq!(trim("\u{200b}x"), "\u{200b}x");
    assert_eq!(trim(" \t "), "");
}

#[test]
fn recognizes_worktree_answer() {
    assert!(ensure_git_worktree("true\n"));
    assert!(!ensure_git_worktree("false\n"));
    assert!(!ensure_git_worktree(""));
}

#[test]
fn reads_current_branch() {
    assert_eq!(current_branch("main\n"), Some("main".to_string()));
    assert_eq!(current_branch(" \n"), None);
}

#[test]
fn lists_branches_of_successful_run() {
    let ok = output("worktree /a\nbranch refs/heads/b\n\nworktree /c\nbranch refs/heads/a\n", "", true);
    assert_eq!(
        list_worktree_branches(&ok),
        Some(vec!["a".to_string(), "b".to_string()])
    );
    assert_eq!(list_worktree_branches(&output("", "fatal", false)), None);
}

#[test]
fn judges_saves() {
    assert_eq!(stash_worktree(&output("No local changes to save\n", "", true)), Ok(false));
    assert_eq!(stash_worktree(&output("", "No local changes to save", false)), Ok(false));
    assert_eq!(stash_worktree(&output("Saved working directory\n", "", true)), Ok(true));
    assert_eq!(
        stash_worktree(&output("", "error: could not save\n", false)),
        Err("error: could not save".to_string())
    );
}

#[test]
fn stash_message_names_branch() {
    assert_eq!(stash_message_for("feature/x"), "swap-stash-feature/x");
}

#[test]
fn finds_stash_reference_by_hash() {
    let listing = "aaa:stash@{0}\nbbb:stash@{1}\nccc:stash@{2} \n";
    assert_eq!(find_stash_reference(listing, "bbb"), Some("stash@{1}".to_string()));
    assert_eq!(find_stash_reference(listing, "ccc"), Some("stash@{2}".to_string()));
    assert_eq!(find_stash_reference(listing, "bb"), None);
    assert_eq!(find_stash_reference(listing, "ddd"), None);
    assert_eq!(find_stash_reference("", "aaa"), None);
}

#[test]
fn finds_destination_among_completion_words() {
    let w = |ws: &[&str]| ws.iter().map(|s| s.to_string()).collect::<Vec<String>>();
    assert_eq!(completion_destination(&w(&["prog", "/w/a", "B"])), Some("/w/a".to_string()));
    assert_eq!(completion_destination(&w(&["prog", "-d", "--debug", "/w/a"])), Some("/w/a".to_string()));
    assert_eq!(completion_destination(&w(&["prog", "--", "-d"])), Some("-d".to_string()));
    assert_eq!(completion_destination(&w(&["prog", "--"])), None);
    assert_eq!(completion_destination(&w(&["prog"])), None);
}

#[test]
fn candidates_keep_names_with_prefix() {
    let names = vec!["feature/a".to_string(), "feature/b".to_string(), "main".to_string()];
    assert_eq!(
        branch_candidates(&names, "feat"),
        vec!["feature/a".to_string(), "feature/b".to_string()]
    );
    assert_eq!(branch_candidates(&names, ""), names);
    assert!(branch_candidates(&names, "x").is_empty());
}
