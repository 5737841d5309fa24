use swap_worktree::git::{GitCommand, GitOutput};
use swap_worktree::swap::{
    canonicalize_dir, manual_switch_command, Action, Event, Logger, PathProbe, StashWarning,
    SwapError, SwapSession,
};

fn out(stdout: &str, success: bool) -> Event {
    Event::Output(GitOutput {
        stdout: stdout.to_string(),
        stderr: String::new(),
        success,
    })
}

fn err_out(stderr: &str) -> Event {
    Event::Output(GitOutput {
        stdout: String::new(),
        stderr: stderr.to_string(),
        success: false,
    })
}

fn dir(canonical: &str) -> Event {
    Event::Probe(PathProbe {
        exists: true,
        is_dir: true,
        canonical: Some(canonical.to_string()),
    })
}

fn is_run(a: &Action, want_dir: &str, want: &[&str]) -> bool {
    match a {
        Action::Run { dir, command } => dir == want_dir && command.args() == want.to_vec(),
        _ => false,
    }
}

fn is_mutating(a: &Action) -> bool {
    match a {
        Action::Run { command, .. } => matches!(
            command,
            GitCommand::StashPush { .. }
                | GitCommand::Detach
                | GitCommand::Switch { .. }
                | GitCommand::StashApply { .. }
                | GitCommand::StashDrop { .. }
        ),
        _ => false,
    }
}

const LISTING: &str = "worktree /w/a\nHEAD 111\nbranch refs/heads/A\n\nworktree /w/b\nHEAD 222\nbranch refs/heads/B\n";

/// Runs the discovery steps for dest `/w/a` on `A` and source branch `B`
/// at `/w/b`, up to the first save.
fn discovered(actions: &mut Vec<Action>) -> SwapSession {
    let (mut s, a) = SwapSession::start("/w/a".to_string(), "B".to_string());
    assert!(matches!(&a, Action::Resolve { path } if path == "/w/a"));
    actions.push(a);
    let a = s.step(dir("/w/a"));
    assert!(is_run(&a, "/w/a", &["rev-parse", "--is-inside-work-tree"]));
    actions.push(a);
    let a = s.step(out("true\n", true));
    assert!(is_run(&a, "/w/a", &["rev-parse", "--git-common-dir"]));
    actions.push(a);
    let a = s.step(out("/repo/.git\n", true));
    assert!(is_run(&a, "/w/a", &["symbolic-ref", "--short", "HEAD"]));
    actions.push(a);
    let a = s.step(out("A\n", true));
    assert!(is_run(&a, "/w/a", &["worktree", "list", "--porcelain"]));
    actions.push(a);
    let a = s.step(out(LISTING, true));
    assert!(matches!(&a, Action::Resolve { path } if path == "/w/b"));
    actions.push(a);
    s
}

#[test]
fn swap_moves_branches_and_carries_source_changes() {
    let mut actions = Vec::new();
    let mut s = discovered(&mut actions);
    assert_eq!(s.repo_root, "/repo");
    assert_eq!(s.dest_branch, "A");
    let a = s.step(dir("/w/b"));
    assert!(is_run(&a, "/w/a", &["stash", "push", "-u", "-m", "swap-stash-A"]));
    let a = s.step(out("No local changes to save\n", true));
    assert!(is_run(&a, "/w/b", &["stash", "push", "-u", "-m", "swap-stash-B"]));
    assert!(s.dest_stash.is_none());
    let a = s.step(out("Saved working directory and index state On B: swap-stash-B\n", true));
    assert!(is_run(&a, "/w/b", &["rev-parse", "stash@{0}"]));
    let a = s.step(out("abc123\n", true));
    assert!(is_run(&a, "/w/b", &["stash", "list", "--format=%H:%gd"]));
    let a = s.step(out("abc123:stash@{0}\n", true));
    assert!(is_run(&a, "/w/a", &["switch", "--detach"]));
    let saved = s.src_stash.as_ref().unwrap();
    assert_eq!(saved.hash, "abc123");
    assert_eq!(saved.reference.as_deref(), Some("stash@{0}"));
    assert_eq!(saved.branch, "B");
    let a = s.step(out("", true));
    assert!(is_run(&a, "/w/b", &["switch", "--detach"]));
    let a = s.step(out("", true));
    assert!(is_run(&a, "/w/a", &["switch", "B"]));
    let a = s.step(out("", true));
    assert!(is_run(&a, "/w/b", &["switch", "A"]));
    let a = s.step(out("", true));
    assert!(is_run(&a, "/w/a", &["stash", "apply", "abc123"]));
    let a = s.step(out("", true));
    assert!(is_run(&a, "/w/a", &["stash", "drop", "stash@{0}"]));
    let a = s.step(out("Dropped stash@{0}\n", true));
    assert!(matches!(a, Action::Succeed));
    assert!(s.is_done());
    assert!(s.warnings.is_empty());
}

#[test]
fn same_directory_stops_before_any_change() {
    let mut actions = Vec::new();
    let mut s = discovered(&mut actions);
    let a = s.step(dir("/w/a"));
    assert!(matches!(&a, Action::Fail { error: SwapError::SameDirectory }));
    actions.push(a);
    assert!(s.is_done());
    assert!(actions.iter().all(|a| !is_mutating(a)));
}

#[test]
fn nothing_to_save_on_stderr_is_no_failure() {
    let mut actions = Vec::new();
    let mut s = discovered(&mut actions);
    s.step(dir("/w/b"));
    let a = s.step(err_out("No local changes to save"));
    assert!(is_run(&a, "/w/b", &["stash", "push", "-u", "-m", "swap-stash-B"]));
    let a = s.step(out("No local changes to save", false));
    assert!(is_run(&a, "/w/a", &["switch", "--detach"]));
    assert!(s.dest_stash.is_none());
    assert!(s.src_stash.is_none());
}

#[test]
fn failed_save_stops_before_detaching() {
    let mut actions = Vec::new();
    let mut s = discovered(&mut actions);
    s.step(dir("/w/b"));
    let a = s.step(Event::Output(GitOutput {
        stdout: " partial \n".to_string(),
        stderr: "fatal: locked\n".to_string(),
        success: false,
    }));
    match a {
        Action::Fail { error: SwapError::StashFailed { dir, output } } => {
            assert_eq!(dir, "/w/a");
            assert_eq!(output, "partial\nfatal: locked");
        }
        _ => panic!("expected a stash failure"),
    }
}

fn through_saves(s: &mut SwapSession) {
    s.step(dir("/w/b"));
    s.step(out("Saved\n", true));
    s.step(out("d1\n", true));
    s.step(out("d1:stash@{0}\n", true));
    s.step(out("Saved\n", true));
    s.step(out("s1\n", true));
    let a = s.step(out("s1:stash@{0}\nd1:stash@{1}\n", true));
    assert!(is_run(&a, "/w/a", &["switch", "--detach"]));
}

#[test]
fn source_switch_failure_is_critical() {
    let mut actions = Vec::new();
    let mut s = discovered(&mut actions);
    through_saves(&mut s);
    s.step(out("", true));
    s.step(out("", true));
    let a = s.step(out("", true));
    assert!(is_run(&a, "/w/b", &["switch", "A"]));
    let a = s.step(err_out("fatal: cannot switch"));
    if let Action::Fail { error } = &a {
        assert_eq!(
            error.recovery_commands(),
            vec![
                "git -C '/w/a' switch 'A'".to_string(),
                "git -C '/w/b' switch 'B'".to_string()
            ]
        );
    }
    match a {
        Action::Fail { error: SwapError::Critical { dest_dir, src_dir, src_branch, dest_branch, output } } => {
            assert_eq!(dest_dir, "/w/a");
            assert_eq!(src_dir, "/w/b");
            assert_eq!(src_branch, "B");
            assert_eq!(dest_branch, "A");
            assert_eq!(output.stderr, "fatal: cannot switch");
            assert_eq!(
                manual_switch_command(&dest_dir, &dest_branch),
                "git -C '/w/a' switch 'A'"
            );
        }
        _ => panic!("expected the critical state"),
    }
    assert!(s.is_done());
    assert!(s.src_stash.is_some());
    assert!(s.dest_stash.is_some());
}

#[test]
fn source_detach_failure_restores_destination() {
    let mut actions = Vec::new();
    let mut s = discovered(&mut actions);
    through_saves(&mut s);
    let a = s.step(out("", true));
    assert!(is_run(&a, "/w/b", &["switch", "--detach"]));
    let a = s.step(err_out("fatal: cannot detach"));
    assert!(is_run(&a, "/w/a", &["switch", "A"]));
    let a = s.step(out("", true));
    match a {
        Action::Fail { error: SwapError::DetachFailed { dest_dir, dest_branch, output, restored } } => {
            assert_eq!(dest_dir, "/w/a");
            assert_eq!(dest_branch, "A");
            assert_eq!(output.stderr, "fatal: cannot detach");
            assert!(restored);
        }
        _ => panic!("expected a detach failure"),
    }
}

#[test]
fn failed_restore_is_reported() {
    let mut actions = Vec::new();
    let mut s = discovered(&mut actions);
    through_saves(&mut s);
    s.step(out("", true));
    s.step(err_out("fatal"));
    let a = s.step(err_out("fatal: cannot switch back"));
    assert!(matches!(
        a,
        Action::Fail { error: SwapError::DetachFailed { restored: false, .. } }
    ));
}

#[test]
fn reapply_problems_are_warnings() {
    let mut actions = Vec::new();
    let mut s = discovered(&mut actions);
    s.step(dir("/w/b"));
    s.step(out("Saved\n", true));
    s.step(out("d1\n", true));
    s.step(out("zz:stash@{5}\n", true));
    s.step(out("Saved\n", true));
    s.step(out("s1\n", true));
    s.step(out("s1:stash@{0}\n", true));
    s.step(out("", true));
    s.step(out("", true));
    s.step(out("", true));
    let a = s.step(out("", true));
    assert!(is_run(&a, "/w/a", &["stash", "apply", "s1"]));
    let a = s.step(err_out("conflict"));
    assert!(is_run(&a, "/w/b", &["stash", "apply", "d1"]));
    let a = s.step(out("", true));
    assert!(matches!(a, Action::Succeed));
    assert_eq!(s.warnings.len(), 2);
    match &s.warnings[0] {
        StashWarning::ApplyFailed { dir, hash, output } => {
            assert_eq!(dir, "/w/a");
            assert_eq!(hash, "s1");
            assert_eq!(output, "conflict");
        }
        _ => panic!("expected an apply failure"),
    }
    assert!(matches!(&s.warnings[1], StashWarning::NoReference { hash } if hash == "d1"));
}

#[test]
fn failed_drop_is_a_warning() {
    let mut actions = Vec::new();
    let mut s = discovered(&mut actions);
    s.step(dir("/w/b"));
    s.step(out("No local changes to save", true));
    s.step(out("Saved\n", true));
    s.step(out("s1\n", true));
    s.step(out("s1:stash@{0}\n", true));
    s.step(out("", true));
    s.step(out("", true));
    s.step(out("", true));
    s.step(out("", true));
    s.step(out("", true));
    let a = s.step(err_out("no such stash"));
    assert!(matches!(a, Action::Succeed));
    assert!(matches!(
        &s.warnings[0],
        StashWarning::DropFailed { reference, output } if reference == "stash@{0}" && output == "no such stash"
    ));
}

#[test]
fn destination_must_exist_and_be_a_directory() {
    let (mut s, _) = SwapSession::start("/nope".to_string(), "B".to_string());
    let a = s.step(Event::Probe(PathProbe { exists: false, is_dir: false, canonical: None }));
    assert!(matches!(a, Action::Fail { error: SwapError::DirNotFound { path } } if path == "/nope"));
    let (mut s, _) = SwapSession::start("/file".to_string(), "B".to_string());
    let a = s.step(Event::Probe(PathProbe { exists: true, is_dir: false, canonical: None }));
    assert!(matches!(a, Action::Fail { error: SwapError::NotADirectory { path } } if path == "/file"));
}

#[test]
fn discovery_errors() {
    let (mut s, _) = SwapSession::start("/w/a".to_string(), "B".to_string());
    s.step(dir("/w/a"));
    let a = s.step(out("false\n", true));
    assert!(matches!(a, Action::Fail { error: SwapError::NotAWorktree { dir } } if dir == "/w/a"));

    let (mut s, _) = SwapSession::start("/w/a".to_string(), "B".to_string());
    s.step(dir("/w/a"));
    let a = s.step(err_out("fatal: not a git repository"));
    assert!(matches!(a, Action::Fail { error: SwapError::CommandFailed { command: GitCommand::IsInsideWorkTree, .. } }));

    let (mut s, _) = SwapSession::start("/w/a".to_string(), "B".to_string());
    s.step(dir("/w/a"));
    s.step(out("true", true));
    s.step(out(".git", true));
    let a = s.step(out("  \n", true));
    assert!(matches!(a, Action::Fail { error: SwapError::NoBranch { dir } } if dir == "/w/a"));

    let (mut s, _) = SwapSession::start("/w/a".to_string(), "C".to_string());
    s.step(dir("/w/a"));
    s.step(out("true", true));
    s.step(out(".git", true));
    s.step(out("A", true));
    let a = s.step(out(LISTING, true));
    assert!(matches!(a, Action::Fail { error: SwapError::BranchNotFound { branch } } if branch == "C"));

    let mut actions = Vec::new();
    let mut s = discovered(&mut actions);
    let a = s.step(Event::Probe(PathProbe { exists: false, is_dir: false, canonical: None }));
    assert!(matches!(a, Action::Fail { error: SwapError::SourceDirMissing { path, branch } } if path == "/w/b" && branch == "B"));
}

#[test]
fn events_after_the_end_are_refused() {
    let (mut s, _) = SwapSession::start("/nope".to_string(), "B".to_string());
    s.step(Event::Probe(PathProbe { exists: false, is_dir: false, canonical: None }));
    let a = s.step(out("", true));
    assert!(matches!(a, Action::Fail { error: SwapError::UnexpectedEvent }));
    assert!(s.is_done());
}

#[test]
fn canonicalize_dir_reports_each_problem() {
    let probe = |exists, is_dir, canonical: Option<&str>| PathProbe {
        exists,
        is_dir,
        canonical: canonical.map(|c| c.to_string()),
    };
    assert!(matches!(canonicalize_dir("/x", probe(false, false, None)), Err(SwapError::DirNotFound { .. })));
    assert!(matches!(canonicalize_dir("/x", probe(true, false, None)), Err(SwapError::NotADirectory { .. })));
    assert!(matches!(canonicalize_dir("/x", probe(true, true, None)), Err(SwapError::Unresolvable { .. })));
    assert_eq!(canonicalize_dir("/x", probe(true, true, Some("/real/x"))).ok(), Some("/real/x".to_string()));
}

#[test]
fn logger_reports_its_level() {
    assert!(Logger::new(true).is_enabled());
    assert!(!Logger::new(false).is_enabled());
}

#[test]
fn only_critical_stops_have_recovery_commands() {
    assert!(SwapError::SameDirectory.recovery_commands().is_empty());
}
