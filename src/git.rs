//! The commands that the swap sends to the version-control tool, and what
//! their outputs mean.
use vstd::prelude::*;
use vstd::string::StrSliceExecFns;
use vstd::string::StringExecFns;

use crate::listing::{listed_branches, parse_worktree_branches, texts};
use crate::order::strictly_sorted;
use crate::text::{same_text, split_lines, to_owned_string, trim, trimmed};

verus! {

/// What one run of the version-control tool produced.
pub struct GitOutput {
    pub stdout: String,
    pub stderr: String,
    pub success: bool,
}

/// The view of an output: its two streams and whether it succeeded.
pub type OutputView = (Seq<char>, Seq<char>, bool);

impl View for GitOutput {
    type V = OutputView;

    open spec fn view(&self) -> OutputView {
        (self.stdout@, self.stderr@, self.success)
    }
}

impl GitOutput {
    /// A copy of this output.
    pub fn duplicate(&self) -> (r: GitOutput)
        ensures
            r@ == self@,
    {
        GitOutput { stdout: self.stdout.clone(), stderr: self.stderr.clone(), success: self.success }
    }
}

/// The commands that the swap issues.
pub enum GitCommand {
    /// Asks whether the directory lies inside a working tree.
    IsInsideWorkTree,
    /// Asks for the repository's shared metadata directory.
    CommonDir,
    /// Asks for the short name of the branch checked out.
    CurrentBranch,
    /// Lists the repository's worktrees in the record format.
    ListWorktrees,
    /// Saves tracked and untracked changes as a new stash entry with a message.
    StashPush { message: String },
    /// Asks for the commit of the newest stash entry.
    StashTop,
    /// Lists the stash entries as `<commit>:<reference>` lines.
    ListStashes,
    /// Detaches the head, which frees the branch that was checked out.
    Detach,
    /// Checks out a branch.
    Switch { branch: String },
    /// Applies the stash entry with the given commit.
    StashApply { hash: String },
    /// Deletes the stash entry at the given reference.
    StashDrop { reference: String },
}

/// The view of a command.
pub enum CommandView {
    IsInsideWorkTree,
    CommonDir,
    CurrentBranch,
    ListWorktrees,
    StashPush(Seq<char>),
    StashTop,
    ListStashes,
    Detach,
    Switch(Seq<char>),
    StashApply(Seq<char>),
    StashDrop(Seq<char>),
}

impl View for GitCommand {
    type V = CommandView;

    open spec fn view(&self) -> CommandView {
        match self {
            GitCommand::IsInsideWorkTree => CommandView::IsInsideWorkTree,
            GitCommand::CommonDir => CommandView::CommonDir,
            GitCommand::CurrentBranch => CommandView::CurrentBranch,
            GitCommand::ListWorktrees => CommandView::ListWorktrees,
            GitCommand::StashPush { message } => CommandView::StashPush(message@),
            GitCommand::StashTop => CommandView::StashTop,
            GitCommand::ListStashes => CommandView::ListStashes,
            GitCommand::Detach => CommandView::Detach,
            GitCommand::Switch { branch } => CommandView::Switch(branch@),
            GitCommand::StashApply { hash } => CommandView::StashApply(hash@),
            GitCommand::StashDrop { reference } => CommandView::StashDrop(reference@),
        }
    }
}

/// Whether a command changes a worktree, its branch or the stash.
pub open spec fn is_mutating(c: CommandView) -> bool {
    match c {
        CommandView::StashPush(_) => true,
        CommandView::Detach => true,
        CommandView::Switch(_) => true,
        CommandView::StashApply(_) => true,
        CommandView::StashDrop(_) => true,
        _ => false,
    }
}

/// The arguments with which the tool is run for a command.
pub open spec fn command_args(c: CommandView) -> Seq<Seq<char>> {
    match c {
        CommandView::IsInsideWorkTree => seq!["rev-parse"@, "--is-inside-work-tree"@],
        CommandView::CommonDir => seq!["rev-parse"@, "--git-common-dir"@],
        CommandView::CurrentBranch => seq!["symbolic-ref"@, "--short"@, "HEAD"@],
        CommandView::ListWorktrees => seq!["worktree"@, "list"@, "--porcelain"@],
        CommandView::StashPush(m) => seq!["stash"@, "push"@, "-u"@, "-m"@, m],
        CommandView::StashTop => seq!["rev-parse"@, "stash@{0}"@],
        CommandView::ListStashes => seq!["stash"@, "list"@, "--format=%H:%gd"@],
        CommandView::Detach => seq!["switch"@, "--detach"@],
        CommandView::Switch(b) => seq!["switch"@, b],
        CommandView::StashApply(h) => seq!["stash"@, "apply"@, h],
        CommandView::StashDrop(r) => seq!["stash"@, "drop"@, r],
    }
}

fn words(ws: &[&str]) -> (r: Vec<String>)
    ensures
        texts(r@) == ws@.map_values(|w: &str| w@),
{
    let mut r: Vec<String> = Vec::new();
    let mut k: usize = 0;
    while k < ws.len()
        invariant
            k <= ws@.len(),
            texts(r@) == ws@.subrange(0, k as int).map_values(|w: &str| w@),
        decreases ws@.len() - k,
    {
        let ghost before = texts(r@);
        r.push(String::from_str(ws[k]));
        assert(texts(r@) =~= before.push(ws@[k as int]@));
        assert(ws@.subrange(0, k + 1).map_values(|w: &str| w@) =~= ws@.subrange(
            0,
            k as int,
        ).map_values(|w: &str| w@).push(ws@[k as int]@));
        k = k + 1;
    }
    assert(ws@.subrange(0, ws@.len() as int) =~= ws@);
    r
}

impl GitCommand {
    /// The arguments with which the tool is run for this command.
    pub fn args(&self) -> (r: Vec<String>)
        ensures
            texts(r@) == command_args(self@),
    {
        let (fixed, last): (Vec<String>, Option<&String>) = match self {
            GitCommand::IsInsideWorkTree => (words(&["rev-parse", "--is-inside-work-tree"]), None),
            GitCommand::CommonDir => (words(&["rev-parse", "--git-common-dir"]), None),
            GitCommand::CurrentBranch => (words(&["symbolic-ref", "--short", "HEAD"]), None),
            GitCommand::ListWorktrees => (words(&["worktree", "list", "--porcelain"]), None),
            GitCommand::StashPush { message } => (
                words(&["stash", "push", "-u", "-m"]),
                Some(message),
            ),
            GitCommand::StashTop => (words(&["rev-parse", "stash@{0}"]), None),
            GitCommand::ListStashes => (words(&["stash", "list", "--format=%H:%gd"]), None),
            GitCommand::Detach => (words(&["switch", "--detach"]), None),
            GitCommand::Switch { branch } => (words(&["switch"]), Some(branch)),
            GitCommand::StashApply { hash } => (words(&["stash", "apply"]), Some(hash)),
            GitCommand::StashDrop { reference } => (words(&["stash", "drop"]), Some(reference)),
        };
        let mut r = fixed;
        let ghost before = texts(r@);
        match last {
            Some(s) => {
                r.push(s.clone());
                assert(texts(r@) =~= before.push(s@));
            },
            None => {},
        }
        assert(texts(r@) =~= command_args(self@));
        r
    }
}

/// The output text of a run: each non-blank stream trimmed, standard output
/// first, the two joined by a newline.
pub open spec fn combined_text(stdout: Seq<char>, stderr: Seq<char>) -> Seq<char> {
    let a = trimmed(stdout);
    let b = trimmed(stderr);
    if b.len() == 0 {
        a
    } else if a.len() == 0 {
        b
    } else {
        a + "\n"@ + b
    }
}

/// The output text of a run, as `combined_text` describes it.
pub fn combined_output(output: &GitOutput) -> (r: String)
    ensures
        r@ == combined_text(output.stdout@, output.stderr@),
{
    let a = trim(output.stdout.as_str());
    let b = trim(output.stderr.as_str());
    if b.unicode_len() == 0 {
        return to_owned_string(a);
    }
    if a.unicode_len() == 0 {
        return to_owned_string(b);
    }
    let mut r = to_owned_string(a);
    r.append("\n");
    r.append(b);
    r
}

/// The answer by which the tool says that a directory is inside a working
/// tree.
pub const INSIDE_ANSWER: &'static str = "true";

/// Whether the tool's answer to `IsInsideWorkTree` says yes.
pub open spec fn says_inside(stdout: Seq<char>) -> bool {
    trimmed(stdout) == INSIDE_ANSWER@
}

/// Whether the answer to `IsInsideWorkTree` says that the directory is
/// inside a working tree.
pub fn ensure_git_worktree(stdout: &str) -> (r: bool)
    ensures
        r == says_inside(stdout@),
{
    same_text(trim(stdout), INSIDE_ANSWER)
}

/// The branch named by the answer to `CurrentBranch`; none when the answer is
/// blank, as it is for a detached head.
pub open spec fn branch_answer(stdout: Seq<char>) -> Option<Seq<char>> {
    if trimmed(stdout).len() == 0 {
        None
    } else {
        Some(trimmed(stdout))
    }
}

/// The branch that the answer to `CurrentBranch` names.
pub fn current_branch(stdout: &str) -> (r: Option<String>)
    ensures
        r is Some <==> branch_answer(stdout@) is Some,
        r is Some ==> r->0@ == branch_answer(stdout@)->0,
{
    let b = trim(stdout);
    if b.unicode_len() == 0 {
        None
    } else {
        Some(to_owned_string(b))
    }
}

/// The branches that a successful `ListWorktrees` run names, sorted and each
/// once; none when the run failed.
pub fn list_worktree_branches(output: &GitOutput) -> (r: Option<Vec<String>>)
    ensures
        r is Some <==> output.success,
        r is Some ==> strictly_sorted(texts(r->0@)) && forall|b: Seq<char>|
            texts(r->0@).contains(b) <==> listed_branches(split_lines(output.stdout@)).contains(b),
{
    if output.success {
        Some(parse_worktree_branches(output.stdout.as_str()))
    } else {
        None
    }
}

} // verus!
