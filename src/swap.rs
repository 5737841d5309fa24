//! The swap protocol. A session is a state machine: each call of `step`
//! takes what the last requested action produced and returns the next
//! action. The caller performs the actions (runs the version-control tool,
//! looks at directories) and hands back their results.
use vstd::prelude::*;
use vstd::string::StringExecFns;

use crate::git::{
    combined_output, combined_text, current_branch, ensure_git_worktree, is_mutating, says_inside,
    branch_answer, CommandView, GitCommand, GitOutput, OutputView,
};
use crate::listing::{find_worktree_for_branch, first_path_for, opt_view, texts, worktree_records};
use crate::paths::{determine_repo_root, joined_path, repo_root_of};
use crate::stash::{
    find_stash_reference, first_reference, nothing_to_save, stash_message, stash_message_for,
    stash_worktree, StashRecord, StashView,
};
use crate::text::{split_lines, to_owned_string, trim, trimmed};

verus! {

/// One of the two worktrees of a swap.
#[derive(PartialEq, Eq, Structural, Clone, Copy)]
pub enum Side {
    /// The worktree named on the command line.
    Dest,
    /// The worktree on which the requested branch is checked out.
    Src,
}

/// Where a session stands: which result it waits for.
#[derive(PartialEq, Eq, Structural, Clone, Copy)]
pub enum Phase {
    ResolveDest,
    CheckWorktree,
    FindRepoRoot,
    ReadBranch,
    FindSource,
    ResolveSource,
    PushStash(Side),
    ReadStashHash(Side),
    ListStashes(Side),
    DetachDest,
    DetachSource,
    RestoreDest,
    SwitchDest,
    SwitchSource,
    /// Applying, in the worktree of this side, the changes saved on the other.
    ApplyStash(Side),
    DropStash(Side),
    Done,
}

/// What the caller found out about a directory path.
pub struct PathProbe {
    pub exists: bool,
    pub is_dir: bool,
    /// The path with links and relative parts resolved, when that succeeded.
    pub canonical: Option<String>,
}

/// The result of an action, handed back to the session.
pub enum Event {
    /// A run of the version-control tool finished.
    Output(GitOutput),
    /// A directory path was looked at.
    Probe(PathProbe),
}

/// The view of an event.
pub enum EventView {
    Output(OutputView),
    Probe(bool, bool, Option<Seq<char>>),
}

impl View for Event {
    type V = EventView;

    open spec fn view(&self) -> EventView {
        match self {
            Event::Output(o) => EventView::Output(o@),
            Event::Probe(p) => EventView::Probe(p.exists, p.is_dir, opt_view(p.canonical)),
        }
    }
}

/// Why a swap stopped.
#[allow(inconsistent_fields)]
pub enum SwapError {
    /// The destination path does not exist.
    DirNotFound { path: String },
    /// The destination path is not a directory.
    NotADirectory { path: String },
    /// A path could not be resolved to a canonical directory.
    Unresolvable { path: String },
    /// A command that the swap depends on failed.
    CommandFailed { dir: String, command: GitCommand, output: GitOutput },
    /// The destination is not inside a working tree.
    NotAWorktree { dir: String },
    /// The destination's head is not on a named branch.
    NoBranch { dir: String },
    /// No worktree has the requested branch checked out.
    BranchNotFound { branch: String },
    /// The worktree listed for the requested branch is gone from disk.
    SourceDirMissing { path: String, branch: String },
    /// The destination already is the worktree of the requested branch.
    SameDirectory,
    /// Saving a worktree's changes failed; nothing has moved.
    StashFailed { dir: String, output: String },
    /// Detaching the source failed after the destination was detached; the
    /// destination was switched back to its branch when `restored` holds.
    DetachFailed { dest_dir: String, dest_branch: String, output: GitOutput, restored: bool },
    /// The destination is on the source's branch but the source could not
    /// take the destination's branch; both must be set right by hand.
    Critical {
        dest_dir: String,
        src_dir: String,
        src_branch: String,
        dest_branch: String,
        output: GitOutput,
    },
    /// An event that the session was not waiting for.
    UnexpectedEvent,
}

/// The view of an error.
pub enum ErrorView {
    DirNotFound(Seq<char>),
    NotADirectory(Seq<char>),
    Unresolvable(Seq<char>),
    CommandFailed(Seq<char>, CommandView, OutputView),
    NotAWorktree(Seq<char>),
    NoBranch(Seq<char>),
    BranchNotFound(Seq<char>),
    SourceDirMissing(Seq<char>, Seq<char>),
    SameDirectory,
    StashFailed(Seq<char>, Seq<char>),
    DetachFailed(Seq<char>, Seq<char>, OutputView, bool),
    Critical(Seq<char>, Seq<char>, Seq<char>, Seq<char>, OutputView),
    UnexpectedEvent,
}

impl View for SwapError {
    type V = ErrorView;

    open spec fn view(&self) -> ErrorView {
        match self {
            SwapError::DirNotFound { path } => ErrorView::DirNotFound(path@),
            SwapError::NotADirectory { path } => ErrorView::NotADirectory(path@),
            SwapError::Unresolvable { path } => ErrorView::Unresolvable(path@),
            SwapError::CommandFailed { dir, command, output } => ErrorView::CommandFailed(
                dir@,
                command@,
                output@,
            ),
            SwapError::NotAWorktree { dir } => ErrorView::NotAWorktree(dir@),
            SwapError::NoBranch { dir } => ErrorView::NoBranch(dir@),
            SwapError::BranchNotFound { branch } => ErrorView::BranchNotFound(branch@),
            SwapError::SourceDirMissing { path, branch } => ErrorView::SourceDirMissing(
                path@,
                branch@,
            ),
            SwapError::SameDirectory => ErrorView::SameDirectory,
            SwapError::StashFailed { dir, output } => ErrorView::StashFailed(dir@, output@),
            SwapError::DetachFailed { dest_dir, dest_branch, output, restored } =>
                ErrorView::DetachFailed(dest_dir@, dest_branch@, output@, *restored),
            SwapError::Critical { dest_dir, src_dir, src_branch, dest_branch, output } =>
                ErrorView::Critical(dest_dir@, src_dir@, src_branch@, dest_branch@, output@),
            SwapError::UnexpectedEvent => ErrorView::UnexpectedEvent,
        }
    }
}

/// Something that went wrong after both branches had moved; the swap still
/// counts as done, and the saved changes stay in the stash.
pub enum StashWarning {
    /// The saved changes could not be applied in `dir`.
    ApplyFailed { dir: String, hash: String, output: String },
    /// The saved changes were applied but their entry could not be found to
    /// delete it.
    NoReference { hash: String },
    /// The saved changes were applied but deleting their entry failed.
    DropFailed { reference: String, output: String },
}

/// The view of a warning.
pub enum WarningView {
    ApplyFailed(Seq<char>, Seq<char>, Seq<char>),
    NoReference(Seq<char>),
    DropFailed(Seq<char>, Seq<char>),
}

impl View for StashWarning {
    type V = WarningView;

    open spec fn view(&self) -> WarningView {
        match self {
            StashWarning::ApplyFailed { dir, hash, output } => WarningView::ApplyFailed(
                dir@,
                hash@,
                output@,
            ),
            StashWarning::NoReference { hash } => WarningView::NoReference(hash@),
            StashWarning::DropFailed { reference, output } => WarningView::DropFailed(
                reference@,
                output@,
            ),
        }
    }
}

/// What the session asks its caller to do next.
pub enum Action {
    /// Look at a directory path and hand back a `Probe`.
    Resolve { path: String },
    /// Run the version-control tool in `dir` and hand back its `Output`.
    Run { dir: String, command: GitCommand },
    /// The swap is complete.
    Succeed,
    /// The swap stopped.
    Fail { error: SwapError },
}

/// The view of an action.
pub enum ActionView {
    Resolve(Seq<char>),
    Run(Seq<char>, CommandView),
    Succeed,
    Fail(ErrorView),
}

impl View for Action {
    type V = ActionView;

    open spec fn view(&self) -> ActionView {
        match self {
            Action::Resolve { path } => ActionView::Resolve(path@),
            Action::Run { dir, command } => ActionView::Run(dir@, command@),
            Action::Succeed => ActionView::Succeed,
            Action::Fail { error } => ActionView::Fail(error@),
        }
    }
}

/// Whether an action changes a worktree, its branch or the stash.
pub open spec fn is_mutating_action(a: ActionView) -> bool {
    match a {
        ActionView::Run(_, c) => is_mutating(c),
        _ => false,
    }
}

/// One swap, from the destination path and the source branch to the end.
pub struct SwapSession {
    pub phase: Phase,
    pub dest_arg: String,
    pub src_branch: String,
    pub dest_dir: String,
    pub repo_root: String,
    pub dest_branch: String,
    pub src_dir: String,
    pub dest_stash: Option<StashRecord>,
    pub src_stash: Option<StashRecord>,
    pub stash_hash: String,
    pub detach_output: GitOutput,
    pub warnings: Vec<StashWarning>,
}

/// The view of a session.
pub struct SessionView {
    pub phase: Phase,
    pub dest_arg: Seq<char>,
    pub src_branch: Seq<char>,
    pub dest_dir: Seq<char>,
    pub repo_root: Seq<char>,
    pub dest_branch: Seq<char>,
    pub src_dir: Seq<char>,
    pub dest_stash: Option<StashView>,
    pub src_stash: Option<StashView>,
    pub stash_hash: Seq<char>,
    pub detach_output: OutputView,
    pub warnings: Seq<WarningView>,
}

pub open spec fn stash_opt_view(o: Option<StashRecord>) -> Option<StashView> {
    match o {
        Some(s) => Some(s@),
        None => None,
    }
}

impl View for SwapSession {
    type V = SessionView;

    open spec fn view(&self) -> SessionView {
        SessionView {
            phase: self.phase,
            dest_arg: self.dest_arg@,
            src_branch: self.src_branch@,
            dest_dir: self.dest_dir@,
            repo_root: self.repo_root@,
            dest_branch: self.dest_branch@,
            src_dir: self.src_dir@,
            dest_stash: stash_opt_view(self.dest_stash),
            src_stash: stash_opt_view(self.src_stash),
            stash_hash: self.stash_hash@,
            detach_output: self.detach_output@,
            warnings: self.warnings@.map_values(|w: StashWarning| w@),
        }
    }
}

/// The state of a session that has not started.
pub open spec fn initial(dest_arg: Seq<char>, src_branch: Seq<char>) -> SessionView {
    SessionView {
        phase: Phase::ResolveDest,
        dest_arg,
        src_branch,
        dest_dir: Seq::empty(),
        repo_root: Seq::empty(),
        dest_branch: Seq::empty(),
        src_dir: Seq::empty(),
        dest_stash: None,
        src_stash: None,
        stash_hash: Seq::empty(),
        detach_output: (Seq::empty(), Seq::empty(), false),
        warnings: Seq::empty(),
    }
}

pub open spec fn with_phase(s: SessionView, phase: Phase) -> SessionView {
    SessionView { phase, ..s }
}

/// Stops the session with an error.
pub open spec fn fail(s: SessionView, e: ErrorView) -> (SessionView, ActionView) {
    (with_phase(s, Phase::Done), ActionView::Fail(e))
}

pub open spec fn side_dir(s: SessionView, side: Side) -> Seq<char> {
    match side {
        Side::Dest => s.dest_dir,
        Side::Src => s.src_dir,
    }
}

pub open spec fn side_branch(s: SessionView, side: Side) -> Seq<char> {
    match side {
        Side::Dest => s.dest_branch,
        Side::Src => s.src_branch,
    }
}

pub open spec fn with_stash(s: SessionView, side: Side, st: Option<StashView>) -> SessionView {
    match side {
        Side::Dest => SessionView { dest_stash: st, ..s },
        Side::Src => SessionView { src_stash: st, ..s },
    }
}

/// The saved changes that the worktree of `side` receives: those of the
/// other side.
pub open spec fn incoming(s: SessionView, side: Side) -> Option<StashView> {
    match side {
        Side::Dest => s.src_stash,
        Side::Src => s.dest_stash,
    }
}

/// After the changes of `side` are saved: save the source's next, or, once
/// both are saved, detach the destination.
pub open spec fn after_save(s: SessionView, side: Side) -> (SessionView, ActionView) {
    match side {
        Side::Dest => (
            with_phase(s, Phase::PushStash(Side::Src)),
            ActionView::Run(s.src_dir, CommandView::StashPush(stash_message(s.src_branch))),
        ),
        Side::Src => (with_phase(s, Phase::DetachDest), ActionView::Run(s.dest_dir, CommandView::Detach)),
    }
}

/// Apply the destination's saved changes in the source worktree, if any.
pub open spec fn apply_into_src(s: SessionView) -> (SessionView, ActionView) {
    match s.dest_stash {
        Some(st) => (
            with_phase(s, Phase::ApplyStash(Side::Src)),
            ActionView::Run(s.src_dir, CommandView::StashApply(st.0)),
        ),
        None => (with_phase(s, Phase::Done), ActionView::Succeed),
    }
}

/// Apply the source's saved changes in the destination worktree, if any,
/// and then go on to the source worktree.
pub open spec fn apply_into_dest(s: SessionView) -> (SessionView, ActionView) {
    match s.src_stash {
        Some(st) => (
            with_phase(s, Phase::ApplyStash(Side::Dest)),
            ActionView::Run(s.dest_dir, CommandView::StashApply(st.0)),
        ),
        None => apply_into_src(s),
    }
}

pub open spec fn after_apply(s: SessionView, side: Side) -> (SessionView, ActionView) {
    match side {
        Side::Dest => apply_into_src(s),
        Side::Src => (with_phase(s, Phase::Done), ActionView::Succeed),
    }
}

pub open spec fn warn(s: SessionView, w: WarningView) -> SessionView {
    SessionView { warnings: s.warnings.push(w), ..s }
}

/// The reference of the entry that the worktree of `side` is deleting.
pub open spec fn dropping_ref(s: SessionView, side: Side) -> Seq<char> {
    match incoming(s, side) {
        Some(st) => match st.1 {
            Some(r) => r,
            None => Seq::empty(),
        },
        None => Seq::empty(),
    }
}

pub open spec fn next_for_output(s: SessionView, o: OutputView) -> (SessionView, ActionView) {
    let ok = o.2;
    match s.phase {
        Phase::CheckWorktree => if !ok {
            fail(s, ErrorView::CommandFailed(s.dest_dir, CommandView::IsInsideWorkTree, o))
        } else if !says_inside(o.0) {
            fail(s, ErrorView::NotAWorktree(s.dest_dir))
        } else {
            (with_phase(s, Phase::FindRepoRoot), ActionView::Run(s.dest_dir, CommandView::CommonDir))
        },
        Phase::FindRepoRoot => if !ok {
            fail(s, ErrorView::CommandFailed(s.dest_dir, CommandView::CommonDir, o))
        } else {
            (
                SessionView {
                    phase: Phase::ReadBranch,
                    repo_root: repo_root_of(s.dest_dir, trimmed(o.0)),
                    ..s
                },
                ActionView::Run(s.dest_dir, CommandView::CurrentBranch),
            )
        },
        Phase::ReadBranch => if !ok {
            fail(s, ErrorView::CommandFailed(s.dest_dir, CommandView::CurrentBranch, o))
        } else {
            match branch_answer(o.0) {
                None => fail(s, ErrorView::NoBranch(s.dest_dir)),
                Some(b) => (
                    SessionView { phase: Phase::FindSource, dest_branch: b, ..s },
                    ActionView::Run(s.dest_dir, CommandView::ListWorktrees),
                ),
            }
        },
        Phase::FindSource => if !ok {
            fail(s, ErrorView::CommandFailed(s.dest_dir, CommandView::ListWorktrees, o))
        } else {
            match first_path_for(worktree_records(o.0), s.src_branch) {
                None => fail(s, ErrorView::BranchNotFound(s.src_branch)),
                Some(p) => (
                    SessionView {
                        phase: Phase::ResolveSource,
                        src_dir: joined_path(s.dest_dir, p),
                        ..s
                    },
                    ActionView::Resolve(joined_path(s.dest_dir, p)),
                ),
            }
        },
        Phase::PushStash(side) => if nothing_to_save(o.0, o.1) {
            after_save(with_stash(s, side, None), side)
        } else if !ok {
            fail(s, ErrorView::StashFailed(side_dir(s, side), combined_text(o.0, o.1)))
        } else {
            (
                with_phase(s, Phase::ReadStashHash(side)),
                ActionView::Run(side_dir(s, side), CommandView::StashTop),
            )
        },
        Phase::ReadStashHash(side) => if !ok {
            fail(s, ErrorView::CommandFailed(side_dir(s, side), CommandView::StashTop, o))
        } else {
            (
                SessionView { phase: Phase::ListStashes(side), stash_hash: trimmed(o.0), ..s },
                ActionView::Run(side_dir(s, side), CommandView::ListStashes),
            )
        },
        Phase::ListStashes(side) => if !ok {
            fail(s, ErrorView::CommandFailed(side_dir(s, side), CommandView::ListStashes, o))
        } else {
            after_save(
                with_stash(
                    s,
                    side,
                    Some(
                        (
                            s.stash_hash,
                            first_reference(split_lines(o.0), s.stash_hash),
                            side_branch(s, side),
                        ),
                    ),
                ),
                side,
            )
        },
        Phase::DetachDest => if !ok {
            fail(s, ErrorView::CommandFailed(s.dest_dir, CommandView::Detach, o))
        } else {
            (with_phase(s, Phase::DetachSource), ActionView::Run(s.src_dir, CommandView::Detach))
        },
        Phase::DetachSource => if !ok {
            (
                SessionView { phase: Phase::RestoreDest, detach_output: o, ..s },
                ActionView::Run(s.dest_dir, CommandView::Switch(s.dest_branch)),
            )
        } else {
            (
                with_phase(s, Phase::SwitchDest),
                ActionView::Run(s.dest_dir, CommandView::Switch(s.src_branch)),
            )
        },
        Phase::RestoreDest => fail(
            s,
            ErrorView::DetachFailed(s.dest_dir, s.dest_branch, s.detach_output, ok),
        ),
        Phase::SwitchDest => if !ok {
            fail(s, ErrorView::CommandFailed(s.dest_dir, CommandView::Switch(s.src_branch), o))
        } else {
            (
                with_phase(s, Phase::SwitchSource),
                ActionView::Run(s.src_dir, CommandView::Switch(s.dest_branch)),
            )
        },
        Phase::SwitchSource => if !ok {
            fail(s, ErrorView::Critical(s.dest_dir, s.src_dir, s.src_branch, s.dest_branch, o))
        } else {
            apply_into_dest(s)
        },
        Phase::ApplyStash(side) => match incoming(s, side) {
            None => after_apply(s, side),
            Some(st) => if !ok {
                after_apply(
                    warn(
                        s,
                        WarningView::ApplyFailed(side_dir(s, side), st.0, combined_text(o.0, o.1)),
                    ),
                    side,
                )
            } else {
                match st.1 {
                    Some(r) => (
                        with_phase(s, Phase::DropStash(side)),
                        ActionView::Run(side_dir(s, side), CommandView::StashDrop(r)),
                    ),
                    None => after_apply(warn(s, WarningView::NoReference(st.0)), side),
                }
            },
        },
        Phase::DropStash(side) => if !ok {
            after_apply(
                warn(s, WarningView::DropFailed(dropping_ref(s, side), combined_text(o.0, o.1))),
                side,
            )
        } else {
            after_apply(s, side)
        },
        Phase::Done => (s, ActionView::Fail(ErrorView::UnexpectedEvent)),
        _ => fail(s, ErrorView::UnexpectedEvent),
    }
}

pub open spec fn next_for_probe(
    s: SessionView,
    exists: bool,
    is_dir: bool,
    canonical: Option<Seq<char>>,
) -> (SessionView, ActionView) {
    match s.phase {
        Phase::ResolveDest => if !exists {
            fail(s, ErrorView::DirNotFound(s.dest_arg))
        } else if !is_dir {
            fail(s, ErrorView::NotADirectory(s.dest_arg))
        } else {
            match canonical {
                None => fail(s, ErrorView::Unresolvable(s.dest_arg)),
                Some(c) => (
                    SessionView { phase: Phase::CheckWorktree, dest_dir: c, ..s },
                    ActionView::Run(c, CommandView::IsInsideWorkTree),
                ),
            }
        },
        Phase::ResolveSource => if !exists {
            fail(s, ErrorView::SourceDirMissing(s.src_dir, s.src_branch))
        } else {
            match canonical {
                None => fail(s, ErrorView::Unresolvable(s.src_dir)),
                Some(c) => if c == s.dest_dir {
                    fail(s, ErrorView::SameDirectory)
                } else {
                    (
                        with_phase(s, Phase::PushStash(Side::Dest)),
                        ActionView::Run(s.dest_dir, CommandView::StashPush(stash_message(s.dest_branch))),
                    )
                },
            }
        },
        Phase::RestoreDest => fail(
            s,
            ErrorView::DetachFailed(s.dest_dir, s.dest_branch, s.detach_output, false),
        ),
        Phase::Done => (s, ActionView::Fail(ErrorView::UnexpectedEvent)),
        _ => fail(s, ErrorView::UnexpectedEvent),
    }
}

/// The state after the event `e` and the action that follows it.
pub open spec fn next(s: SessionView, e: EventView) -> (SessionView, ActionView) {
    match e {
        EventView::Output(o) => next_for_output(s, o),
        EventView::Probe(exists, is_dir, canonical) => next_for_probe(s, exists, is_dir, canonical),
    }
}

fn empty_output() -> (r: GitOutput)
    ensures
        r@ == (Seq::<char>::empty(), Seq::<char>::empty(), false),
{
    GitOutput { stdout: String::new(), stderr: String::new(), success: false }
}

fn clone_opt(o: &Option<String>) -> (r: Option<String>)
    ensures
        opt_view(r) == opt_view(*o),
{
    match o {
        Some(s) => Some(s.clone()),
        None => None,
    }
}

/// Whether verbose progress lines are wanted.
pub struct Logger {
    pub debug_enabled: bool,
}

impl Logger {
    pub fn new(debug_enabled: bool) -> (r: Logger)
        ensures
            r.debug_enabled == debug_enabled,
    {
        Logger { debug_enabled }
    }

    pub fn is_enabled(&self) -> (r: bool)
        ensures
            r == self.debug_enabled,
    {
        self.debug_enabled
    }
}

/// The canonical directory for `path`, from what was found out about it:
/// it must exist, be a directory and resolve.
pub fn canonicalize_dir(path: &str, probe: PathProbe) -> (r: Result<String, SwapError>)
    ensures
        !probe.exists ==> (r matches Err(e) && e@ == ErrorView::DirNotFound(path@)),
        probe.exists && !probe.is_dir ==> (r matches Err(e) && e@ == ErrorView::NotADirectory(
            path@,
        )),
        probe.exists && probe.is_dir && probe.canonical is None ==> (r matches Err(e) && e@
            == ErrorView::Unresolvable(path@)),
        probe.exists && probe.is_dir && probe.canonical is Some ==> (r matches Ok(c) && c@
            == probe.canonical->0@),
{
    if !probe.exists {
        return Err(SwapError::DirNotFound { path: to_owned_string(path) });
    }
    if !probe.is_dir {
        return Err(SwapError::NotADirectory { path: to_owned_string(path) });
    }
    match probe.canonical {
        Some(c) => Ok(c),
        None => Err(SwapError::Unresolvable { path: to_owned_string(path) }),
    }
}

/// The action that detaches the head of the worktree at `dir`.
pub fn detach_worktree(dir: &String) -> (r: Action)
    ensures
        r@ == ActionView::Run(dir@, CommandView::Detach),
{
    Action::Run { dir: dir.clone(), command: GitCommand::Detach }
}

/// The action that checks out `branch` in the worktree at `dir`.
pub fn switch_worktree(dir: &String, branch: &String) -> (r: Action)
    ensures
        r@ == ActionView::Run(dir@, CommandView::Switch(branch@)),
{
    Action::Run { dir: dir.clone(), command: GitCommand::Switch { branch: branch.clone() } }
}

/// The action that deletes the stash entry at `reference` in `dir`.
pub fn drop_stash(dir: String, reference: String) -> (r: Action)
    ensures
        r@ == ActionView::Run(dir@, CommandView::StashDrop(reference@)),
{
    Action::Run { dir, command: GitCommand::StashDrop { reference } }
}

/// The command line that checks out `branch` in the worktree at `dir`, as
/// an operator types it.
pub open spec fn switch_command_text(dir: Seq<char>, branch: Seq<char>) -> Seq<char> {
    "git -C '"@ + dir + "' switch '"@ + branch + "'"@
}

/// The command line that checks out `branch` in the worktree at `dir`.
pub fn manual_switch_command(dir: &str, branch: &str) -> (r: String)
    ensures
        r@ == switch_command_text(dir@, branch@),
{
    let mut r = String::from_str("git -C '");
    r.append(dir);
    r.append("' switch '");
    r.append(branch);
    r.append("'");
    r
}

/// The commands that an operator runs after a `Critical` stop: first the
/// destination goes back to its own branch, which frees the source's branch,
/// then the source goes back to its own branch. Other errors need none.
pub open spec fn recovery_texts(e: ErrorView) -> Seq<Seq<char>> {
    match e {
        ErrorView::Critical(dest_dir, src_dir, src_branch, dest_branch, _) => seq![
            switch_command_text(dest_dir, dest_branch),
            switch_command_text(src_dir, src_branch),
        ],
        _ => Seq::empty(),
    }
}

impl SwapError {
    /// The commands that set the worktrees right by hand, as
    /// `recovery_texts` gives them.
    pub fn recovery_commands(&self) -> (r: Vec<String>)
        ensures
            texts(r@) == recovery_texts(self@),
    {
        let mut r: Vec<String> = Vec::new();
        match self {
            SwapError::Critical { dest_dir, src_dir, src_branch, dest_branch, .. } => {
                r.push(manual_switch_command(dest_dir.as_str(), dest_branch.as_str()));
                r.push(manual_switch_command(src_dir.as_str(), src_branch.as_str()));
            },
            _ => {},
        }
        assert(texts(r@) =~= recovery_texts(self@));
        r
    }
}

impl SwapSession {
    /// A new session for moving `src_branch` into the worktree at
    /// `dest_arg`, and its first action: looking at that path.
    pub fn start(dest_arg: String, src_branch: String) -> (r: (SwapSession, Action))
        ensures
            r.0@ == initial(dest_arg@, src_branch@),
            r.1@ == ActionView::Resolve(dest_arg@),
    {
        let path = dest_arg.clone();
        let session = SwapSession {
            phase: Phase::ResolveDest,
            dest_arg,
            src_branch,
            dest_dir: String::new(),
            repo_root: String::new(),
            dest_branch: String::new(),
            src_dir: String::new(),
            dest_stash: None,
            src_stash: None,
            stash_hash: String::new(),
            detach_output: empty_output(),
            warnings: Vec::new(),
        };
        assert(session.warnings@.map_values(|w: StashWarning| w@) =~= Seq::<WarningView>::empty());
        (session, Action::Resolve { path })
    }

    /// Takes the result of the last action and returns the next action.
    pub fn step(&mut self, event: Event) -> (r: Action)
        ensures
            (final(self)@, r@) == next(old(self)@, event@),
    {
        match event {
            Event::Output(o) => self.on_output(o),
            Event::Probe(p) => self.on_probe(p),
        }
    }

    /// Whether the session has ended.
    pub fn is_done(&self) -> (r: bool)
        ensures
            r == (self.phase == Phase::Done),
    {
        self.phase == Phase::Done
    }

    fn stop(&mut self, error: SwapError) -> (r: Action)
        ensures
            (final(self)@, r@) == fail(old(self)@, error@),
    {
        self.phase = Phase::Done;
        Action::Fail { error }
    }

    fn dir_of(&self, side: Side) -> (r: String)
        ensures
            r@ == side_dir(self@, side),
    {
        match side {
            Side::Dest => self.dest_dir.clone(),
            Side::Src => self.src_dir.clone(),
        }
    }

    fn branch_of(&self, side: Side) -> (r: String)
        ensures
            r@ == side_branch(self@, side),
    {
        match side {
            Side::Dest => self.dest_branch.clone(),
            Side::Src => self.src_branch.clone(),
        }
    }

    fn set_stash(&mut self, side: Side, st: Option<StashRecord>)
        ensures
            final(self)@ == with_stash(old(self)@, side, stash_opt_view(st)),
    {
        match side {
            Side::Dest => self.dest_stash = st,
            Side::Src => self.src_stash = st,
        }
    }

    fn add_warning(&mut self, w: StashWarning)
        ensures
            final(self)@ == warn(old(self)@, w@),
    {
        let ghost before = self.warnings@.map_values(|w: StashWarning| w@);
        let ghost wv = w@;
        self.warnings.push(w);
        assert(self.warnings@.map_values(|w: StashWarning| w@) =~= before.push(wv));
    }

    fn incoming_parts(&self, side: Side) -> (r: Option<(String, Option<String>)>)
        ensures
            match incoming(self@, side) {
                None => r is None,
                Some(st) => r matches Some((h, rf)) && h@ == st.0 && opt_view(rf) == st.1,
            },
    {
        let st = match side {
            Side::Dest => &self.src_stash,
            Side::Src => &self.dest_stash,
        };
        match st {
            Some(rec) => Some((rec.hash.clone(), clone_opt(&rec.reference))),
            None => None,
        }
    }

    fn after_save(&mut self, side: Side) -> (r: Action)
        ensures
            (final(self)@, r@) == after_save(old(self)@, side),
    {
        match side {
            Side::Dest => {
                self.phase = Phase::PushStash(Side::Src);
                let message = stash_message_for(self.src_branch.as_str());
                Action::Run { dir: self.src_dir.clone(), command: GitCommand::StashPush { message } }
            },
            Side::Src => {
                self.phase = Phase::DetachDest;
                detach_worktree(&self.dest_dir)
            },
        }
    }

    fn apply_into_src(&mut self) -> (r: Action)
        ensures
            (final(self)@, r@) == apply_into_src(old(self)@),
    {
        let hash = match &self.dest_stash {
            Some(st) => st.hash.clone(),
            None => {
                self.phase = Phase::Done;
                return Action::Succeed;
            },
        };
        self.phase = Phase::ApplyStash(Side::Src);
        Action::Run { dir: self.src_dir.clone(), command: GitCommand::StashApply { hash } }
    }

    fn apply_into_dest(&mut self) -> (r: Action)
        ensures
            (final(self)@, r@) == apply_into_dest(old(self)@),
    {
        let hash = match &self.src_stash {
            Some(st) => st.hash.clone(),
            None => {
                return self.apply_into_src();
            },
        };
        self.phase = Phase::ApplyStash(Side::Dest);
        Action::Run { dir: self.dest_dir.clone(), command: GitCommand::StashApply { hash } }
    }

    fn after_apply(&mut self, side: Side) -> (r: Action)
        ensures
            (final(self)@, r@) == after_apply(old(self)@, side),
    {
        match side {
            Side::Dest => self.apply_into_src(),
            Side::Src => {
                self.phase = Phase::Done;
                Action::Succeed
            },
        }
    }

    fn on_probe(&mut self, p: PathProbe) -> (r: Action)
        ensures
            (final(self)@, r@) == next_for_probe(old(self)@, p.exists, p.is_dir, opt_view(p.canonical)),
    {
        match self.phase {
            Phase::ResolveDest => {
                match canonicalize_dir(self.dest_arg.as_str(), p) {
                    Err(error) => self.stop(error),
                    Ok(c) => {
                        self.dest_dir = c.clone();
                        self.phase = Phase::CheckWorktree;
                        Action::Run { dir: c, command: GitCommand::IsInsideWorkTree }
                    },
                }
            },
            Phase::ResolveSource => {
                if !p.exists {
                    let path = self.src_dir.clone();
                    let branch = self.src_branch.clone();
                    return self.stop(SwapError::SourceDirMissing { path, branch });
                }
                match p.canonical {
                    None => {
                        let path = self.src_dir.clone();
                        self.stop(SwapError::Unresolvable { path })
                    },
                    Some(c) => {
                        if c == self.dest_dir {
                            return self.stop(SwapError::SameDirectory);
                        }
                        self.phase = Phase::PushStash(Side::Dest);
                        let message = stash_message_for(self.dest_branch.as_str());
                        Action::Run {
                            dir: self.dest_dir.clone(),
                            command: GitCommand::StashPush { message },
                        }
                    },
                }
            },
            Phase::RestoreDest => {
                let error = SwapError::DetachFailed {
                    dest_dir: self.dest_dir.clone(),
                    dest_branch: self.dest_branch.clone(),
                    output: self.detach_output.duplicate(),
                    restored: false,
                };
                self.stop(error)
            },
            Phase::Done => Action::Fail { error: SwapError::UnexpectedEvent },
            _ => self.stop(SwapError::UnexpectedEvent),
        }
    }

    fn on_output(&mut self, o: GitOutput) -> (r: Action)
        ensures
            (final(self)@, r@) == next_for_output(old(self)@, o@),
    {
        match self.phase {
            Phase::CheckWorktree => {
                if !o.success {
                    let dir = self.dest_dir.clone();
                    return self.stop(
                        SwapError::CommandFailed { dir, command: GitCommand::IsInsideWorkTree, output: o },
                    );
                }
                if !ensure_git_worktree(o.stdout.as_str()) {
                    let dir = self.dest_dir.clone();
                    return self.stop(SwapError::NotAWorktree { dir });
                }
                self.phase = Phase::FindRepoRoot;
                Action::Run { dir: self.dest_dir.clone(), command: GitCommand::CommonDir }
            },
            Phase::FindRepoRoot => {
                if !o.success {
                    let dir = self.dest_dir.clone();
                    return self.stop(
                        SwapError::CommandFailed { dir, command: GitCommand::CommonDir, output: o },
                    );
                }
                self.repo_root = determine_repo_root(self.dest_dir.as_str(), o.stdout.as_str());
                self.phase = Phase::ReadBranch;
                Action::Run { dir: self.dest_dir.clone(), command: GitCommand::CurrentBranch }
            },
            Phase::ReadBranch => {
                if !o.success {
                    let dir = self.dest_dir.clone();
                    return self.stop(
                        SwapError::CommandFailed { dir, command: GitCommand::CurrentBranch, output: o },
                    );
                }
                match current_branch(o.stdout.as_str()) {
                    None => {
                        let dir = self.dest_dir.clone();
                        self.stop(SwapError::NoBranch { dir })
                    },
                    Some(b) => {
                        self.dest_branch = b;
                        self.phase = Phase::FindSource;
                        Action::Run { dir: self.dest_dir.clone(), command: GitCommand::ListWorktrees }
                    },
                }
            },
            Phase::FindSource => {
                if !o.success {
                    let dir = self.dest_dir.clone();
                    return self.stop(
                        SwapError::CommandFailed { dir, command: GitCommand::ListWorktrees, output: o },
                    );
                }
                match find_worktree_for_branch(
                    self.dest_dir.as_str(),
                    o.stdout.as_str(),
                    self.src_branch.as_str(),
                ) {
                    None => {
                        let branch = self.src_branch.clone();
                        self.stop(SwapError::BranchNotFound { branch })
                    },
                    Some(path) => {
                        self.src_dir = path.clone();
                        self.phase = Phase::ResolveSource;
                        Action::Resolve { path }
                    },
                }
            },
            Phase::PushStash(side) => {
                match stash_worktree(&o) {
                    Ok(false) => {
                        self.set_stash(side, None);
                        self.after_save(side)
                    },
                    Err(text) => {
                        let dir = self.dir_of(side);
                        self.stop(SwapError::StashFailed { dir, output: text })
                    },
                    Ok(true) => {
                        self.phase = Phase::ReadStashHash(side);
                        Action::Run { dir: self.dir_of(side), command: GitCommand::StashTop }
                    },
                }
            },
            Phase::ReadStashHash(side) => {
                if !o.success {
                    let dir = self.dir_of(side);
                    return self.stop(
                        SwapError::CommandFailed { dir, command: GitCommand::StashTop, output: o },
                    );
                }
                self.stash_hash = to_owned_string(trim(o.stdout.as_str()));
                self.phase = Phase::ListStashes(side);
                Action::Run { dir: self.dir_of(side), command: GitCommand::ListStashes }
            },
            Phase::ListStashes(side) => {
                if !o.success {
                    let dir = self.dir_of(side);
                    return self.stop(
                        SwapError::CommandFailed { dir, command: GitCommand::ListStashes, output: o },
                    );
                }
                let reference = find_stash_reference(o.stdout.as_str(), self.stash_hash.as_str());
                let rec = StashRecord {
                    hash: self.stash_hash.clone(),
                    reference,
                    branch: self.branch_of(side),
                };
                self.set_stash(side, Some(rec));
                self.after_save(side)
            },
            Phase::DetachDest => {
                if !o.success {
                    let dir = self.dest_dir.clone();
                    return self.stop(
                        SwapError::CommandFailed { dir, command: GitCommand::Detach, output: o },
                    );
                }
                self.phase = Phase::DetachSource;
                detach_worktree(&self.src_dir)
            },
            Phase::DetachSource => {
                if !o.success {
                    self.detach_output = o;
                    self.phase = Phase::RestoreDest;
                    return switch_worktree(&self.dest_dir, &self.dest_branch);
                }
                self.phase = Phase::SwitchDest;
                switch_worktree(&self.dest_dir, &self.src_branch)
            },
            Phase::RestoreDest => {
                let error = SwapError::DetachFailed {
                    dest_dir: self.dest_dir.clone(),
                    dest_branch: self.dest_branch.clone(),
                    output: self.detach_output.duplicate(),
                    restored: o.success,
                };
                self.stop(error)
            },
            Phase::SwitchDest => {
                if !o.success {
                    let dir = self.dest_dir.clone();
                    let branch = self.src_branch.clone();
                    return self.stop(
                        SwapError::CommandFailed { dir, command: GitCommand::Switch { branch }, output: o },
                    );
                }
                self.phase = Phase::SwitchSource;
                switch_worktree(&self.src_dir, &self.dest_branch)
            },
            Phase::SwitchSource => {
                if !o.success {
                    let error = SwapError::Critical {
                        dest_dir: self.dest_dir.clone(),
                        src_dir: self.src_dir.clone(),
                        src_branch: self.src_branch.clone(),
                        dest_branch: self.dest_branch.clone(),
                        output: o,
                    };
                    return self.stop(error);
                }
                self.apply_into_dest()
            },
            Phase::ApplyStash(side) => {
                let (hash, reference) = match self.incoming_parts(side) {
                    None => {
                        return self.after_apply(side);
                    },
                    Some(parts) => parts,
                };
                if !o.success {
                    let dir = self.dir_of(side);
                    let output = combined_output(&o);
                    self.add_warning(StashWarning::ApplyFailed { dir, hash, output });
                    return self.after_apply(side);
                }
                match reference {
                    Some(reference) => {
                        self.phase = Phase::DropStash(side);
                        drop_stash(self.dir_of(side), reference)
                    },
                    None => {
                        self.add_warning(StashWarning::NoReference { hash });
                        self.after_apply(side)
                    },
                }
            },
            Phase::DropStash(side) => {
                if !o.success {
                    let reference = match self.incoming_parts(side) {
                        Some((_, Some(r))) => r,
                        _ => String::new(),
                    };
                    let output = combined_output(&o);
                    self.add_warning(StashWarning::DropFailed { reference, output });
                }
                self.after_apply(side)
            },
            Phase::Done => Action::Fail { error: SwapError::UnexpectedEvent },
            _ => self.stop(SwapError::UnexpectedEvent),
        }
    }
}

/// The state after each event of `events` in turn, from `s`, and the actions
/// requested on the way.
pub open spec fn run_events(s: SessionView, events: Seq<EventView>) -> (SessionView, Seq<ActionView>)
    decreases events.len(),
{
    if events.len() == 0 {
        (s, Seq::empty())
    } else {
        let (t, acts) = run_events(s, events.drop_last());
        let (u, a) = next(t, events.last());
        (u, acts.push(a))
    }
}

/// The phases before any worktree is changed: finding out where the two
/// branches are.
pub open spec fn is_discovery(p: Phase) -> bool {
    match p {
        Phase::ResolveDest => true,
        Phase::CheckWorktree => true,
        Phase::FindRepoRoot => true,
        Phase::ReadBranch => true,
        Phase::FindSource => true,
        Phase::ResolveSource => true,
        _ => false,
    }
}

/// None of `acts` changes anything.
pub open spec fn all_quiet(acts: Seq<ActionView>) -> bool {
    forall|i: int| 0 <= i < acts.len() ==> !is_mutating_action(#[trigger] acts[i])
}

/// Once a session has ended, every further event is refused and changes
/// nothing.
pub proof fn lemma_done_is_final(s: SessionView, events: Seq<EventView>)
    requires
        s.phase == Phase::Done,
    ensures
        run_events(s, events).0 == s,
        forall|i: int|
            0 <= i < events.len() ==> #[trigger] run_events(s, events).1[i] == ActionView::Fail(
                ErrorView::UnexpectedEvent,
            ),
        run_events(s, events).1.len() == events.len(),
    decreases events.len(),
{
    if events.len() > 0 {
        lemma_done_is_final(s, events.drop_last());
    }
}

proof fn lemma_discovery_order(s: SessionView, e: EventView)
    ensures
        ({
            let (t, a) = next(s, e);
            &&& !is_discovery(s.phase) ==> !is_discovery(t.phase)
            &&& a == ActionView::Fail(ErrorView::SameDirectory) ==> is_discovery(s.phase)
                && t.phase == Phase::Done
            &&& is_discovery(t.phase) ==> !is_mutating_action(a)
            &&& s.phase == Phase::Done ==> t == s && a == ActionView::Fail(ErrorView::UnexpectedEvent)
        }),
{
}

proof fn lemma_same_directory_trace(s: SessionView, events: Seq<EventView>)
    requires
        is_discovery(s.phase),
    ensures
        ({
            let (t, acts) = run_events(s, events);
            &&& is_discovery(t.phase) ==> all_quiet(acts)
            &&& acts.contains(ActionView::Fail(ErrorView::SameDirectory)) ==> t.phase == Phase::Done
                && all_quiet(acts)
        }),
    decreases events.len(),
{
    if events.len() > 0 {
        let rest = events.drop_last();
        lemma_same_directory_trace(s, rest);
        let (t, acts) = run_events(s, rest);
        let (u, a) = next(t, events.last());
        lemma_discovery_order(t, events.last());
        let all = acts.push(a);
        assert(run_events(s, events) == (u, all));
        if is_discovery(u.phase) {
            assert(all_quiet(all)) by {
                assert forall|i: int| 0 <= i < all.len() implies !is_mutating_action(
                    #[trigger] all[i],
                ) by {
                    if i < acts.len() {
                        assert(all[i] == acts[i]);
                    }
                }
            }
        }
        if all.contains(ActionView::Fail(ErrorView::SameDirectory)) {
            let j = choose|j: int| 0 <= j < all.len() && all[j] == ActionView::Fail(ErrorView::SameDirectory);
            if j < acts.len() {
                assert(acts[j] == all[j]);
                assert(acts.contains(ActionView::Fail(ErrorView::SameDirectory)));
            }
            assert forall|i: int| 0 <= i < all.len() implies !is_mutating_action(#[trigger] all[i]) by {
                if i < acts.len() {
                    assert(all[i] == acts[i]);
                }
            }
        }
    }
}

/// A swap whose two worktrees turn out to be one directory stops with
/// `SameDirectory`, and then none of the actions that the session requested,
/// from the first on, changes a worktree, a branch or the stash.
pub proof fn lemma_same_directory_changes_nothing(
    dest_arg: Seq<char>,
    src_branch: Seq<char>,
    events: Seq<EventView>,
)
    ensures
        ({
            let acts = seq![ActionView::Resolve(dest_arg)] + run_events(
                initial(dest_arg, src_branch),
                events,
            ).1;
            acts.contains(ActionView::Fail(ErrorView::SameDirectory)) ==> all_quiet(acts)
        }),
{
    let s0 = initial(dest_arg, src_branch);
    lemma_same_directory_trace(s0, events);
    let rest = run_events(s0, events).1;
    let acts = seq![ActionView::Resolve(dest_arg)] + rest;
    if acts.contains(ActionView::Fail(ErrorView::SameDirectory)) {
        let j = choose|j: int| 0 <= j < acts.len() && acts[j] == ActionView::Fail(ErrorView::SameDirectory);
        assert(rest[j - 1] == acts[j]);
        assert(rest.contains(ActionView::Fail(ErrorView::SameDirectory)));
        assert forall|i: int| 0 <= i < acts.len() implies !is_mutating_action(#[trigger] acts[i]) by {
            if i > 0 {
                assert(acts[i] == rest[i - 1]);
            }
        }
    }
}

/// When the source directory resolves to the destination itself, the
/// session stops with `SameDirectory`.
pub proof fn lemma_same_directory_stops(s: SessionView, is_dir: bool)
    requires
        s.phase == Phase::ResolveSource,
    ensures
        next(s, EventView::Probe(true, is_dir, Some(s.dest_dir))) == fail(
            s,
            ErrorView::SameDirectory,
        ),
{
}

/// A save that reports that there was nothing to save is no failure: the
/// worktree gets no saved entry and the swap goes on, to the source's save
/// or to detaching the destination.
pub proof fn lemma_nothing_to_save_goes_on(s: SessionView, side: Side, o: OutputView)
    requires
        s.phase == Phase::PushStash(side),
        nothing_to_save(o.0, o.1),
    ensures
        ({
            let (t, a) = next(s, EventView::Output(o));
            &&& a is Run
            &&& match side {
                Side::Dest => t.dest_stash is None && t.phase == Phase::PushStash(Side::Src),
                Side::Src => t.src_stash is None && t.phase == Phase::DetachDest,
            }
        }),
{
}

/// When the source cannot take the destination's branch after the
/// destination took the source's, the session stops with `Critical`, naming
/// both directories and both branches, and requests nothing more: no saved
/// changes are applied. The commands it names are `switch <dest_branch>` in
/// the destination and `switch <src_branch>` in the source.
pub proof fn lemma_source_switch_failure_is_critical(
    s: SessionView,
    o: OutputView,
    events: Seq<EventView>,
)
    requires
        s.phase == Phase::SwitchSource,
        !o.2,
    ensures
        ({
            let (t, a) = next(s, EventView::Output(o));
            &&& a == ActionView::Fail(
                ErrorView::Critical(s.dest_dir, s.src_dir, s.src_branch, s.dest_branch, o),
            )
            &&& t.phase == Phase::Done
            &&& recovery_texts(a->Fail_0) == seq![
                switch_command_text(s.dest_dir, s.dest_branch),
                switch_command_text(s.src_dir, s.src_branch),
            ]
            &&& forall|i: int| 0 <= i < events.len() ==> !(#[trigger] run_events(t, events).1[i] is Run)
        }),
{
    let (t, a) = next(s, EventView::Output(o));
    lemma_done_is_final(t, events);
}

/// The branches checked out in the destination and in the source worktree;
/// `None` for a detached head.
pub type Heads = (Option<Seq<char>>, Option<Seq<char>>);

/// The heads after the action `a` of session `s`, when the command it runs
/// succeeded (`ok`) or failed; a failed command is taken to change nothing.
pub open spec fn heads_after(s: SessionView, h: Heads, a: ActionView, ok: bool) -> Heads {
    match a {
        ActionView::Run(d, c) => {
            let head = match c {
                CommandView::Switch(b) => Some(Some(b)),
                CommandView::Detach => Some(None),
                _ => None,
            };
            match head {
                Some(new_head) => if !ok {
                    h
                } else if d == s.dest_dir {
                    (new_head, h.1)
                } else if d == s.src_dir {
                    (h.0, new_head)
                } else {
                    h
                },
                None => h,
            }
        },
        _ => h,
    }
}

/// When detaching the source fails after the destination was detached, the
/// one command that follows switches the destination back to its own
/// branch; the source is never switched, nothing saved is applied, and
/// whatever that command gives, the session stops with `DetachFailed`.
/// Whether or not that command succeeded (`restored`), of two distinct worktrees on two distinct branches, the destination ends
/// on its own branch or detached and the source on its own branch: no branch
/// is checked out in both.
pub proof fn lemma_detach_failure_restores_destination(
    s: SessionView,
    o: OutputView,
    events: Seq<EventView>,
    restored: bool,
)
    requires
        s.phase == Phase::DetachSource,
        !o.2,
        events.len() > 0,
    ensures
        ({
            let (t, a) = next(s, EventView::Output(o));
            let (u, acts) = run_events(t, events);
            &&& a == ActionView::Run(s.dest_dir, CommandView::Switch(s.dest_branch))
            &&& acts[0] matches ActionView::Fail(ErrorView::DetachFailed(d, b, out, _))
                && d == s.dest_dir && b == s.dest_branch && out == o
            &&& forall|i: int| 0 <= i < acts.len() ==> !(#[trigger] acts[i] is Run)
            &&& u.phase == Phase::Done
        }),
        s.dest_dir != s.src_dir && s.dest_branch != s.src_branch ==> ({
            let h = heads_after(
                s,
                (None, Some(s.src_branch)),
                next(s, EventView::Output(o)).1,
                restored,
            );
            &&& h.0 == Some(s.dest_branch) || h.0 is None
            &&& h.1 == Some(s.src_branch)
            &&& h.0 != h.1
        }),
    decreases events.len(),
{
    let (t, a) = next(s, EventView::Output(o));
    let first = seq![events[0]];
    let later = events.subrange(1, events.len() as int);
    lemma_run_events_split(t, first, later);
    assert(first + later =~= events);
    assert(run_events(t, first) == run_events(t, Seq::<EventView>::empty().push(events[0]))) by {
        assert(first =~= Seq::<EventView>::empty().push(events[0]));
    }
    assert(first.drop_last() =~= Seq::<EventView>::empty());
    let (t1, a1) = next(t, events[0]);
    assert(t1.phase == Phase::Done);
    assert(run_events(t, Seq::<EventView>::empty()) == (t, Seq::<ActionView>::empty()));
    assert(run_events(t, first) == (t1, Seq::<ActionView>::empty().push(a1)));
    lemma_done_is_final(t1, later);
    let tail = run_events(t1, later).1;
    let acts = Seq::<ActionView>::empty().push(a1) + tail;
    assert(run_events(t, events) == (t1, acts));
    assert(acts[0] == a1);
    assert forall|i: int| 0 <= i < acts.len() implies !(#[trigger] acts[i] is Run) by {
        if i > 0 {
            assert(acts[i] == tail[i - 1]);
        }
    }
}

/// Running two lists of events one after the other is running them joined.
pub proof fn lemma_run_events_split(s: SessionView, a: Seq<EventView>, b: Seq<EventView>)
    ensures
        run_events(s, a + b) == (
            run_events(run_events(s, a).0, b).0,
            run_events(s, a).1 + run_events(run_events(s, a).0, b).1,
        ),
    decreases b.len(),
{
    if b.len() == 0 {
        assert(a + b =~= a);
        assert(run_events(s, a).1 + Seq::<ActionView>::empty() =~= run_events(s, a).1);
    } else {
        lemma_run_events_split(s, a, b.drop_last());
        assert((a + b).drop_last() =~= a + b.drop_last());
        assert((a + b).last() == b.last());
        let mid = run_events(s, a);
        let r = run_events(mid.0, b.drop_last());
        let (u, x) = next(r.0, b.last());
        assert(mid.1 + r.1.push(x) =~= (mid.1 + r.1).push(x));
    }
}

/// The action that a session in state `s` waits on the result of.
pub open spec fn awaited_action(s: SessionView) -> ActionView {
    match s.phase {
        Phase::ResolveDest => ActionView::Resolve(s.dest_arg),
        Phase::CheckWorktree => ActionView::Run(s.dest_dir, CommandView::IsInsideWorkTree),
        Phase::FindRepoRoot => ActionView::Run(s.dest_dir, CommandView::CommonDir),
        Phase::ReadBranch => ActionView::Run(s.dest_dir, CommandView::CurrentBranch),
        Phase::FindSource => ActionView::Run(s.dest_dir, CommandView::ListWorktrees),
        Phase::ResolveSource => ActionView::Resolve(s.src_dir),
        Phase::PushStash(side) => ActionView::Run(
            side_dir(s, side),
            CommandView::StashPush(stash_message(side_branch(s, side))),
        ),
        Phase::ReadStashHash(side) => ActionView::Run(side_dir(s, side), CommandView::StashTop),
        Phase::ListStashes(side) => ActionView::Run(side_dir(s, side), CommandView::ListStashes),
        Phase::DetachDest => ActionView::Run(s.dest_dir, CommandView::Detach),
        Phase::DetachSource => ActionView::Run(s.src_dir, CommandView::Detach),
        Phase::RestoreDest => ActionView::Run(s.dest_dir, CommandView::Switch(s.dest_branch)),
        Phase::SwitchDest => ActionView::Run(s.dest_dir, CommandView::Switch(s.src_branch)),
        Phase::SwitchSource => ActionView::Run(s.src_dir, CommandView::Switch(s.dest_branch)),
        Phase::ApplyStash(side) => match incoming(s, side) {
            Some(st) => ActionView::Run(side_dir(s, side), CommandView::StashApply(st.0)),
            None => ActionView::Succeed,
        },
        Phase::DropStash(side) => ActionView::Run(
            side_dir(s, side),
            CommandView::StashDrop(dropping_ref(s, side)),
        ),
        Phase::Done => ActionView::Succeed,
    }
}

/// Every step that leaves the session running requests the action that the
/// new state waits on.
#[verifier::rlimit(50)]
pub proof fn lemma_step_requests_awaited(s: SessionView, e: EventView)
    ensures
        next(s, e).0.phase != Phase::Done ==> next(s, e).1 == awaited_action(next(s, e).0),
{
    match e {
        EventView::Output(o) => match s.phase {
            Phase::PushStash(side) => {},
            Phase::ReadStashHash(side) => {},
            Phase::ListStashes(side) => {},
            Phase::ApplyStash(side) => {},
            Phase::DropStash(side) => {},
            Phase::SwitchSource => {},
            _ => {},
        },
        EventView::Probe(..) => {},
    }
}

/// A run requests one action per event.
pub proof fn lemma_run_events_len(s: SessionView, events: Seq<EventView>)
    ensures
        run_events(s, events).1.len() == events.len(),
    decreases events.len(),
{
    if events.len() > 0 {
        lemma_run_events_len(s, events.drop_last());
    }
}

/// The `k`-th event of a run is answered from the state that the events
/// before it reached; what follows is the run of the rest from the next
/// state.
pub proof fn lemma_run_events_at(s: SessionView, events: Seq<EventView>, k: int)
    requires
        0 <= k < events.len(),
    ensures
        ({
            let t = run_events(s, events.take(k)).0;
            let (t1, a) = next(t, events[k]);
            let acts = run_events(s, events).1;
            let rest = run_events(t1, events.skip(k + 1));
            &&& run_events(s, events.take(k + 1)).0 == t1
            &&& acts.len() == events.len()
            &&& acts[k] == a
            &&& run_events(s, events).0 == rest.0
            &&& forall|j: int| k < j < events.len() ==> #[trigger] acts[j] == rest.1[j - k - 1]
        }),
{
    let front = events.take(k + 1);
    let back = events.skip(k + 1);
    assert(front + back =~= events);
    assert(front.drop_last() =~= events.take(k));
    assert(front.last() == events[k]);
    lemma_run_events_split(s, front, back);
    lemma_run_events_len(s, events.take(k));
    lemma_run_events_len(s, events);
    let t = run_events(s, events.take(k)).0;
    let (t1, a) = next(t, events[k]);
    let rest = run_events(t1, back);
    let acts = run_events(s, events).1;
    assert(acts == run_events(s, events.take(k)).1.push(a) + rest.1);
}

/// The state that a run from `s` reaches after its first `k` events.
pub open spec fn state_at(s: SessionView, events: Seq<EventView>, k: int) -> SessionView {
    run_events(s, events.take(k)).0
}

/// In a run from the start, the `k`-th event answers the action that the
/// state reached before it waits on, as long as the session runs.
pub proof fn lemma_run_answers_awaited(
    dest_arg: Seq<char>,
    src_branch: Seq<char>,
    events: Seq<EventView>,
    k: int,
)
    requires
        0 <= k < events.len(),
        state_at(initial(dest_arg, src_branch), events, k).phase != Phase::Done,
    ensures
        (seq![ActionView::Resolve(dest_arg)] + run_events(initial(dest_arg, src_branch), events).1)[k]
            == awaited_action(state_at(initial(dest_arg, src_branch), events, k)),
{
    let s0 = initial(dest_arg, src_branch);
    let acts = run_events(s0, events).1;
    lemma_run_events_len(s0, events);
    if k == 0 {
        assert(events.take(0) =~= Seq::<EventView>::empty());
    } else {
        lemma_run_events_at(s0, events, k - 1);
        lemma_step_requests_awaited(state_at(s0, events, k - 1), events[k - 1]);
    }
}

/// In any run from the start: when saving a worktree's changes is answered
/// with the nothing-to-save report, that worktree gets no saved entry and
/// the next action is the next command of the swap, not a failure.
pub proof fn lemma_run_nothing_to_save_goes_on(
    dest_arg: Seq<char>,
    src_branch: Seq<char>,
    events: Seq<EventView>,
    k: int,
    side: Side,
    o: OutputView,
)
    requires
        0 <= k < events.len(),
        state_at(initial(dest_arg, src_branch), events, k).phase == Phase::PushStash(side),
        events[k] == EventView::Output(o),
        nothing_to_save(o.0, o.1),
    ensures
        ({
            let s0 = initial(dest_arg, src_branch);
            let t = state_at(s0, events, k);
            let t1 = state_at(s0, events, k + 1);
            let all = seq![ActionView::Resolve(dest_arg)] + run_events(s0, events).1;
            &&& all[k] == ActionView::Run(
                side_dir(t, side),
                CommandView::StashPush(stash_message(side_branch(t, side))),
            )
            &&& all[k + 1] is Run
            &&& match side {
                Side::Dest => t1.dest_stash is None && t1.phase == Phase::PushStash(Side::Src),
                Side::Src => t1.src_stash is None && t1.phase == Phase::DetachDest,
            }
        }),
{
    let s0 = initial(dest_arg, src_branch);
    lemma_run_answers_awaited(dest_arg, src_branch, events, k);
    lemma_run_events_at(s0, events, k);
    lemma_nothing_to_save_goes_on(state_at(s0, events, k), side, o);
}

/// In any run from the start: when the source's switch to the destination's
/// branch fails, the session stops with `Critical` naming both directories
/// and both branches, its recovery commands are `switch <dest_branch>` in the
/// destination and `switch <src_branch>` in the source, and no command
/// follows: no saved changes are applied or deleted.
pub proof fn lemma_run_source_switch_failure_is_critical(
    dest_arg: Seq<char>,
    src_branch: Seq<char>,
    events: Seq<EventView>,
    k: int,
    o: OutputView,
)
    requires
        0 <= k < events.len(),
        state_at(initial(dest_arg, src_branch), events, k).phase == Phase::SwitchSource,
        events[k] == EventView::Output(o),
        !o.2,
    ensures
        ({
            let s0 = initial(dest_arg, src_branch);
            let t = state_at(s0, events, k);
            let all = seq![ActionView::Resolve(dest_arg)] + run_events(s0, events).1;
            &&& all[k] == ActionView::Run(t.src_dir, CommandView::Switch(t.dest_branch))
            &&& all[k + 1] == ActionView::Fail(
                ErrorView::Critical(t.dest_dir, t.src_dir, t.src_branch, t.dest_branch, o),
            )
            &&& recovery_texts(all[k + 1]->Fail_0) == seq![
                switch_command_text(t.dest_dir, t.dest_branch),
                switch_command_text(t.src_dir, t.src_branch),
            ]
            &&& forall|j: int| k + 1 < j < all.len() ==> !(#[trigger] all[j] is Run)
        }),
{
    let s0 = initial(dest_arg, src_branch);
    let t = state_at(s0, events, k);
    lemma_run_answers_awaited(dest_arg, src_branch, events, k);
    lemma_run_events_at(s0, events, k);
    let rest_events = events.skip(k + 1);
    lemma_source_switch_failure_is_critical(t, o, rest_events);
    let acts = run_events(s0, events).1;
    let all = seq![ActionView::Resolve(dest_arg)] + acts;
    assert forall|j: int| k + 1 < j < all.len() implies !(#[trigger] all[j] is Run) by {
        assert(all[j] == acts[j - 1]);
        assert(acts[j - 1] == run_events(next(t, events[k]).0, rest_events).1[j - 1 - k - 1]);
    }
}

/// In any run from the start: when detaching the source fails after the
/// destination was detached, the one command that follows switches the
/// destination back to its own branch; whatever that gives, the session
/// then stops with `DetachFailed`, and nothing else is run: the source is
/// not touched again and no saved changes are applied.
pub proof fn lemma_run_detach_failure_restores_destination(
    dest_arg: Seq<char>,
    src_branch: Seq<char>,
    events: Seq<EventView>,
    k: int,
    o: OutputView,
)
    requires
        0 <= k < events.len() - 1,
        state_at(initial(dest_arg, src_branch), events, k).phase == Phase::DetachSource,
        events[k] == EventView::Output(o),
        !o.2,
    ensures
        ({
            let s0 = initial(dest_arg, src_branch);
            let t = state_at(s0, events, k);
            let all = seq![ActionView::Resolve(dest_arg)] + run_events(s0, events).1;
            &&& all[k] == ActionView::Run(t.src_dir, CommandView::Detach)
            &&& all[k + 1] == ActionView::Run(t.dest_dir, CommandView::Switch(t.dest_branch))
            &&& all[k + 2] matches ActionView::Fail(ErrorView::DetachFailed(d, b, out, _))
                && d == t.dest_dir && b == t.dest_branch && out == o
            &&& forall|j: int| k + 1 < j < all.len() ==> !(#[trigger] all[j] is Run)
        }),
{
    let s0 = initial(dest_arg, src_branch);
    let t = state_at(s0, events, k);
    lemma_run_answers_awaited(dest_arg, src_branch, events, k);
    lemma_run_events_at(s0, events, k);
    let rest_events = events.skip(k + 1);
    lemma_detach_failure_restores_destination(t, o, rest_events, true);
    let acts = run_events(s0, events).1;
    let all = seq![ActionView::Resolve(dest_arg)] + acts;
    let rest = run_events(next(t, events[k]).0, rest_events).1;
    lemma_run_events_len(next(t, events[k]).0, rest_events);
    assert(all[k + 2] == acts[k + 1]);
    assert(acts[k + 1] == rest[0]);
    assert forall|j: int| k + 1 < j < all.len() implies !(#[trigger] all[j] is Run) by {
        assert(all[j] == acts[j - 1]);
        assert(acts[j - 1] == rest[j - 1 - k - 1]);
    }
}

/// A session waits on the source's switch only right after the
/// destination's switch succeeded, with nothing else changed.
pub proof fn lemma_source_switch_follows_destination_switch(s: SessionView, e: EventView)
    requires
        next(s, e).0.phase == Phase::SwitchSource,
    ensures
        s.phase == Phase::SwitchDest,
        e matches EventView::Output(o) && o.2,
        next(s, e).0 == with_phase(s, Phase::SwitchSource),
{
}

/// In any run from the start, when the source's switch succeeds: the
/// destination switched to the source's branch just before, and with two
/// distinct directories that were both detached, the destination is now on
/// the source's branch and the source on the destination's. The source's
/// saved changes, if any, are applied next, in the destination; once that
/// succeeds, their entry is deleted there.
pub proof fn lemma_run_swap_carries_source_changes(
    dest_arg: Seq<char>,
    src_branch: Seq<char>,
    events: Seq<EventView>,
    k: int,
    o: OutputView,
)
    requires
        0 <= k < events.len(),
        state_at(initial(dest_arg, src_branch), events, k).phase == Phase::SwitchSource,
        events[k] == EventView::Output(o),
        o.2,
    ensures
        ({
            let s0 = initial(dest_arg, src_branch);
            let t = state_at(s0, events, k);
            let all = seq![ActionView::Resolve(dest_arg)] + run_events(s0, events).1;
            let h = heads_after(t, heads_after(t, (None, None), all[k - 1], true), all[k], true);
            &&& k >= 1
            &&& all[k - 1] == ActionView::Run(t.dest_dir, CommandView::Switch(t.src_branch))
            &&& all[k] == ActionView::Run(t.src_dir, CommandView::Switch(t.dest_branch))
            &&& t.dest_dir != t.src_dir ==> h == (Some(t.src_branch), Some(t.dest_branch))
            &&& t.src_stash matches Some(st) ==> all[k + 1] == ActionView::Run(
                t.dest_dir,
                CommandView::StashApply(st.0),
            ) && state_at(s0, events, k + 1).phase == Phase::ApplyStash(Side::Dest)
        }),
{
    let s0 = initial(dest_arg, src_branch);
    let t = state_at(s0, events, k);
    if k == 0 {
        assert(events.take(0) =~= Seq::<EventView>::empty());
    }
    lemma_run_answers_awaited(dest_arg, src_branch, events, k);
    lemma_run_events_at(s0, events, k);
    lemma_run_events_at(s0, events, k - 1);
    lemma_source_switch_follows_destination_switch(state_at(s0, events, k - 1), events[k - 1]);
    lemma_run_answers_awaited(dest_arg, src_branch, events, k - 1);
}

/// In any run from the start, when applying saved changes in a worktree
/// succeeds and their entry's place in the stash list is known, the next
/// command deletes exactly that entry, in the same worktree.
pub proof fn lemma_run_applied_changes_are_dropped(
    dest_arg: Seq<char>,
    src_branch: Seq<char>,
    events: Seq<EventView>,
    k: int,
    side: Side,
    o: OutputView,
)
    requires
        0 <= k < events.len(),
        state_at(initial(dest_arg, src_branch), events, k).phase == Phase::ApplyStash(side),
        events[k] == EventView::Output(o),
        o.2,
    ensures
        ({
            let s0 = initial(dest_arg, src_branch);
            let t = state_at(s0, events, k);
            let all = seq![ActionView::Resolve(dest_arg)] + run_events(s0, events).1;
            incoming(t, side) matches Some(st) && st.1 matches Some(r) ==> {
                &&& all[k] == ActionView::Run(side_dir(t, side), CommandView::StashApply(st.0))
                &&& all[k + 1] == ActionView::Run(side_dir(t, side), CommandView::StashDrop(r))
            }
        }),
{
    let s0 = initial(dest_arg, src_branch);
    lemma_run_answers_awaited(dest_arg, src_branch, events, k);
    lemma_run_events_at(s0, events, k);
}

} // verus!
