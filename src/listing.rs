//! The record format in which the version-control tool lists the worktrees
//! of a repository: blocks of lines separated by blank lines, where a
//! `worktree <path>` line names the worktree's directory and an optional
//! `branch <ref>` line names the branch checked out there.
use vstd::prelude::*;
use vstd::string::StrSliceExecFns;

use crate::order::{
    lemma_text_lt_irreflexive, lemma_text_lt_total,
    lemma_text_lt_transitive, strictly_sorted, text_less, text_lt,
};
use crate::paths::{joined_path, normalize_path};
use crate::text::{
    has_prefix, split_into_lines, split_lines, starts_with, strip_prefix_or_keep, to_owned_string,
    trim, trimmed, without_prefix,
};

verus! {

/// The tag of the line that names a worktree's directory.
pub const WORKTREE_TAG: &'static str = "worktree ";

/// The tag of the line that names the branch of a worktree.
pub const BRANCH_TAG: &'static str = "branch ";

/// The namespace of local branches, removed from branch references.
pub const HEADS_PREFIX: &'static str = "refs/heads/";

/// One worktree as the listing reports it: its directory and, unless its
/// head is detached, its branch.
pub struct WorktreeRecord {
    pub path: String,
    pub branch: Option<String>,
}

/// The view of an optional string.
pub open spec fn opt_view(o: Option<String>) -> Option<Seq<char>> {
    match o {
        Some(s) => Some(s@),
        None => None,
    }
}

impl View for WorktreeRecord {
    type V = (Seq<char>, Option<Seq<char>>);

    open spec fn view(&self) -> (Seq<char>, Option<Seq<char>>) {
        (self.path@, opt_view(self.branch))
    }
}

/// The views of a sequence of strings.
pub open spec fn texts(v: Seq<String>) -> Seq<Seq<char>> {
    v.map_values(|s: String| s@)
}

/// The views of a sequence of records.
pub open spec fn record_views(v: Seq<WorktreeRecord>) -> Seq<(Seq<char>, Option<Seq<char>>)> {
    v.map_values(|r: WorktreeRecord| r@)
}

/// What follows the tag `tag` at the start of `line`.
pub open spec fn after_tag(line: Seq<char>, tag: Seq<char>) -> Seq<char> {
    line.subrange(tag.len() as int, line.len() as int)
}

/// A branch reference with the local-branch namespace removed.
pub open spec fn branch_name_of(reference: Seq<char>) -> Seq<char> {
    without_prefix(reference, HEADS_PREFIX@)
}

/// The branch that a `branch` line names, if `line` is such a line and the
/// name is not empty once the local-branch namespace is removed.
pub open spec fn branch_of_line(line: Seq<char>) -> Option<Seq<char>> {
    if has_prefix(line, BRANCH_TAG@) {
        let name = branch_name_of(trimmed(after_tag(line, BRANCH_TAG@)));
        if name.len() == 0 {
            None
        } else {
            Some(name)
        }
    } else {
        None
    }
}

/// Every branch that some line of `lines` names.
pub open spec fn listed_branches(lines: Seq<Seq<char>>) -> Set<Seq<char>> {
    Set::new(|b: Seq<char>| exists|i: int| 0 <= i < lines.len() && branch_of_line(#[trigger] lines[i]) == Some(b))
}

/// The record under construction while the lines are read: the path and
/// the branch seen since the last blank line.
pub type Pending = (Option<Seq<char>>, Option<Seq<char>>);

/// The records read so far and the record under construction.
pub type ScanState = (Seq<(Seq<char>, Option<Seq<char>>)>, Pending);

/// Closes the record under construction: it becomes a record when it has a
/// path, and is dropped otherwise.
pub open spec fn close_record(
    done: Seq<(Seq<char>, Option<Seq<char>>)>,
    pending: Pending,
) -> Seq<(Seq<char>, Option<Seq<char>>)> {
    match pending.0 {
        Some(p) => done.push((p, pending.1)),
        None => done,
    }
}

/// Reads one line.
pub open spec fn scan_line(st: ScanState, line: Seq<char>) -> ScanState {
    if trimmed(line).len() == 0 {
        (close_record(st.0, st.1), (None, None))
    } else if has_prefix(line, WORKTREE_TAG@) {
        (st.0, (Some(trimmed(after_tag(line, WORKTREE_TAG@))), st.1.1))
    } else if has_prefix(line, BRANCH_TAG@) {
        (st.0, (st.1.0, Some(branch_name_of(trimmed(after_tag(line, BRANCH_TAG@))))))
    } else {
        st
    }
}

/// Reads all of `lines`.
pub open spec fn scan_lines(lines: Seq<Seq<char>>) -> ScanState
    decreases lines.len(),
{
    if lines.len() == 0 {
        (Seq::empty(), (None, None))
    } else {
        scan_line(scan_lines(lines.drop_last()), lines.last())
    }
}

/// The records of a listing, in the order in which they appear. The last
/// record counts whether or not a blank line follows it.
pub open spec fn worktree_records(listing: Seq<char>) -> Seq<(Seq<char>, Option<Seq<char>>)> {
    let st = scan_lines(split_lines(listing));
    close_record(st.0, st.1)
}

/// The path of the first record whose branch is `branch`.
pub open spec fn first_path_for(
    records: Seq<(Seq<char>, Option<Seq<char>>)>,
    branch: Seq<char>,
) -> Option<Seq<char>>
    decreases records.len(),
{
    if records.len() == 0 {
        None
    } else if records[0].1 == Some(branch) {
        Some(records[0].0)
    } else {
        first_path_for(records.drop_first(), branch)
    }
}

/// The records that a worktree listing holds.
pub fn parse_worktree_records(listing: &str) -> (r: Vec<WorktreeRecord>)
    ensures
        record_views(r@) == worktree_records(listing@),
{
    let lines = split_into_lines(listing);
    let ghost all = texts(lines@);
    let mut done: Vec<WorktreeRecord> = Vec::new();
    let mut path: Option<String> = None;
    let mut branch: Option<String> = None;
    let mut k: usize = 0;
    assert(all.subrange(0, 0) =~= Seq::<Seq<char>>::empty());
    assert(record_views(done@) =~= Seq::<(Seq<char>, Option<Seq<char>>)>::empty());
    while k < lines.len()
        invariant
            all == texts(lines@),
            all == split_lines(listing@),
            k <= lines.len(),
            scan_lines(all.subrange(0, k as int)) == (
                record_views(done@),
                (opt_view(path), opt_view(branch)),
            ),
        decreases lines.len() - k,
    {
        let line = lines[k].as_str();
        let ghost before = record_views(done@);
        assert(all.subrange(0, k + 1).drop_last() =~= all.subrange(0, k as int));
        assert(all.subrange(0, k + 1).last() == line@);
        if trim(line).unicode_len() == 0 {
            match path {
                Some(p) => {
                    let rec = WorktreeRecord { path: p, branch };
                    done.push(rec);
                    assert(record_views(done@) =~= before.push(rec@));
                },
                None => {},
            }
            path = None;
            branch = None;
        } else if starts_with(line, WORKTREE_TAG) {
            let rest = line.substring_char(WORKTREE_TAG.unicode_len(), line.unicode_len());
            path = Some(to_owned_string(trim(rest)));
        } else if starts_with(line, BRANCH_TAG) {
            let rest = line.substring_char(BRANCH_TAG.unicode_len(), line.unicode_len());
            branch = Some(to_owned_string(strip_prefix_or_keep(trim(rest), HEADS_PREFIX)));
        }
        k = k + 1;
    }
    assert(all.subrange(0, lines.len() as int) =~= all);
    let ghost before = record_views(done@);
    match path {
        Some(p) => {
            let rec = WorktreeRecord { path: p, branch };
            done.push(rec);
            assert(record_views(done@) =~= before.push(rec@));
        },
        None => {},
    }
    done
}

/// The directory of the worktree on which `branch` is checked out, as the
/// listing names it: the path of the first record with that branch, taken
/// relative to `base` unless it is absolute. `None` when no record has it.
pub fn find_worktree_for_branch(base: &str, listing: &str, branch: &str) -> (r: Option<String>)
    ensures
        match first_path_for(worktree_records(listing@), branch@) {
            Some(p) => r is Some && r->0@ == joined_path(base@, p),
            None => r is None,
        },
{
    let records = parse_worktree_records(listing);
    let ghost all = record_views(records@);
    let mut k: usize = 0;
    assert(all.skip(0) =~= all);
    while k < records.len()
        invariant
            all == record_views(records@),
            all == worktree_records(listing@),
            k <= records.len(),
            first_path_for(all, branch@) == first_path_for(all.skip(k as int), branch@),
        decreases records.len() - k,
    {
        let rec = &records[k];
        assert(all.skip(k as int)[0] == rec@);
        assert(all.skip(k as int).drop_first() =~= all.skip(k + 1));
        match &rec.branch {
            Some(b) => {
                if crate::text::same_text(b.as_str(), branch) {
                    return Some(normalize_path(base, rec.path.as_str()));
                }
            },
            None => {},
        }
        k = k + 1;
    }
    None
}

/// Every branch named in a worktree listing, without the local-branch
/// namespace, in lexicographic order and each once.
pub fn parse_worktree_branches(porcelain: &str) -> (r: Vec<String>)
    ensures
        strictly_sorted(texts(r@)),
        texts(r@).no_duplicates(),
        forall|b: Seq<char>|
            texts(r@).contains(b) <==> listed_branches(split_lines(porcelain@)).contains(b),
{
    let lines = split_into_lines(porcelain);
    let ghost all = texts(lines@);
    let mut names: Vec<String> = Vec::new();
    let mut k: usize = 0;
    while k < lines.len()
        invariant
            all == texts(lines@),
            all == split_lines(porcelain@),
            k <= lines.len(),
            strictly_sorted(texts(names@)),
            forall|b: Seq<char>|
                texts(names@).contains(b) <==> listed_branches(all.subrange(0, k as int)).contains(
                    b,
                ),
        decreases lines.len() - k,
    {
        let line = lines[k].as_str();
        let ghost seen = all.subrange(0, k as int);
        let ghost now = all.subrange(0, k + 1);
        assert(now[k as int] == line@);
        let ghost old_names = texts(names@);
        let ghost mut added: Option<Seq<char>> = None;
        if starts_with(line, BRANCH_TAG) {
            let rest = line.substring_char(BRANCH_TAG.unicode_len(), line.unicode_len());
            let name = strip_prefix_or_keep(trim(rest), HEADS_PREFIX);
            if name.unicode_len() != 0 {
                let name = to_owned_string(name);
                proof {
                    added = Some(name@);
                }
                insert_sorted(&mut names, name);
            }
        }
        assert(branch_of_line(line@) == added);
        assert forall|b: Seq<char>|
            texts(names@).contains(b) <==> listed_branches(now).contains(b) by {
            if listed_branches(now).contains(b) {
                let i = choose|i: int| 0 <= i < now.len() && branch_of_line(#[trigger] now[i]) == Some(b);
                if i < k {
                    assert(seen[i] == now[i]);
                    assert(listed_branches(seen).contains(b));
                }
            }
            if listed_branches(seen).contains(b) {
                let i = choose|i: int| 0 <= i < seen.len() && branch_of_line(#[trigger] seen[i]) == Some(b);
                assert(now[i] == seen[i]);
            }
        }
        k = k + 1;
    }
    assert(all.subrange(0, lines.len() as int) =~= all);
    proof {
        let t = texts(names@);
        assert forall|i: int, j: int| 0 <= i < t.len() && 0 <= j < t.len() && i != j implies t[i] != t[j] by {
            if i < j {
                lemma_text_lt_irreflexive(t[i]);
            } else {
                lemma_text_lt_irreflexive(t[j]);
            }
        }
    }
    names
}

/// Inserts `x` into a strictly sorted list at its place, unless it is
/// already there.
pub fn insert_sorted(v: &mut Vec<String>, x: String)
    requires
        strictly_sorted(texts(old(v)@)),
    ensures
        strictly_sorted(texts(final(v)@)),
        forall|b: Seq<char>|
            texts(final(v)@).contains(b) <==> (texts(old(v)@).contains(b) || b == x@),
{
    let ghost start = texts(v@);
    let mut i: usize = 0;
    while i < v.len() && text_less(v[i].as_str(), x.as_str())
        invariant
            texts(v@) == start,
            i <= v.len(),
            forall|j: int| 0 <= j < i ==> text_lt(#[trigger] start[j], x@),
        decreases v.len() - i,
    {
        i = i + 1;
    }
    if i < v.len() && crate::text::same_text(v[i].as_str(), x.as_str()) {
        assert(start[i as int] == x@);
        return;
    }
    proof {
        if i < v.len() {
            lemma_text_lt_total(start[i as int], x@);
        }
    }
    let ghost xv = x@;
    v.insert(i, x);
    let ghost t = texts(v@);
    assert(t =~= start.insert(i as int, xv));
    assert forall|p: int, q: int| 0 <= p < q < t.len() implies text_lt(#[trigger] t[p], #[trigger] t[q]) by {
        if q > i {
            if q - 1 > i {
                lemma_text_lt_transitive(xv, start[i as int], start[q - 1]);
            }
            assert(text_lt(xv, t[q]));
            if p < i {
                lemma_text_lt_transitive(t[p], xv, t[q]);
            }
        }
    }
    assert forall|b: Seq<char>| t.contains(b) <==> (start.contains(b) || b == xv) by {
        if start.contains(b) {
            let j = choose|j: int| 0 <= j < start.len() && start[j] == b;
            if j < i {
                assert(t[j] == b);
            } else {
                assert(t[j + 1] == b);
            }
        }
        if b == xv {
            assert(t[i as int] == b);
        }
    }
}

/// Appending a blank line to a listing leaves its records unchanged: the
/// last record is read the same whether or not a blank line ends it.
pub proof fn lemma_blank_line_ends_last_record(listing: Seq<char>, blank: Seq<char>)
    requires
        !blank.contains('\n'),
        trimmed(blank).len() == 0,
    ensures
        worktree_records(listing + seq!['\n'] + blank) == worktree_records(listing),
{
    lemma_split_lines_append_line(listing, blank);
    let lines = split_lines(listing);
    let more = lines.push(blank);
    assert(more.drop_last() =~= lines);
}

/// Splitting `s`, a newline and a text without newlines adds that text as
/// one more piece.
pub proof fn lemma_split_lines_append_line(s: Seq<char>, tail: Seq<char>)
    requires
        !tail.contains('\n'),
    ensures
        split_lines(s + seq!['\n'] + tail) == split_lines(s).push(tail),
    decreases tail.len(),
{
    if tail.len() == 0 {
        let t = s + seq!['\n'] + tail;
        assert(t.drop_last() =~= s);
        assert(t =~= s + seq!['\n']);
        assert(t.last() == '\n');
        assert(tail =~= Seq::<char>::empty());
    } else {
        let t = s + seq!['\n'] + tail;
        let shorter = tail.drop_last();
        assert(!shorter.contains('\n')) by {
            if shorter.contains('\n') {
                let j = choose|j: int| 0 <= j < shorter.len() && shorter[j] == '\n';
                assert(tail[j] == '\n');
            }
        }
        lemma_split_lines_append_line(s, shorter);
        assert(t.drop_last() =~= s + seq!['\n'] + shorter);
        assert(t.last() == tail.last());
        assert(tail.last() != '\n') by {
            assert(tail[tail.len() - 1] == tail.last());
        }
        let prev = split_lines(s).push(shorter);
        assert(shorter.push(tail.last()) =~= tail);
        assert(split_lines(t) == prev.update(prev.len() - 1, prev.last().push(t.last())));
        assert(prev.update(prev.len() - 1, prev.last().push(tail.last())) =~= split_lines(s).push(
            tail,
        ));
    }
}

} // verus!
