//! Saved local changes: how a save is judged, and how a saved entry is found
//! again in the stash list.
use vstd::prelude::*;
use vstd::string::StrSliceExecFns;
use vstd::string::StringExecFns;

use crate::git::{combined_output, combined_text, GitOutput};
use crate::listing::{opt_view, texts};
use crate::text::{has_prefix, same_text, split_into_lines, split_lines, starts_with, trim, trimmed};

verus! {

/// What the tool answers when a worktree has nothing to save.
pub const NO_CHANGES: &'static str = "No local changes to save";

/// The start of the message with which a worktree's changes are saved.
pub const STASH_MESSAGE_PREFIX: &'static str = "swap-stash-";

/// The separator between a stash entry's commit and its reference.
pub const ENTRY_SEPARATOR: &'static str = ":";

/// One worktree's saved changes: the commit that holds them, where the entry
/// stood in the stash list right after the save, and the branch they were
/// made on.
pub struct StashRecord {
    pub hash: String,
    pub reference: Option<String>,
    pub branch: String,
}

/// The view of a saved entry.
pub type StashView = (Seq<char>, Option<Seq<char>>, Seq<char>);

impl View for StashRecord {
    type V = StashView;

    open spec fn view(&self) -> StashView {
        (self.hash@, opt_view(self.reference), self.branch@)
    }
}

/// The message with which the changes of a worktree on `branch` are saved.
pub open spec fn stash_message(branch: Seq<char>) -> Seq<char> {
    STASH_MESSAGE_PREFIX@ + branch
}

/// The message with which the changes of a worktree on `branch` are saved.
pub fn stash_message_for(branch: &str) -> (r: String)
    ensures
        r@ == stash_message(branch@),
{
    let mut m = String::from_str(STASH_MESSAGE_PREFIX);
    m.append(branch);
    m
}

/// Whether a save reported that there was nothing to save.
pub open spec fn nothing_to_save(out: Seq<char>, err: Seq<char>) -> bool {
    trimmed(combined_text(out, err)) == NO_CHANGES@
}

/// What a save came to: `Ok(false)` when there was nothing to save,
/// `Ok(true)` when a new entry holds the changes, and otherwise the failure
/// with the run's output text.
pub fn stash_worktree(output: &GitOutput) -> (r: Result<bool, String>)
    ensures
        nothing_to_save(output.stdout@, output.stderr@) ==> r == Ok::<bool, String>(false),
        !nothing_to_save(output.stdout@, output.stderr@) && output.success ==> r == Ok::<
            bool,
            String,
        >(true),
        !nothing_to_save(output.stdout@, output.stderr@) && !output.success ==> r is Err
            && r->Err_0@ == combined_text(output.stdout@, output.stderr@),
{
    let combined = combined_output(output);
    if same_text(trim(combined.as_str()), NO_CHANGES) {
        return Ok(false);
    }
    if !output.success {
        return Err(combined);
    }
    Ok(true)
}

/// The reference that a stash-list line gives for the entry with commit
/// `hash`: the line must hold `hash` before its first separator.
pub open spec fn line_reference(line: Seq<char>, hash: Seq<char>) -> Option<Seq<char>> {
    if !hash.contains(':') && has_prefix(line, hash + ENTRY_SEPARATOR@) {
        Some(trimmed(line.subrange(hash.len() as int + 1, line.len() as int)))
    } else {
        None
    }
}

/// The reference of the first line of a stash list that is about `hash`.
pub open spec fn first_reference(lines: Seq<Seq<char>>, hash: Seq<char>) -> Option<Seq<char>>
    decreases lines.len(),
{
    if lines.len() == 0 {
        None
    } else if line_reference(lines[0], hash) is Some {
        line_reference(lines[0], hash)
    } else {
        first_reference(lines.drop_first(), hash)
    }
}

fn contains_char(s: &str, c: char) -> (r: bool)
    ensures
        r == s@.contains(c),
{
    let n = s.unicode_len();
    let mut k: usize = 0;
    while k < n
        invariant
            n == s@.len(),
            k <= n,
            forall|j: int| 0 <= j < k ==> s@[j] != c,
        decreases n - k,
    {
        if s.get_char(k) == c {
            return true;
        }
        k = k + 1;
    }
    false
}

/// Where the entry with commit `hash` stands in a stash list whose lines
/// read `<commit>:<reference>`.
pub fn find_stash_reference(listing: &str, hash: &str) -> (r: Option<String>)
    ensures
        opt_view(r) == first_reference(split_lines(listing@), hash@),
{
    let lines = split_into_lines(listing);
    let ghost all = texts(lines@);
    if contains_char(hash, ':') {
        proof {
            lemma_no_reference(all, hash@);
        }
        return None;
    }
    let mut key = String::from_str(hash);
    key.append(ENTRY_SEPARATOR);
    proof {
        reveal_strlit(":");
    }
    let mut k: usize = 0;
    assert(all.skip(0) =~= all);
    while k < lines.len()
        invariant
            all == texts(lines@),
            all == split_lines(listing@),
            !hash@.contains(':'),
            key@ == hash@ + ENTRY_SEPARATOR@,
            ENTRY_SEPARATOR@.len() == 1,
            k <= lines.len(),
            first_reference(all, hash@) == first_reference(all.skip(k as int), hash@),
        decreases lines.len() - k,
    {
        let line = lines[k].as_str();
        assert(all.skip(k as int)[0] == line@);
        assert(all.skip(k as int).drop_first() =~= all.skip(k + 1));
        if starts_with(line, key.as_str()) {
            let rest = line.substring_char(key.unicode_len(), line.unicode_len());
            return Some(String::from_str(trim(rest)));
        }
        k = k + 1;
    }
    None
}

proof fn lemma_no_reference(lines: Seq<Seq<char>>, hash: Seq<char>)
    requires
        hash.contains(':'),
    ensures
        first_reference(lines, hash) is None,
    decreases lines.len(),
{
    if lines.len() > 0 {
        lemma_no_reference(lines.drop_first(), hash);
    }
}

} // verus!
