//! Helpers for completing the command line interactively: where the
//! destination is among the words typed so far, and which branch names fit
//! what has been typed of the source branch.
use vstd::prelude::*;

use crate::listing::texts;
use crate::text::{has_prefix, same_text, starts_with};

verus! {

/// The word after which only operands follow.
pub const END_OF_OPTIONS: &'static str = "--";

/// The short form of the verbose flag.
pub const DEBUG_SHORT: &'static str = "-d";

/// The long form of the verbose flag.
pub const DEBUG_LONG: &'static str = "--debug";

/// The destination among `words`, read from position `k` on.
pub open spec fn destination_from(words: Seq<Seq<char>>, k: int) -> Option<Seq<char>>
    decreases words.len() - k,
{
    if k >= words.len() || k < 0 {
        None
    } else if words[k] == END_OF_OPTIONS@ {
        if k + 1 < words.len() {
            Some(words[k + 1])
        } else {
            None
        }
    } else if words[k] == DEBUG_SHORT@ || words[k] == DEBUG_LONG@ {
        destination_from(words, k + 1)
    } else {
        Some(words[k])
    }
}

/// The destination directory among the words of a command line being
/// completed: the first word after the program's name that is not the
/// verbose flag, or the word after `--`.
pub fn completion_destination(words: &Vec<String>) -> (r: Option<String>)
    ensures
        r is Some ==> destination_from(texts(words@), 1) == Some(r->0@),
        r is None ==> destination_from(texts(words@), 1) is None,
{
    let ghost ws = texts(words@);
    let mut k: usize = 1;
    while k < words.len()
        invariant
            ws == texts(words@),
            1 <= k,
            destination_from(ws, 1) == destination_from(ws, k as int),
        decreases words.len() - k,
    {
        let w = words[k].as_str();
        if same_text(w, END_OF_OPTIONS) {
            if k + 1 < words.len() {
                return Some(words[k + 1].clone());
            }
            return None;
        }
        if !same_text(w, DEBUG_SHORT) && !same_text(w, DEBUG_LONG) {
            return Some(words[k].clone());
        }
        k = k + 1;
    }
    None
}

/// The names among `branches` that start with `prefix`, in their order.
pub open spec fn matching_names(branches: Seq<Seq<char>>, prefix: Seq<char>) -> Seq<Seq<char>> {
    branches.filter(|b: Seq<char>| has_prefix(b, prefix))
}

/// The branch names that complete `prefix`.
pub fn branch_candidates(branches: &Vec<String>, prefix: &str) -> (r: Vec<String>)
    ensures
        texts(r@) == matching_names(texts(branches@), prefix@),
{
    let ghost all = texts(branches@);
    let mut r: Vec<String> = Vec::new();
    let mut k: usize = 0;
    assert(all.subrange(0, 0) =~= Seq::<Seq<char>>::empty());
    proof {
        reveal(Seq::filter);
    }
    assert(texts(r@) =~= Seq::<Seq<char>>::empty());
    while k < branches.len()
        invariant
            all == texts(branches@),
            k <= branches.len(),
            texts(r@) == matching_names(all.subrange(0, k as int), prefix@),
        decreases branches.len() - k,
    {
        let ghost before = texts(r@);
        proof {
            reveal(Seq::filter);
        }
        assert(all.subrange(0, k + 1).drop_last() =~= all.subrange(0, k as int));
        assert(all.subrange(0, k + 1).last() == branches[k as int]@);
        if starts_with(branches[k].as_str(), prefix) {
            r.push(branches[k].clone());
            assert(texts(r@) =~= before.push(branches[k as int]@));
        }
        k = k + 1;
    }
    assert(all.subrange(0, branches.len() as int) =~= all);
    r
}

} // verus!
