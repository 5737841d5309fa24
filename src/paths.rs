//! Directory paths, written with `/` between their components.
use vstd::prelude::*;
use vstd::string::StrSliceExecFns;
use vstd::string::StringExecFns;

use crate::listing::opt_view;
use crate::text::{has_prefix, trim, trimmed};

verus! {

/// The separator between the components of a path.
pub const SEPARATOR: &'static str = "/";

/// `path` taken relative to `base`: an absolute `path` stands as it is;
/// otherwise it follows `base`, with a separator between the two unless
/// `base` is empty or already ends with one.
pub open spec fn joined_path(base: Seq<char>, path: Seq<char>) -> Seq<char> {
    if has_prefix(path, SEPARATOR@) {
        path
    } else if base.len() == 0 || base.last() == '/' {
        base + path
    } else {
        base + SEPARATOR@ + path
    }
}

/// `p` without trailing separators and trailing `.` components, the root
/// itself kept.
pub open spec fn trim_path_end(p: Seq<char>) -> Seq<char>
    decreases p.len(),
{
    if p.len() > 1 && p.last() == '/' {
        trim_path_end(p.drop_last())
    } else if p.len() > 1 && p.last() == '.' && p[p.len() - 2] == '/' {
        trim_path_end(p.drop_last())
    } else {
        p
    }
}

/// The position of the last separator in `p`, or -1 when it has none.
pub open spec fn last_separator(p: Seq<char>) -> int
    decreases p.len(),
{
    if p.len() == 0 {
        -1
    } else if p.last() == '/' {
        p.len() - 1
    } else {
        last_separator(p.drop_last())
    }
}

/// The directory that holds `p`, as `Path::parent` gives it: the last
/// component, with the separators and `.` components around it, is removed.
/// The parent of a single relative component is the empty path; the empty
/// path and the root have none.
pub open spec fn parent_path(p: Seq<char>) -> Option<Seq<char>> {
    let q = trim_path_end(p);
    let i = last_separator(q);
    if q.len() == 0 {
        None
    } else if i < 0 {
        Some(Seq::empty())
    } else if i == 0 && q.len() == 1 {
        None
    } else if i == 0 {
        Some(SEPARATOR@)
    } else {
        Some(trim_path_end(q.subrange(0, i)))
    }
}

/// The root of the repository whose shared metadata directory the tool
/// reports as `common_dir` for the worktree `dir`: the parent of that
/// directory taken relative to `dir`, or `dir` itself when it has no parent.
pub open spec fn repo_root_of(dir: Seq<char>, common_dir: Seq<char>) -> Seq<char> {
    match parent_path(joined_path(dir, common_dir)) {
        Some(p) => p,
        None => dir,
    }
}

/// `path` taken relative to `base`, unless it is absolute.
pub fn normalize_path(base: &str, path: &str) -> (r: String)
    ensures
        r@ == joined_path(base@, path@),
{
    if crate::text::starts_with(path, SEPARATOR) {
        return String::from_str(path);
    }
    let n = base.unicode_len();
    let mut r = String::from_str(base);
    if n == 0 || base.get_char(n - 1) == '/' {
        r.append(path);
    } else {
        r.append(SEPARATOR);
        r.append(path);
    }
    r
}

/// The length of `p` without trailing separators and trailing `.`
/// components.
fn trimmed_path_len(p: &str, n: usize) -> (r: usize)
    requires
        n <= p@.len(),
    ensures
        r <= n,
        trim_path_end(p@.subrange(0, n as int)) == p@.subrange(0, r as int),
{
    let mut k: usize = n;
    while k > 1 && (p.get_char(k - 1) == '/' || (p.get_char(k - 1) == '.' && p.get_char(k - 2)
        == '/'))
        invariant
            n <= p@.len(),
            k <= n,
            trim_path_end(p@.subrange(0, n as int)) == trim_path_end(p@.subrange(0, k as int)),
        decreases k,
    {
        assert(p@.subrange(0, k as int).drop_last() =~= p@.subrange(0, k - 1));
        k = k - 1;
    }
    k
}

/// The directory that holds `p`, as `parent_path` describes it.
pub fn parent_dir(p: &str) -> (r: Option<String>)
    ensures
        opt_view(r) == parent_path(p@),
{
    let n = p.unicode_len();
    assert(p@.subrange(0, n as int) =~= p@);
    let m = trimmed_path_len(p, n);
    let ghost q = p@.subrange(0, m as int);
    if m == 0 {
        return None;
    }
    let mut k: usize = m;
    while k > 0 && p.get_char(k - 1) != '/'
        invariant
            m <= n == p@.len(),
            k <= m,
            last_separator(q) == last_separator(p@.subrange(0, k as int)),
        decreases k,
    {
        assert(p@.subrange(0, k as int).drop_last() =~= p@.subrange(0, k - 1));
        k = k - 1;
    }
    if k == 0 {
        return Some(String::new());
    }
    assert(last_separator(q) == k - 1);
    if k == 1 && m == 1 {
        return None;
    }
    if k == 1 {
        proof {
            reveal_strlit("/");
        }
        return Some(String::from_str(SEPARATOR));
    }
    assert(q.subrange(0, k - 1) =~= p@.subrange(0, k - 1));
    let len = trimmed_path_len(p, k - 1);
    Some(String::from_str(p.substring_char(0, len)))
}

/// The root of the repository, from the metadata directory that the tool
/// reports for the worktree `dir`.
pub fn determine_repo_root(dir: &str, common_dir_output: &str) -> (r: String)
    ensures
        r@ == repo_root_of(dir@, trimmed(common_dir_output@)),
{
    let git_dir = normalize_path(dir, trim(common_dir_output));
    match parent_dir(git_dir.as_str()) {
        Some(p) => p,
        None => String::from_str(dir),
    }
}

} // verus!
