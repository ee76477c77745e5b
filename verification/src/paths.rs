//! Path decisions of the scan pipeline: how a scanned file is named in the
//! report, and the upward search for the Git worktree a path lives in.

use vstd::prelude::*;
use crate::text::{chars_of, string_from_chars, sub_chars};

verus! {

/// `s` without its leading `/` characters.
pub open spec fn without_leading_slashes(s: Seq<char>) -> Seq<char>
    decreases s.len(),
{
    if s.len() > 0 && s[0] == '/' {
        without_leading_slashes(s.drop_first())
    } else {
        s
    }
}

proof fn lemma_without_leading_slashes_skip(s: Seq<char>, i: int)
    requires
        0 <= i <= s.len(),
        forall|k: int| 0 <= k < i ==> #[trigger] s[k] == '/',
    ensures
        without_leading_slashes(s) == without_leading_slashes(s.skip(i)),
    decreases i,
{
    if i > 0 {
        assert(s.skip(1).skip(i - 1) =~= s.skip(i));
        assert forall|k: int| 0 <= k < i - 1 implies #[trigger] s.skip(1)[k] == '/' by {
            assert(s.skip(1)[k] == s[k + 1]);
        }
        lemma_without_leading_slashes_skip(s.skip(1), i - 1);
        assert(s.drop_first() =~= s.skip(1));
    } else {
        assert(s.skip(0) =~= s);
    }
}

/// The name a scanned file gets in the report: its path relative to the
/// scan root, or, when the root is the file itself (so the relative path is
/// empty), its full path with any leading `/` stripped — a report path is
/// never absolute.
pub fn display_path(path: &str, relative: &str) -> (r: String)
    ensures
        r@ == if relative@.len() == 0 {
            without_leading_slashes(path@)
        } else {
            relative@
        },
        relative@.len() == 0 ==> !(r@.len() > 0 && r@[0] == '/'),
{
    let rel = chars_of(relative);
    if rel.len() > 0 {
        return string_from_chars(&rel);
    }
    let p = chars_of(path);
    let mut i: usize = 0;
    while i < p.len() && p[i] == '/'
        invariant
            i <= p.len(),
            p@ == path@,
            forall|k: int| 0 <= k < i ==> #[trigger] p@[k] == '/',
        decreases p.len() - i,
    {
        i += 1;
    }
    proof {
        lemma_without_leading_slashes_skip(p@, i as int);
        let rest = p@.skip(i as int);
        if rest.len() > 0 {
            assert(rest[0] == p@[i as int]);
        }
        assert(without_leading_slashes(rest) == rest);
        assert(p@.subrange(i as int, p@.len() as int) =~= rest);
    }
    let tail = sub_chars(&p, i, p.len());
    string_from_chars(&tail)
}

/// The parent of `path` as `std::path::Path::parent` computes it on the
/// host platform (its separators and prefixes): the path without its final
/// component, or `None` for a root, a prefix or the empty path.
pub uninterp spec fn path_parent(path: Seq<char>) -> Option<Seq<char>>;

/// `std::path::Path::parent` of `path`. Claimed: the result is the parent's
/// text unchanged (the parent of a UTF-8 path is a prefix of it), and, as
/// the documentation says it is the path without its final component, it is
/// shorter than `path`; nothing else is claimed of it.
#[verifier::external_body]
fn parent_of(path: &str) -> (r: Option<String>)
    ensures
        r.deep_view() == path_parent(path@),
        r matches Some(p) ==> p@.len() < path@.len(),
{
    match std::path::Path::new(path).parent() {
        Some(p) => Some(p.to_string_lossy().into_owned()),
        None => None,
    }
}

/// The nearest directory, going up from `dir` through its parents, that
/// `has_git` holds of (that holds a `.git` entry), if any.
pub open spec fn nearest_git_root(dir: Seq<char>, has_git: spec_fn(Seq<char>) -> bool) -> Option<
    Seq<char>,
>
    decreases dir.len(),
{
    if has_git(dir) {
        Some(dir)
    } else {
        match path_parent(dir) {
            Some(p) => if p.len() < dir.len() {
                nearest_git_root(p, has_git)
            } else {
                None
            },
            None => None,
        }
    }
}

/// The directories an upward search from `dir` probes at most, nearest
/// first: `dir` and its parents in turn.
pub open spec fn search_chain(dir: Seq<char>) -> Seq<Seq<char>>
    decreases dir.len(),
{
    match path_parent(dir) {
        Some(p) => if p.len() < dir.len() {
            seq![dir] + search_chain(p)
        } else {
            seq![dir]
        },
        None => seq![dir],
    }
}

/// The search finds the nearest enclosing directory holding `.git`: the
/// first directory of the chain from `dir` upward that holds it, or none
/// when no directory of the chain does.
pub proof fn law_git_root_is_the_nearest(dir: Seq<char>, has_git: spec_fn(Seq<char>) -> bool)
    ensures
        nearest_git_root(dir, has_git) matches Some(root) ==> exists|j: int|
            0 <= j < search_chain(dir).len() && search_chain(dir)[j] == root && has_git(root)
                && forall|k: int| 0 <= k < j ==> !has_git(#[trigger] search_chain(dir)[k]),
        nearest_git_root(dir, has_git) is None ==> forall|k: int|
            0 <= k < search_chain(dir).len() ==> !has_git(#[trigger] search_chain(dir)[k]),
    decreases dir.len(),
{
    let chain = search_chain(dir);
    assert(chain[0] == dir);
    match path_parent(dir) {
        Some(p) => if p.len() < dir.len() {
            law_git_root_is_the_nearest(p, has_git);
            let rest = search_chain(p);
            assert(chain == seq![dir] + rest);
            assert forall|k: int| 1 <= k < chain.len() implies #[trigger] chain[k] == rest[k - 1] by {}
            if !has_git(dir) {
                if let Some(root) = nearest_git_root(dir, has_git) {
                    let j = choose|j: int|
                        0 <= j < rest.len() && rest[j] == root && has_git(root) && forall|k: int|
                            0 <= k < j ==> !has_git(#[trigger] rest[k]);
                    assert(chain[j + 1] == root);
                    assert forall|k: int| 0 <= k < j + 1 implies !has_git(#[trigger] chain[k]) by {
                        if k > 0 {
                            assert(chain[k] == rest[k - 1]);
                        }
                    }
                } else {
                    assert forall|k: int| 0 <= k < chain.len() implies !has_git(#[trigger] chain[k]) by {
                        if k > 0 {
                            assert(chain[k] == rest[k - 1]);
                        }
                    }
                }
            }
        } else {
        },
        None => {},
    }
}

/// The search ends: it probes at most one directory more than the path has
/// characters.
pub proof fn law_search_chain_is_bounded(dir: Seq<char>)
    ensures
        search_chain(dir).len() <= dir.len() + 1,
    decreases dir.len(),
{
    match path_parent(dir) {
        Some(p) => if p.len() < dir.len() {
            law_search_chain_is_bounded(p);
        },
        None => {},
    }
}

/// The search for the Git worktree a path lives in, one decision at a time:
/// probe a directory for a `.git` entry, or stop with the worktree root, or
/// stop with none.
#[derive(Debug, PartialEq, Eq)]
pub enum GitRootSearch {
    /// Look for `<dir>/.git`, then call [`git_root_step`] with the answer.
    Probe(String),
    /// The directory holding `.git`: the worktree root.
    Found(String),
    /// No directory up to the root holds `.git`.
    NotFound,
}

/// The probe of `dir` if there is a directory, else the end of the search.
pub open spec fn probe_or_stop(dir: Option<Seq<char>>, r: GitRootSearch) -> bool {
    match dir {
        Some(d) => r matches GitRootSearch::Probe(p) && p@ == d,
        None => r is NotFound,
    }
}

/// Starts the upward search for a `.git` directory from `start`: the first
/// directory probed is `start` itself when it is a directory, otherwise its
/// parent (a path with no parent ends the search at once). Following
/// [`git_root_step`] from there ends, within the bound of
/// [`law_search_chain_is_bounded`], with [`nearest_git_root`] of the first
/// directory probed.
pub fn find_git_root(start: &str, start_is_dir: bool) -> (r: GitRootSearch)
    ensures
        probe_or_stop(
            if start_is_dir {
                Some(start@)
            } else {
                path_parent(start@)
            },
            r,
        ),
{
    if start_is_dir {
        GitRootSearch::Probe(string_from_chars(&chars_of(start)))
    } else {
        match parent_of(start) {
            Some(p) => GitRootSearch::Probe(p),
            None => GitRootSearch::NotFound,
        }
    }
}

/// One step of the search after probing `dir`: it is the root when it holds
/// `.git`; otherwise the search moves up to its (shorter) parent, and ends
/// when there is none. Whatever the filesystem, each step keeps the answer:
/// the nearest root from the next directory probed is the nearest root from
/// `dir`.
pub fn git_root_step(dir: &str, has_git: bool) -> (r: GitRootSearch)
    ensures
        has_git ==> (r matches GitRootSearch::Found(d) && d@ == dir@),
        !has_git ==> probe_or_stop(path_parent(dir@), r),
        r matches GitRootSearch::Probe(p) ==> p@.len() < dir@.len(),
        forall|f: spec_fn(Seq<char>) -> bool|
            #![trigger nearest_git_root(dir@, f)]
            f(dir@) == has_git ==> {
                &&& r matches GitRootSearch::Found(d) ==> nearest_git_root(dir@, f) == Some(d@)
                &&& r matches GitRootSearch::Probe(p) ==> nearest_git_root(dir@, f)
                    == nearest_git_root(p@, f)
                &&& r is NotFound ==> nearest_git_root(dir@, f) is None
            },
{
    if has_git {
        GitRootSearch::Found(string_from_chars(&chars_of(dir)))
    } else {
        match parent_of(dir) {
            Some(p) => GitRootSearch::Probe(p),
            None => GitRootSearch::NotFound,
        }
    }
}

/// The final component of `path` as `std::path::Path::file_name` computes
/// it on the host platform: `None` when the path ends in `..` or is a root
/// or empty.
pub uninterp spec fn path_file_name(path: Seq<char>) -> Option<Seq<char>>;

/// `std::path::Path::file_name` of `path`, as text. The result is taken to
/// be the component's text unchanged; nothing else is claimed of it.
#[verifier::external_body]
pub(crate) fn file_name_of(path: &str) -> (r: Option<String>)
    ensures
        r.deep_view() == path_file_name(path@),
{
    match std::path::Path::new(path).file_name() {
        Some(n) => Some(n.to_string_lossy().into_owned()),
        None => None,
    }
}

/// The directory a scan's side files are relative to: the scanned path
/// itself when it is a directory, else its parent (`.` when it has none).
pub fn scan_root_dir(path: &str, path_is_dir: bool) -> (r: String)
    ensures
        r@ == if path_is_dir {
            path@
        } else {
            match path_parent(path@) {
                Some(p) => p,
                None => "."@,
            }
        },
{
    if path_is_dir {
        string_from_chars(&chars_of(path))
    } else {
        match parent_of(path) {
            Some(p) => p,
            None => string_from_chars(&chars_of(".")),
        }
    }
}

} // verus!
