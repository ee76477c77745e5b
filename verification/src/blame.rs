//! `--blame-output`: which files to blame, under which Git-relative paths,
//! and how the blame comes back keyed by the scan-relative paths the
//! report uses. The report's paths are relative to the scan root, `git
//! blame` wants paths relative to the Git root, which can be a parent of
//! the scan root.

use vstd::prelude::*;
use crate::ordering::{keys_of, locate, strictly_sorted};
use crate::text::{chars_of, push_char, same_chars};

verus! {

/// `base` joined with `rel` as `std::path::Path::join` does it on the host
/// platform (`rel` replaces `base` when it is absolute).
pub uninterp spec fn path_join(base: Seq<char>, rel: Seq<char>) -> Seq<char>;

/// `std::path::Path::join` of `base` and `rel`, as text. Claimed: the
/// result is the joined path's text unchanged (joining UTF-8 paths with a
/// separator gives UTF-8); nothing else is claimed of it.
#[verifier::external_body]
fn join_path(base: &str, rel: &str) -> (r: String)
    ensures
        r@ == path_join(base@, rel@),
{
    std::path::Path::new(base).join(rel).to_string_lossy().into_owned()
}

/// `s` with every `\` turned into `/`.
pub open spec fn forward_slashes(s: Seq<char>) -> Seq<char> {
    s.map_values(|c: char| if c == '\\' { '/' } else { c })
}

/// The path `git blame` is given for a scan-relative `file` when the scan
/// root lies at `git_prefix` under the Git root.
pub open spec fn git_relative(git_prefix: Seq<char>, file: Seq<char>) -> Seq<char> {
    forward_slashes(path_join(git_prefix, file))
}

fn forward_slashed(s: &str) -> (r: String)
    ensures
        r@ == forward_slashes(s@),
{
    let v = chars_of(s);
    let mut r = String::new();
    let mut i: usize = 0;
    while i < v.len()
        invariant
            i <= v.len(),
            v@ == s@,
            r@ == forward_slashes(s@.take(i as int)),
        decreases v.len() - i,
    {
        let c = if v[i] == '\\' { '/' } else { v[i] };
        push_char(&mut r, c);
        assert(forward_slashes(s@.take(i + 1)) =~= forward_slashes(s@.take(i as int)).push(c));
        i += 1;
    }
    assert(s@.take(v.len() as int) =~= s@);
    r
}

/// The blame request for the files a report names: each distinct file
/// once, in ascending order, paired with its Git-relative path.
pub fn blame_request(git_prefix: &str, issue_files: Vec<String>) -> (r: Vec<(String, String)>)
    ensures
        strictly_sorted(keys_of(r@)),
        forall|f: Seq<char>| issue_files.deep_view().contains(f) <==> keys_of(r@).contains(f),
        forall|i: int|
            0 <= i < r@.len() ==> (#[trigger] r@[i]).1@ == git_relative(git_prefix@, r@[i].0@),
{
    let ghost files = issue_files.deep_view();
    let mut r: Vec<(String, String)> = Vec::new();
    let mut i: usize = 0;
    while i < issue_files.len()
        invariant
            i <= issue_files.len(),
            files == issue_files.deep_view(),
            strictly_sorted(keys_of(r@)),
            forall|f: Seq<char>| files.take(i as int).contains(f) <==> keys_of(r@).contains(f),
            forall|k: int|
                0 <= k < r@.len() ==> (#[trigger] r@[k]).1@ == git_relative(git_prefix@, r@[k].0@),
        decreases issue_files.len() - i,
    {
        let file = &issue_files[i];
        let key = chars_of(file.as_str());
        let ghost before = r@;
        let (pos, found) = locate(&r, &key);
        assert(files.take(i + 1) =~= files.take(i as int).push(file@));
        if !found {
            let git = forward_slashed(join_path(git_prefix, file.as_str()).as_str());
            r.insert(pos, (file.clone(), git));
            assert(keys_of(r@) =~= keys_of(before).insert(pos as int, file@));
            proof {
                keys_of(before).insert_ensures(pos as int, file@);
            }
            assert forall|k: int| 0 <= k < r@.len() implies (#[trigger] r@[k]).1@ == git_relative(
                git_prefix@,
                r@[k].0@,
            ) by {
                if k < pos {
                    assert(r@[k] == before[k]);
                } else if k > pos {
                    assert(r@[k] == before[k - 1]);
                }
            }
            assert forall|f: Seq<char>| files.take(i + 1).contains(f) <==> keys_of(r@).contains(
                f,
            ) by {
                if f == file@ {
                    assert(keys_of(r@)[pos as int] == f);
                    assert(files.take(i + 1)[i as int] == f);
                } else {
                    if files.take(i + 1).contains(f) {
                        let j = choose|j: int| 0 <= j < files.take(i + 1).len() && #[trigger] files.take(i + 1)[j] == f;
                        assert(files.take(i + 1)[i as int] == file@);
                        assert(files.take(i as int)[j] == f);
                        assert(files.take(i as int).contains(f));
                        assert(keys_of(before).contains(f));
                        let k = choose|k: int| 0 <= k < keys_of(before).len() && #[trigger] keys_of(before)[k] == f;
                        let ins = keys_of(before).insert(pos as int, file@);
                        if k < pos {
                            assert(ins[k] == keys_of(before)[k]);
                            assert(keys_of(r@)[k] == f);
                        } else {
                            assert(ins[k + 1] == keys_of(before)[k]);
                            assert(keys_of(r@)[k + 1] == f);
                        }
                    }
                    if keys_of(r@).contains(f) {
                        let k = choose|k: int| 0 <= k < keys_of(r@).len() && #[trigger] keys_of(r@)[k] == f;
                        if k < pos {
                            assert(keys_of(before)[k] == f);
                        } else {
                            assert(keys_of(before)[k - 1] == f);
                        }
                        assert(keys_of(before).contains(f));
                        let j = choose|j: int| 0 <= j < files.take(i as int).len() && #[trigger] files.take(i as int)[j] == f;
                        assert(files.take(i + 1)[j] == f);
                    }
                }
            }
        } else {
            assert forall|f: Seq<char>| files.take(i + 1).contains(f) <==> keys_of(r@).contains(
                f,
            ) by {
                if f == file@ {
                    assert(files.take(i + 1)[i as int] == f);
                } else if files.take(i + 1).contains(f) {
                    let j = choose|j: int| 0 <= j < files.take(i + 1).len() && #[trigger] files.take(i + 1)[j] == f;
                    assert(files.take(i as int)[j] == f);
                } else if keys_of(r@).contains(f) {
                    let j = choose|j: int| 0 <= j < files.take(i as int).len() && #[trigger] files.take(i as int)[j] == f;
                    assert(files.take(i + 1)[j] == f);
                }
            }
        }
        i += 1;
    }
    assert(files.take(issue_files.len() as int) =~= files);
    r
}

/// The scan-relative path the request gives for a Git-relative path: that
/// of the last request entry with that Git-relative path.
pub open spec fn scan_path_for(request: Seq<(Seq<char>, Seq<char>)>, git: Seq<char>) -> Option<
    Seq<char>,
>
    decreases request.len(),
{
    if request.len() == 0 {
        None
    } else if request.last().1 == git {
        Some(request.last().0)
    } else {
        scan_path_for(request.drop_last(), git)
    }
}

/// The plain view of a blame request.
pub open spec fn request_view(request: Seq<(String, String)>) -> Seq<(Seq<char>, Seq<char>)> {
    request.map_values(|e: (String, String)| (e.0@, e.1@))
}

/// The plain view of keyed blame results.
pub open spec fn keyed_view<T>(entries: Seq<(String, T)>) -> Seq<(Seq<char>, T)> {
    entries.map_values(|e: (String, T)| (e.0@, e.1))
}

/// The blamed entries whose Git-relative path the request names, in
/// order, each keyed by its scan-relative path.
pub open spec fn rekeyed<T>(request: Seq<(Seq<char>, Seq<char>)>, blamed: Seq<(Seq<char>, T)>) -> Seq<
    (Seq<char>, T),
>
    decreases blamed.len(),
{
    if blamed.len() == 0 {
        Seq::empty()
    } else {
        let prev = rekeyed(request, blamed.drop_last());
        match scan_path_for(request, blamed.last().0) {
            Some(s) => prev.push((s, blamed.last().1)),
            None => prev,
        }
    }
}

fn find_scan_path(request: &Vec<(String, String)>, git: &String) -> (r: Option<String>)
    ensures
        r.deep_view() == scan_path_for(request_view(request@), git@),
{
    let g = chars_of(git.as_str());
    let ghost rv = request_view(request@);
    let mut k: usize = request.len();
    assert(rv.take(k as int) =~= rv);
    while k > 0
        invariant
            k <= request@.len(),
            g@ == git@,
            rv == request_view(request@),
            scan_path_for(rv, git@) == scan_path_for(rv.take(k as int), git@),
        decreases k,
    {
        let ghost t = rv.take(k as int);
        assert(t.last() == rv[k - 1]);
        assert(t.drop_last() =~= rv.take(k - 1));
        if same_chars(&chars_of(request[k - 1].1.as_str()), &g) {
            return Some(request[k - 1].0.clone());
        }
        k -= 1;
    }
    None
}

/// The blame results, keyed back by the scan-relative paths the report
/// uses: exactly the entries whose Git-relative path the request names, in
/// the order they came.
pub fn rekey_blame<T>(request: &Vec<(String, String)>, blamed: Vec<(String, T)>) -> (r: Vec<
    (String, T),
>)
    ensures
        keyed_view(r@) == rekeyed(request_view(request@), keyed_view(blamed@)),
{
    let ghost all = keyed_view(blamed@);
    let ghost rv = request_view(request@);
    assert(all.len() == blamed.len());
    let mut rest = blamed;
    let mut r: Vec<(String, T)> = Vec::new();
    let mut i: usize = 0;
    assert(all.take(0) =~= Seq::<(Seq<char>, T)>::empty());
    assert(keyed_view(r@) =~= Seq::<(Seq<char>, T)>::empty());
    while rest.len() > 0
        invariant
            i + rest@.len() == all.len(),
            all.len() <= usize::MAX,
            rv == request_view(request@),
            keyed_view(rest@) == all.skip(i as int),
            keyed_view(r@) == rekeyed(rv, all.take(i as int)),
        decreases rest.len(),
    {
        let ghost before_rest = rest@;
        let (git, value) = rest.remove(0);
        let ghost entry = (git@, value);
        assert(all[i as int] == keyed_view(before_rest)[0]);
        assert(keyed_view(rest@) =~= all.skip(i + 1)) by {
            assert(rest@ =~= before_rest.subrange(1, before_rest.len() as int));
            assert forall|k: int| 0 <= k < rest@.len() implies keyed_view(rest@)[k] == all.skip(
                i + 1,
            )[k] by {
                assert(rest@[k] == before_rest[k + 1]);
                assert(keyed_view(before_rest)[k + 1] == all.skip(i as int)[k + 1]);
            }
        }
        assert(all.take(i + 1).drop_last() =~= all.take(i as int));
        assert(all.take(i + 1).last() == entry);
        let ghost before = keyed_view(r@);
        match find_scan_path(request, &git) {
            Some(scan) => {
                r.push((scan, value));
                assert(keyed_view(r@) =~= before.push((r@.last().0@, entry.1)));
            },
            None => {},
        }
        i += 1;
    }
    assert(all.take(i as int) =~= all);
    r
}

} // verus!
