//! Per-line content hashes of the scanned files, for tracking an issue
//! across analyses by the line it sits on. Each file is read at most once
//! per scan: the program reads a file the first time one of its lines is
//! asked for and stores the hashes here; later lookups come from the store.

use vstd::prelude::*;
use crate::text::{chars_of, same_chars, string_from_chars};

verus! {

/// The hash of the 1-based `line` among a file's line hashes: `None` for
/// line 0 or a line past the end.
pub open spec fn line_hash_at(hashes: Seq<u64>, line: u32) -> Option<u64> {
    if 1 <= line && line <= hashes.len() {
        Some(hashes[line - 1])
    } else {
        None
    }
}

/// The store after storing `hashes` for `file`: a file already stored keeps
/// its first hashes.
pub open spec fn stored(m: Map<Seq<char>, Seq<u64>>, file: Seq<char>, hashes: Seq<u64>) -> Map<
    Seq<char>,
    Seq<u64>,
> {
    if m.contains_key(file) {
        m
    } else {
        m.insert(file, hashes)
    }
}

/// What a lookup of `line` in `file` finds: `None` when the file is not
/// stored yet (it must be read first), otherwise the line's hash if the
/// line exists.
pub open spec fn lookup(m: Map<Seq<char>, Seq<u64>>, file: Seq<char>, line: u32) -> Option<
    Option<u64>,
> {
    if m.contains_key(file) {
        Some(line_hash_at(m[file], line))
    } else {
        None
    }
}

/// Line hashes of the files under a scan root, keyed by the path relative
/// to the root, exactly as the report records it. A file that could not be
/// read is stored with no lines. The store is a list of distinct paths
/// with their hashes, viewed as a map: a `String`-keyed `HashMap` would
/// give no key model to reason with.
pub struct FileLineHashes {
    root: String,
    files: Vec<(String, Vec<u64>)>,
}

impl FileLineHashes {
    /// No path is stored twice.
    #[verifier::type_invariant]
    spec fn distinct_paths(self) -> bool {
        forall|i: int, j: int|
            0 <= i < j < self.files@.len() ==> #[trigger] self.files@[i].0@
                != #[trigger] self.files@[j].0@
    }

    /// The scan root the stored paths are relative to.
    pub closed spec fn root_spec(&self) -> Seq<char> {
        self.root@
    }

    /// The stored hashes, by relative path.
    pub closed spec fn cache(&self) -> Map<Seq<char>, Seq<u64>> {
        Map::new(
            |f: Seq<char>| exists|i: int| 0 <= i < self.files@.len() && #[trigger] self.files@[i].0@ == f,
            |f: Seq<char>|
                {
                    let i = choose|i: int|
                        0 <= i < self.files@.len() && #[trigger] self.files@[i].0@ == f;
                    self.files@[i].1@
                },
        )
    }

    /// An empty store for the files under `root`.
    pub fn new(root: &str) -> (r: Self)
        ensures
            r.root_spec() == root@,
            r.cache() == Map::<Seq<char>, Seq<u64>>::empty(),
    {
        let r = FileLineHashes { root: string_from_chars(&chars_of(root)), files: Vec::new() };
        assert(r.cache() =~= Map::<Seq<char>, Seq<u64>>::empty());
        r
    }

    /// The scan root, which the stored paths are relative to.
    pub fn root(&self) -> (r: &str)
        ensures
            r@ == self.root_spec(),
    {
        self.root.as_str()
    }

    /// Where `file` is stored, if it is.
    fn position(&self, file: &str) -> (r: Option<usize>)
        ensures
            r matches Some(i) ==> i < self.files@.len() && self.files@[i as int].0@ == file@,
            r is None ==> !self.cache().contains_key(file@),
    {
        let f = chars_of(file);
        let mut i: usize = 0;
        while i < self.files.len()
            invariant
                i <= self.files.len(),
                f@ == file@,
                forall|k: int| 0 <= k < i ==> #[trigger] self.files@[k].0@ != file@,
            decreases self.files.len() - i,
        {
            if same_chars(&chars_of(self.files[i].0.as_str()), &f) {
                return Some(i);
            }
            i += 1;
        }
        None
    }

    /// What a lookup of `line` (1-based) in `file` finds: `None` when the
    /// file is not stored yet, otherwise `Some` of the line's hash, which is
    /// `None` for line 0 or a line past the end of the file.
    pub fn cached_line_hash(&self, file: &str, line: u32) -> (r: Option<Option<u64>>)
        ensures
            r == lookup(self.cache(), file@, line),
    {
        proof {
            use_type_invariant(self);
        }
        match self.position(file) {
            Some(i) => {
                proof {
                    assert(self.cache().contains_key(file@));
                    let j = choose|j: int|
                        0 <= j < self.files@.len() && #[trigger] self.files@[j].0@ == file@;
                    if j != i {
                        if j < i {
                            assert(self.files@[j].0@ != self.files@[i as int].0@);
                        } else {
                            assert(self.files@[i as int].0@ != self.files@[j].0@);
                        }
                    }
                }
                let hashes = &self.files[i].1;
                if line >= 1 && (line as usize) <= hashes.len() {
                    Some(Some(hashes[(line - 1) as usize]))
                } else {
                    Some(None)
                }
            },
            None => None,
        }
    }

    /// Stores the line hashes of `file`, unless it is already stored: a
    /// file is read once per scan and keeps its first hashes.
    pub fn insert_file(&mut self, file: &str, hashes: Vec<u64>)
        ensures
            final(self).root_spec() == old(self).root_spec(),
            final(self).cache() == stored(old(self).cache(), file@, hashes@),
    {
        proof {
            use_type_invariant(&*self);
        }
        let ghost before = self.cache();
        match self.position(file) {
            Some(i) => {
                proof {
                    assert(before.contains_key(file@));
                }
            },
            None => {
                let ghost old_files = self.files@;
                let entry = (string_from_chars(&chars_of(file)), hashes);
                let mut files: Vec<(String, Vec<u64>)> = Vec::new();
                std::mem::swap(&mut files, &mut self.files);
                files.push(entry);
                proof {
                    assert(files@ == old_files.push(entry));
                    assert forall|i: int, j: int|
                        0 <= i < j < files@.len() implies #[trigger] files@[i].0@
                            != #[trigger] files@[j].0@ by {
                        if j == old_files.len() {
                            assert(old_files[i].0@ != file@);
                        } else {
                            assert(old_files[i].0@ != old_files[j].0@);
                        }
                    }
                }
                std::mem::swap(&mut files, &mut self.files);
                proof {
                    assert(self.files@ == old_files.push(entry));
                    assert forall|f: Seq<char>| #[trigger]
                        self.cache().contains_key(f) == before.insert(file@, hashes@).contains_key(
                            f,
                        ) by {
                        if f == file@ {
                            assert(self.files@[old_files.len() as int].0@ == f);
                        } else if before.contains_key(f) {
                            let j = choose|j: int|
                                0 <= j < old_files.len() && #[trigger] old_files[j].0@ == f;
                            assert(self.files@[j] == old_files[j]);
                        } else if self.cache().contains_key(f) {
                            let j = choose|j: int|
                                0 <= j < self.files@.len() && #[trigger] self.files@[j].0@ == f;
                            assert(j < old_files.len());
                            assert(old_files[j].0@ == f);
                        }
                    }
                    assert forall|f: Seq<char>| #[trigger]
                        self.cache().contains_key(f) implies self.cache()[f] == before.insert(
                        file@,
                        hashes@,
                    )[f] by {
                        let j = choose|j: int|
                            0 <= j < self.files@.len() && #[trigger] self.files@[j].0@ == f;
                        if f == file@ {
                            assert(j == old_files.len());
                        } else {
                            assert(j < old_files.len());
                            let k = choose|k: int|
                                0 <= k < old_files.len() && #[trigger] old_files[k].0@ == f;
                            if k != j {
                                if k < j {
                                    assert(old_files[k].0@ != old_files[j].0@);
                                } else {
                                    assert(old_files[j].0@ != old_files[k].0@);
                                }
                            }
                        }
                    }
                    assert(self.cache() =~= before.insert(file@, hashes@));
                }
            },
        }
    }
}

/// Storing a file's hashes and then looking up one of its lines finds that
/// line's hash, unless the file was stored already, in which case the store
/// is unchanged and keeps answering from the first hashes.
pub proof fn law_lookup_after_store(
    m: Map<Seq<char>, Seq<u64>>,
    file: Seq<char>,
    hashes: Seq<u64>,
    line: u32,
)
    ensures
        !m.contains_key(file) ==> lookup(stored(m, file, hashes), file, line) == Some(
            line_hash_at(hashes, line),
        ),
        m.contains_key(file) ==> stored(m, file, hashes) == m,
        lookup(stored(m, file, hashes), file, line) is Some,
{
}

/// Storing one file's hashes leaves every other file's lookups as they
/// were.
pub proof fn law_store_leaves_other_files_alone(
    m: Map<Seq<char>, Seq<u64>>,
    file: Seq<char>,
    hashes: Seq<u64>,
    other: Seq<char>,
    line: u32,
)
    requires
        other != file,
    ensures
        lookup(stored(m, file, hashes), other, line) == lookup(m, other, line),
{
}

} // verus!
