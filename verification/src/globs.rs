//! The inclusion and exclusion globs that scope a scan (`vord.toml`'s
//! `[analysis] inclusions` and `exclusions`), compiled with the `globset`
//! crate.

use vstd::prelude::*;
use globset::{Glob, GlobSet, GlobSetBuilder};
use crate::text::{chars_of, string_from_chars};

verus! {

#[verifier::external_type_specification]
#[verifier::external_body]
pub struct ExGlob(globset::Glob);

#[verifier::external_type_specification]
#[verifier::external_body]
pub struct ExGlobSet(globset::GlobSet);

#[verifier::external_type_specification]
#[verifier::external_body]
pub struct ExGlobSetBuilder(globset::GlobSetBuilder);

#[verifier::external_type_specification]
#[verifier::external_body]
pub struct ExGlobError(globset::Error);

#[verifier::external_type_specification]
#[verifier::external_body]
pub struct ExIoError(std::io::Error);

/// Whether `globset::Glob::new` accepts `pattern`.
pub uninterp spec fn glob_parses(pattern: Seq<char>) -> bool;

/// The patterns a `globset::GlobSetBuilder` holds, in the order they were
/// added.
pub uninterp spec fn builder_patterns(b: GlobSetBuilder) -> Seq<Seq<char>>;

/// Whether `globset::GlobSetBuilder::build` succeeds on a builder holding
/// `patterns` (it compiles them into matchers and can fail on size limits).
pub uninterp spec fn glob_set_builds(patterns: Seq<Seq<char>>) -> bool;

/// The patterns a built `globset::GlobSet` matches with.
pub uninterp spec fn glob_set_patterns(s: GlobSet) -> Seq<Seq<char>>;

/// Whether a set of the globs `patterns` matches `path`
/// (`globset::GlobSet::is_match`), the path read by the host platform's
/// `std::path::Path` rules.
pub uninterp spec fn globs_match(patterns: Seq<Seq<char>>, path: Seq<char>) -> bool;

/// A glob pattern together with the matcher `globset` parsed from it. Only
/// [`parse_pattern`] makes one, so the matcher is always that of the text.
pub struct Pattern {
    text: String,
    glob: Glob,
}

impl Pattern {
    /// The pattern's text.
    pub closed spec fn text_spec(&self) -> Seq<char> {
        self.text@
    }
}

/// `globset::Glob::new`: parses a glob with default options. Claimed: it
/// succeeds exactly when the pattern parses; nothing is claimed of the
/// error.
#[verifier::external_body]
fn new_glob(pattern: &str) -> (r: Result<Glob, globset::Error>)
    ensures
        r is Ok <==> glob_parses(pattern@),
{
    Glob::new(pattern)
}

/// Parses `pattern` into a glob, keeping its text beside the matcher.
pub fn parse_pattern(pattern: &str) -> (r: Result<Pattern, globset::Error>)
    ensures
        r is Ok <==> glob_parses(pattern@),
        r matches Ok(p) ==> p.text_spec() == pattern@,
{
    match new_glob(pattern) {
        Ok(glob) => Ok(Pattern { text: string_from_chars(&chars_of(pattern)), glob }),
        Err(e) => Err(e),
    }
}

/// `globset::GlobSetBuilder::new`: a builder holding no pattern.
#[verifier::external_body]
fn new_builder() -> (b: GlobSetBuilder)
    ensures
        builder_patterns(b) == Seq::<Seq<char>>::empty(),
{
    GlobSetBuilder::new()
}

/// `globset::GlobSetBuilder::add`: appends the pattern's glob to the
/// builder (the source pushes it onto the builder's list).
#[verifier::external_body]
fn add_pattern(b: &mut GlobSetBuilder, p: Pattern)
    ensures
        builder_patterns(*final(b)) == builder_patterns(*old(b)).push(p.text_spec()),
{
    b.add(p.glob);
}

/// `globset::GlobSetBuilder::build`: compiles the builder's globs into a
/// set. Claimed: it succeeds exactly when the patterns build, and the set
/// matches with exactly the builder's patterns.
#[verifier::external_body]
fn build_set(b: &GlobSetBuilder) -> (r: Result<GlobSet, globset::Error>)
    ensures
        r is Ok <==> glob_set_builds(builder_patterns(*b)),
        r matches Ok(s) ==> glob_set_patterns(s) == builder_patterns(*b),
{
    b.build()
}

/// `globset::GlobSet::is_match`: whether any glob of the set matches
/// `path`. An empty set matches nothing (the source returns `false` at
/// once).
#[verifier::external_body]
fn set_matches(s: &GlobSet, path: &str) -> (b: bool)
    ensures
        b == globs_match(glob_set_patterns(*s), path@),
        glob_set_patterns(*s).len() == 0 ==> !b,
{
    s.is_match(path)
}

/// Why a scan could not load its sources.
#[derive(Debug)]
pub enum SourceLoadError {
    /// The directory walk failed; the message says how.
    Walk(String),
    /// A glob did not parse, or the set of globs did not compile (then the
    /// pattern is empty).
    InvalidExclusion(String, globset::Error),
    /// A file could not be read.
    Io(std::io::Error),
}

/// The first pattern of `patterns` that does not parse, if any.
pub open spec fn first_unparsable(patterns: Seq<Seq<char>>) -> Option<Seq<char>>
    decreases patterns.len(),
{
    if patterns.len() == 0 {
        None
    } else {
        match first_unparsable(patterns.drop_last()) {
            Some(p) => Some(p),
            None => if glob_parses(patterns.last()) {
                None
            } else {
                Some(patterns.last())
            },
        }
    }
}

/// Compiles `patterns` into one glob set. Fails on the first pattern that
/// does not parse, naming it; or, when all parse but the set does not
/// compile, with an empty pattern name.
pub fn build_globset(patterns: &Vec<String>) -> (r: Result<GlobSet, SourceLoadError>)
    ensures
        r is Ok <==> first_unparsable(patterns.deep_view()) is None && glob_set_builds(
            patterns.deep_view(),
        ),
        r matches Ok(s) ==> glob_set_patterns(s) == patterns.deep_view(),
        r matches Err(e) ==> (e matches SourceLoadError::InvalidExclusion(name, _) && name@
            == match first_unparsable(patterns.deep_view()) {
            Some(p) => p,
            None => Seq::<char>::empty(),
        }),
{
    let ghost all = patterns.deep_view();
    let mut builder = new_builder();
    let mut i: usize = 0;
    while i < patterns.len()
        invariant
            i <= patterns.len(),
            all == patterns.deep_view(),
            builder_patterns(builder) == all.take(i as int),
            first_unparsable(all.take(i as int)) is None,
        decreases patterns.len() - i,
    {
        let pattern = patterns[i].as_str();
        assert(all.take(i + 1).drop_last() =~= all.take(i as int));
        assert(all.take(i + 1).last() == pattern@);
        match parse_pattern(pattern) {
            Ok(p) => {
                add_pattern(&mut builder, p);
                assert(all.take(i as int).push(pattern@) =~= all.take(i + 1));
            },
            Err(e) => {
                proof {
                    lemma_first_unparsable_prefix(all, i + 1);
                }
                return Err(SourceLoadError::InvalidExclusion(string_from_chars(&chars_of(pattern)), e));
            },
        }
        i += 1;
    }
    assert(all.take(patterns.len() as int) =~= all);
    match build_set(&builder) {
        Ok(set) => Ok(set),
        Err(e) => Err(SourceLoadError::InvalidExclusion(String::new(), e)),
    }
}

proof fn lemma_first_unparsable_prefix(all: Seq<Seq<char>>, n: int)
    requires
        0 <= n <= all.len(),
        first_unparsable(all.take(n)) is Some,
    ensures
        first_unparsable(all) == first_unparsable(all.take(n)),
    decreases all.len() - n,
{
    if n < all.len() {
        assert(all.take(n + 1).drop_last() =~= all.take(n));
        lemma_first_unparsable_prefix(all, n + 1);
    } else {
        assert(all.take(n) =~= all);
    }
}

/// Whether the file at `relative` (its path under the scan root) is
/// excluded by the set.
pub fn is_excluded(relative: &str, excludes: &GlobSet) -> (b: bool)
    ensures
        b == globs_match(glob_set_patterns(*excludes), relative@),
{
    set_matches(excludes, relative)
}

/// Whether a file at `relative` stays in scope: it matches the inclusion
/// set when there is one, and is not excluded.
pub fn in_scope(relative: &str, includes: Option<&GlobSet>, excludes: &GlobSet) -> (b: bool)
    ensures
        b == ((match includes {
            Some(s) => globs_match(glob_set_patterns(*s), relative@),
            None => true,
        }) && !globs_match(glob_set_patterns(*excludes), relative@)),
{
    let included = match includes {
        Some(s) => set_matches(s, relative),
        None => true,
    };
    included && !is_excluded(relative, excludes)
}

/// The inclusion and exclusion sets of a scan: no inclusion set when no
/// inclusion is declared (every file is kept), else the compiled
/// inclusions; and the compiled exclusions.
pub fn build_scope(inclusions: &Vec<String>, exclusions: &Vec<String>) -> (r: Result<
    (Option<GlobSet>, GlobSet),
    SourceLoadError,
>)
    ensures
        r matches Ok((inc, exc)) ==> {
            &&& inclusions@.len() == 0 <==> inc is None
            &&& inc matches Some(s) ==> glob_set_patterns(s) == inclusions.deep_view()
            &&& glob_set_patterns(exc) == exclusions.deep_view()
        },
        r is Ok <==> (inclusions@.len() == 0 || (first_unparsable(inclusions.deep_view()) is None
            && glob_set_builds(inclusions.deep_view()))) && first_unparsable(
            exclusions.deep_view(),
        ) is None && glob_set_builds(exclusions.deep_view()),
{
    let includes = if inclusions.len() == 0 {
        None
    } else {
        match build_globset(inclusions) {
            Ok(s) => Some(s),
            Err(e) => return Err(e),
        }
    };
    match build_globset(exclusions) {
        Ok(excludes) => Ok((includes, excludes)),
        Err(e) => Err(e),
    }
}

} // verus!
