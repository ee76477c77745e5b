//! Decisions of the `scan` command that sit between reading its inputs and
//! reporting: the scan's identity (project, branch, pull request) from
//! explicit flags, CI detection and configuration; the coverage format
//! named on the command line; the names of the tools whose SARIF findings
//! were imported; and the exit status.

use vstd::prelude::*;
use crate::heuristics::ascii_lower_char;
use crate::paths::{file_name_of, path_file_name};
use crate::text::{ascii_lower, chars_of, push_char, same_chars};

verus! {

/// `a` when it holds a value, else `b`.
pub open spec fn first_of<T>(a: Option<T>, b: Option<T>) -> Option<T> {
    if a is Some {
        a
    } else {
        b
    }
}

/// The scan identity given explicitly on the command line: `--project`,
/// `--branch`, `--pr`, `--commit-sha` and `--github-repo`.
pub struct ContextFlags {
    pub project: Option<String>,
    pub branch: Option<String>,
    pub pr: Option<u32>,
    pub commit_sha: Option<String>,
    pub github_repo: Option<String>,
}

/// What CI auto-detection found out about the run.
pub struct CiContext {
    pub branch: Option<String>,
    pub pr: Option<u32>,
    pub commit_sha: Option<String>,
    pub github_repo: Option<String>,
}

/// The resolved scan identity and target, used both for status reporting
/// and for the rendered output's `context`.
pub struct ResolvedContext {
    pub project: Option<String>,
    pub branch: Option<String>,
    pub pr: Option<u32>,
    pub commit_sha: Option<String>,
    pub github_repo: Option<String>,
}

/// The `context` part of the rendered output.
pub struct ScanContextDto {
    pub project: Option<String>,
    pub branch: Option<String>,
    pub pull_request: Option<u32>,
}

/// The identity `resolve_context` gives: each explicit flag wins over CI
/// detection; the project falls back to the configured project key, then
/// to the name of the scanned path.
pub open spec fn resolved_from(
    r: ResolvedContext,
    flags: ContextFlags,
    scan_path: Seq<char>,
    config_project_key: Option<Seq<char>>,
    ci: CiContext,
) -> bool {
    &&& r.project.deep_view() == first_of(
        flags.project.deep_view(),
        first_of(config_project_key, path_file_name(scan_path)),
    )
    &&& r.branch.deep_view() == first_of(flags.branch.deep_view(), ci.branch.deep_view())
    &&& r.pr == first_of(flags.pr, ci.pr)
    &&& r.commit_sha.deep_view() == first_of(flags.commit_sha.deep_view(), ci.commit_sha.deep_view())
    &&& r.github_repo.deep_view() == first_of(
        flags.github_repo.deep_view(),
        ci.github_repo.deep_view(),
    )
}

fn either(a: &Option<String>, b: &Option<String>) -> (r: Option<String>)
    ensures
        r.deep_view() == first_of(a.deep_view(), b.deep_view()),
{
    match a {
        Some(s) => Some(s.clone()),
        None => match b {
            Some(s) => Some(s.clone()),
            None => None,
        },
    }
}

fn copy_of(a: &Option<String>) -> (r: Option<String>)
    ensures
        r.deep_view() == a.deep_view(),
{
    match a {
        Some(s) => Some(s.clone()),
        None => None,
    }
}

/// Combines the explicit flags with CI auto-detection (an explicit flag
/// always wins) and, for the project only, the configured project key and
/// then the name of the scanned path as last resorts.
pub fn resolve_context(
    flags: &ContextFlags,
    scan_path: &str,
    config_project_key: Option<String>,
    ci: &CiContext,
) -> (r: ResolvedContext)
    ensures
        resolved_from(r, *flags, scan_path@, config_project_key.deep_view(), *ci),
{
    let project = match &flags.project {
        Some(p) => Some(p.clone()),
        None => match config_project_key {
            Some(k) => Some(k),
            None => file_name_of(scan_path),
        },
    };
    let pr = match flags.pr {
        Some(n) => Some(n),
        None => ci.pr,
    };
    ResolvedContext {
        project,
        branch: either(&flags.branch, &ci.branch),
        pr,
        commit_sha: either(&flags.commit_sha, &ci.commit_sha),
        github_repo: either(&flags.github_repo, &ci.github_repo),
    }
}

/// An identity given explicitly on the command line is the one the scan
/// uses, whatever CI detection or the configuration say.
pub proof fn law_explicit_flags_win(
    r: ResolvedContext,
    flags: ContextFlags,
    scan_path: Seq<char>,
    config_project_key: Option<Seq<char>>,
    ci: CiContext,
)
    requires
        resolved_from(r, flags, scan_path, config_project_key, ci),
    ensures
        flags.project is Some ==> r.project.deep_view() == flags.project.deep_view(),
        flags.branch is Some ==> r.branch.deep_view() == flags.branch.deep_view(),
        flags.pr is Some ==> r.pr == flags.pr,
        flags.commit_sha is Some ==> r.commit_sha.deep_view() == flags.commit_sha.deep_view(),
        flags.github_repo is Some ==> r.github_repo.deep_view() == flags.github_repo.deep_view(),
{
}

impl ResolvedContext {
    /// The output's view of the identity: project, branch and pull request.
    pub fn to_dto(&self) -> (d: ScanContextDto)
        ensures
            d.project.deep_view() == self.project.deep_view(),
            d.branch.deep_view() == self.branch.deep_view(),
            d.pull_request == self.pr,
    {
        ScanContextDto {
            project: copy_of(&self.project),
            branch: copy_of(&self.branch),
            pull_request: self.pr,
        }
    }
}

/// A coverage report format `--coverage-format` can name.
#[derive(Clone, Copy, Debug, PartialEq, Eq, Structural)]
pub enum CoverageFormat {
    Lcov,
    Cobertura,
    Jacoco,
    LlvmCov,
    Istanbul,
}

/// A `--coverage-format` value that names no known format; it holds the
/// value ASCII-lowercased.
#[derive(Debug)]
pub struct UnknownCoverageFormat {
    pub name: String,
}

/// The ASCII-lowercased text of `s`.
pub open spec fn ascii_lowercase(s: Seq<char>) -> Seq<char> {
    s.map_values(|c: char| ascii_lower(c))
}

fn to_ascii_lowercase(s: &str) -> (r: String)
    ensures
        r@ == ascii_lowercase(s@),
{
    let v = chars_of(s);
    let mut r = String::new();
    let mut i: usize = 0;
    while i < v.len()
        invariant
            i <= v.len(),
            v@ == s@,
            r@ == ascii_lowercase(s@.take(i as int)),
        decreases v.len() - i,
    {
        push_char(&mut r, ascii_lower_char(v[i]));
        assert(ascii_lowercase(s@.take(i + 1)) =~= ascii_lowercase(s@.take(i as int)).push(
            ascii_lower(v@[i as int]),
        ));
        i += 1;
    }
    assert(s@.take(v.len() as int) =~= s@);
    r
}

/// The format a (lowercased) `--coverage-format` name denotes.
pub open spec fn coverage_format_named(name: Seq<char>) -> Option<CoverageFormat> {
    if name == "lcov"@ {
        Some(CoverageFormat::Lcov)
    } else if name == "cobertura"@ {
        Some(CoverageFormat::Cobertura)
    } else if name == "jacoco"@ {
        Some(CoverageFormat::Jacoco)
    } else if name == "llvm-cov"@ || name == "llvmcov"@ {
        Some(CoverageFormat::LlvmCov)
    } else if name == "istanbul"@ {
        Some(CoverageFormat::Istanbul)
    } else {
        None
    }
}

fn is_named(name: &Vec<char>, lit: &str) -> (b: bool)
    ensures
        b == (name@ == lit@),
{
    same_chars(name, &chars_of(lit))
}

/// Reads `--coverage-format`, case-insensitively: no value means
/// auto-detection (`Ok(None)`); `lcov`, `cobertura`, `jacoco`, `llvm-cov`
/// (or `llvmcov`) and `istanbul` name a format; anything else is an error
/// that carries the lowercased value.
pub fn parse_coverage_format(raw: Option<String>) -> (r: Result<
    Option<CoverageFormat>,
    UnknownCoverageFormat,
>)
    ensures
        raw is None ==> r == Ok::<Option<CoverageFormat>, UnknownCoverageFormat>(None),
        raw matches Some(s) ==> match coverage_format_named(ascii_lowercase(s@)) {
            Some(f) => r == Ok::<Option<CoverageFormat>, UnknownCoverageFormat>(Some(f)),
            None => r matches Err(e) && e.name@ == ascii_lowercase(s@),
        },
{
    match raw {
        None => Ok(None),
        Some(s) => {
            let lower = to_ascii_lowercase(s.as_str());
            let name = chars_of(lower.as_str());
            if is_named(&name, "lcov") {
                Ok(Some(CoverageFormat::Lcov))
            } else if is_named(&name, "cobertura") {
                Ok(Some(CoverageFormat::Cobertura))
            } else if is_named(&name, "jacoco") {
                Ok(Some(CoverageFormat::Jacoco))
            } else if is_named(&name, "llvm-cov") || is_named(&name, "llvmcov") {
                Ok(Some(CoverageFormat::LlvmCov))
            } else if is_named(&name, "istanbul") {
                Ok(Some(CoverageFormat::Istanbul))
            } else {
                Err(UnknownCoverageFormat { name: lower })
            }
        },
    }
}

/// The worst finding is at least as severe as the threshold.
pub open spec fn threshold_breached(threshold: Option<u8>, max_severity: Option<u8>) -> bool {
    match (threshold, max_severity) {
        (Some(t), Some(m)) => m >= t,
        _ => false,
    }
}

/// The health score is under the required minimum.
pub open spec fn health_below(min_health_score: Option<u32>, health_score: u32) -> bool {
    match min_health_score {
        Some(min) => health_score < min,
        None => false,
    }
}

/// The exit status of a scan: 3 when the worst finding is at least as
/// severe as the `--fail-on` threshold, when an enforced quality gate
/// failed, or when an enforced minimum health score is not met; 0
/// otherwise. Severities are given by rank, least severe lowest.
pub fn scan_exit_status(
    threshold: Option<u8>,
    max_severity: Option<u8>,
    enforce_gate: bool,
    gate_failed: bool,
    min_health_score: Option<u32>,
    health_score: u32,
) -> (code: u8)
    ensures
        code == if threshold_breached(threshold, max_severity) || (enforce_gate && gate_failed) || (
        enforce_gate && health_below(min_health_score, health_score)) {
            3u8
        } else {
            0u8
        },
{
    let breached = match (threshold, max_severity) {
        (Some(t), Some(m)) => m >= t,
        _ => false,
    };
    let health_below = enforce_gate && match min_health_score {
        Some(min) => health_score < min,
        None => false,
    };
    if breached || (enforce_gate && gate_failed) || health_below {
        3
    } else {
        0
    }
}

/// `acc` with each name of `names` that it does not hold yet appended, in
/// order of first appearance.
pub open spec fn merged_names(acc: Seq<Seq<char>>, names: Seq<Seq<char>>) -> Seq<Seq<char>>
    decreases names.len(),
{
    if names.len() == 0 {
        acc
    } else {
        let prev = merged_names(acc, names.drop_last());
        if prev.contains(names.last()) {
            prev
        } else {
            prev.push(names.last())
        }
    }
}

/// Whether `tools` holds `name`.
fn lists_tool(tools: &Vec<String>, name: &String) -> (b: bool)
    ensures
        b == tools.deep_view().contains(name@),
{
    let n = chars_of(name.as_str());
    let mut i: usize = 0;
    while i < tools.len()
        invariant
            i <= tools.len(),
            n@ == name@,
            forall|k: int| 0 <= k < i ==> #[trigger] tools@[k]@ != name@,
        decreases tools.len() - i,
    {
        if same_chars(&chars_of(tools[i].as_str()), &n) {
            assert(tools.deep_view()[i as int] == name@);
            return true;
        }
        i += 1;
    }
    proof {
        if tools.deep_view().contains(name@) {
            let k = choose|k: int|
                0 <= k < tools.deep_view().len() && tools.deep_view()[k] == name@;
            assert(tools@[k]@ == name@);
        }
    }
    false
}

/// Adds the tool names of one imported SARIF report to those already seen,
/// each name once, in order of first appearance.
pub fn merge_tool_names(tools: &mut Vec<String>, names: Vec<String>)
    ensures
        final(tools).deep_view() == merged_names(old(tools).deep_view(), names.deep_view()),
{
    let ghost start = tools.deep_view();
    let ghost all = names.deep_view();
    let mut i: usize = 0;
    while i < names.len()
        invariant
            i <= names.len(),
            all == names.deep_view(),
            tools.deep_view() == merged_names(start, all.take(i as int)),
        decreases names.len() - i,
    {
        let name = &names[i];
        assert(all.take(i + 1).drop_last() =~= all.take(i as int));
        assert(all.take(i + 1).last() == name@);
        if !lists_tool(tools, name) {
            let ghost before = tools.deep_view();
            tools.push(name.clone());
            assert(tools.deep_view() =~= before.push(name@));
        }
        i += 1;
    }
    assert(all.take(names.len() as int) =~= all);
}

/// Merging never lists a name twice when none was listed twice before, and
/// lists every name merged in.
pub proof fn law_merged_names_are_distinct_and_complete(acc: Seq<Seq<char>>, names: Seq<Seq<char>>)
    requires
        acc.no_duplicates(),
    ensures
        merged_names(acc, names).no_duplicates(),
        forall|k: int| 0 <= k < names.len() ==> merged_names(acc, names).contains(#[trigger] names[k]),
        forall|k: int| 0 <= k < acc.len() ==> merged_names(acc, names).contains(#[trigger] acc[k]),
    decreases names.len(),
{
    if names.len() > 0 {
        let prev = merged_names(acc, names.drop_last());
        law_merged_names_are_distinct_and_complete(acc, names.drop_last());
        assert forall|k: int| 0 <= k < names.len() implies merged_names(acc, names).contains(
            #[trigger] names[k],
        ) by {
            if k < names.len() - 1 {
                assert(names.drop_last()[k] == names[k]);
                assert(prev.contains(names[k]));
                if !prev.contains(names.last()) {
                    let j = choose|j: int| 0 <= j < prev.len() && prev[j] == names[k];
                    assert(prev.push(names.last())[j] == names[k]);
                }
            } else {
                if !prev.contains(names.last()) {
                    assert(prev.push(names.last())[prev.len() as int] == names.last());
                }
            }
        }
        assert forall|k: int| 0 <= k < acc.len() implies merged_names(acc, names).contains(
            #[trigger] acc[k],
        ) by {
            assert(prev.contains(acc[k]));
            if !prev.contains(names.last()) {
                let j = choose|j: int| 0 <= j < prev.len() && prev[j] == acc[k];
                assert(prev.push(names.last())[j] == acc[k]);
            }
        }
    }
}

/// `parts` joined with `sep` between each two.
pub open spec fn joined(parts: Seq<Seq<char>>, sep: Seq<char>) -> Seq<char>
    decreases parts.len(),
{
    if parts.len() == 0 {
        Seq::empty()
    } else if parts.len() == 1 {
        parts[0]
    } else {
        joined(parts.drop_last(), sep) + sep + parts.last()
    }
}

fn append_str(s: &mut String, t: &str)
    ensures
        final(s)@ == old(s)@ + t@,
{
    let v = chars_of(t);
    let ghost start = s@;
    let mut i: usize = 0;
    while i < v.len()
        invariant
            i <= v.len(),
            v@ == t@,
            s@ == start + t@.take(i as int),
        decreases v.len() - i,
    {
        push_char(s, v[i]);
        assert(t@.take(i + 1) =~= t@.take(i as int).push(v@[i as int]));
        assert(start + t@.take(i + 1) =~= (start + t@.take(i as int)).push(v@[i as int]));
        i += 1;
    }
    assert(t@.take(v.len() as int) =~= t@);
}

/// How the imported tools are named in the import message: their names
/// joined with `", "`, or `unknown tool` when no report named one.
pub fn tool_summary(tools: &Vec<String>) -> (s: String)
    ensures
        s@ == if tools@.len() == 0 {
            "unknown tool"@
        } else {
            joined(tools.deep_view(), ", "@)
        },
{
    let mut s = String::new();
    if tools.len() == 0 {
        append_str(&mut s, "unknown tool");
        assert(s@ =~= "unknown tool"@);
        return s;
    }
    let ghost all = tools.deep_view();
    let mut i: usize = 0;
    while i < tools.len()
        invariant
            i <= tools.len(),
            tools@.len() > 0,
            all == tools.deep_view(),
            s@ == joined(all.take(i as int), ", "@),
        decreases tools.len() - i,
    {
        let ghost before = s@;
        if i > 0 {
            append_str(&mut s, ", ");
        }
        append_str(&mut s, tools[i].as_str());
        proof {
            let t = all.take(i + 1);
            assert(t.drop_last() =~= all.take(i as int));
            assert(t.last() == tools@[i as int]@);
            if i == 0 {
                assert(joined(all.take(0), ", "@) == Seq::<char>::empty());
                assert(s@ =~= t[0]);
            } else {
                assert(s@ =~= joined(t.drop_last(), ", "@) + ", "@ + t.last());
            }
        }
        i += 1;
    }
    assert(all.take(tools.len() as int) =~= all);
    s
}

} // verus!
