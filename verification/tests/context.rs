use std::collections::HashMap;

use vord::context::{
    merge_tool_names, parse_coverage_format, resolve_context, scan_exit_status, tool_summary,
    CiContext, ContextFlags, CoverageFormat,
};
use vord::globs::{build_globset, build_scope, in_scope, is_excluded, parse_pattern, SourceLoadError};
use vord::line_hashes::FileLineHashes;
use vord::paths::{display_path, find_git_root, git_root_step, scan_root_dir, GitRootSearch};
use vord::syntax::{collect_json_pair_keys, SyntaxKind, SyntaxNode};

fn no_flags() -> ContextFlags {
    ContextFlags { project: None, branch: None, pr: None, commit_sha: None, github_repo: None }
}

fn ci() -> CiContext {
    CiContext {
        branch: Some("ci-branch".to_string()),
        pr: Some(7),
        commit_sha: Some("abc123".to_string()),
        github_repo: Some("acme/app".to_string()),
    }
}

#[test]
fn explicit_flags_win_over_ci_detection() {
    let flags = ContextFlags {
        project: Some("flag-project".to_string()),
        branch: Some("main".to_string()),
        pr: Some(42),
        commit_sha: Some("fff".to_string()),
        github_repo: Some("me/repo".to_string()),
    };
    let r = resolve_context(&flags, "/work/app", Some("config-key".to_string()), &ci());
    assert_eq!(r.project.as_deref(), Some("flag-project"));
    assert_eq!(r.branch.as_deref(), Some("main"));
    assert_eq!(r.pr, Some(42));
    assert_eq!(r.commit_sha.as_deref(), Some("fff"));
    assert_eq!(r.github_repo.as_deref(), Some("me/repo"));
}

#[test]
fn ci_detection_fills_what_flags_leave_open() {
    let r = resolve_context(&no_flags(), "/work/app", Some("config-key".to_string()), &ci());
    assert_eq!(r.project.as_deref(), Some("config-key"));
    assert_eq!(r.branch.as_deref(), Some("ci-branch"));
    assert_eq!(r.pr, Some(7));
    assert_eq!(r.commit_sha.as_deref(), Some("abc123"));
    assert_eq!(r.github_repo.as_deref(), Some("acme/app"));
}

#[test]
fn project_falls_back_to_the_scanned_directory_name() {
    let none = CiContext { branch: None, pr: None, commit_sha: None, github_repo: None };
    let r = resolve_context(&no_flags(), "/work/my-service", None, &none);
    assert_eq!(r.project.as_deref(), Some("my-service"));
    assert_eq!(r.branch, None);
    let dto = r.to_dto();
    assert_eq!(dto.project.as_deref(), Some("my-service"));
    assert_eq!(dto.branch, None);
    assert_eq!(dto.pull_request, None);
    let root = resolve_context(&no_flags(), "/", None, &none);
    assert_eq!(root.project, None);
}

#[test]
fn dto_carries_project_branch_and_pull_request() {
    let r = resolve_context(&no_flags(), ".", Some("k".to_string()), &ci());
    let dto = r.to_dto();
    assert_eq!(dto.project.as_deref(), Some("k"));
    assert_eq!(dto.branch.as_deref(), Some("ci-branch"));
    assert_eq!(dto.pull_request, Some(7));
}

#[test]
fn coverage_format_names_are_case_insensitive() {
    assert!(matches!(parse_coverage_format(None), Ok(None)));
    assert!(matches!(parse_coverage_format(Some("LCOV".into())), Ok(Some(CoverageFormat::Lcov))));
    assert!(matches!(
        parse_coverage_format(Some("Cobertura".into())),
        Ok(Some(CoverageFormat::Cobertura))
    ));
    assert!(matches!(parse_coverage_format(Some("jacoco".into())), Ok(Some(CoverageFormat::Jacoco))));
    assert!(matches!(
        parse_coverage_format(Some("llvm-cov".into())),
        Ok(Some(CoverageFormat::LlvmCov))
    ));
    assert!(matches!(
        parse_coverage_format(Some("LlvmCov".into())),
        Ok(Some(CoverageFormat::LlvmCov))
    ));
    assert!(matches!(
        parse_coverage_format(Some("Istanbul".into())),
        Ok(Some(CoverageFormat::Istanbul))
    ));
}

#[test]
fn unknown_coverage_format_is_an_error_naming_it_lowercased() {
    match parse_coverage_format(Some("Clover".into())) {
        Err(e) => assert_eq!(e.name, "clover"),
        Ok(_) => panic!("clover is not a known format"),
    }
}

#[test]
fn exit_status_is_three_on_breach_gate_failure_or_low_health() {
    assert_eq!(scan_exit_status(None, Some(4), false, false, None, 100), 0);
    assert_eq!(scan_exit_status(Some(2), Some(2), false, false, None, 100), 3);
    assert_eq!(scan_exit_status(Some(3), Some(2), false, false, None, 100), 0);
    assert_eq!(scan_exit_status(Some(3), None, false, false, None, 100), 0);
    assert_eq!(scan_exit_status(None, None, true, true, None, 100), 3);
    assert_eq!(scan_exit_status(None, None, false, true, None, 100), 0);
    assert_eq!(scan_exit_status(None, None, true, false, Some(80), 79), 3);
    assert_eq!(scan_exit_status(None, None, true, false, Some(80), 80), 0);
    assert_eq!(scan_exit_status(None, None, false, false, Some(80), 10), 0);
}

#[test]
fn tool_names_are_merged_once_in_first_seen_order() {
    let mut tools: Vec<String> = Vec::new();
    merge_tool_names(&mut tools, vec!["ruff".into(), "eslint".into(), "ruff".into()]);
    merge_tool_names(&mut tools, vec!["clippy".into(), "eslint".into()]);
    assert_eq!(tools, vec!["ruff", "eslint", "clippy"]);
    assert_eq!(tool_summary(&tools), "ruff, eslint, clippy");
}

#[test]
fn no_tool_names_read_as_unknown_tool() {
    assert_eq!(tool_summary(&Vec::new()), "unknown tool");
    assert_eq!(tool_summary(&vec!["semgrep".to_string()]), "semgrep");
}

#[test]
fn display_path_is_never_absolute_for_a_single_file_root() {
    assert_eq!(display_path("/abs/path/app.ts", ""), "abs/path/app.ts");
    assert_eq!(display_path("//double/app.ts", ""), "double/app.ts");
    assert_eq!(display_path("rel/app.ts", ""), "rel/app.ts");
    assert_eq!(display_path("/root/src/app.ts", "src/app.ts"), "src/app.ts");
}

#[test]
fn git_root_search_walks_up_until_a_git_directory() {
    let mut probed = Vec::new();
    let mut step = find_git_root("/repo/service/src/app.ts", false);
    loop {
        match step {
            GitRootSearch::Probe(dir) => {
                let has_git = dir == "/repo";
                probed.push(dir.clone());
                step = git_root_step(&dir, has_git);
            }
            GitRootSearch::Found(dir) => {
                assert_eq!(dir, "/repo");
                break;
            }
            GitRootSearch::NotFound => panic!("the search should find /repo"),
        }
    }
    assert_eq!(probed, vec!["/repo/service/src", "/repo/service", "/repo"]);
}

#[test]
fn git_root_search_ends_at_the_filesystem_root() {
    assert_eq!(find_git_root("/a", true), GitRootSearch::Probe("/a".to_string()));
    assert_eq!(git_root_step("/a", false), GitRootSearch::Probe("/".to_string()));
    assert_eq!(git_root_step("/", false), GitRootSearch::NotFound);
    assert_eq!(git_root_step("/", true), GitRootSearch::Found("/".to_string()));
}

#[test]
fn line_hashes_are_stored_once_and_looked_up_by_line() {
    let mut hashes = FileLineHashes::new("/repo");
    assert_eq!(hashes.root(), "/repo");
    assert_eq!(hashes.cached_line_hash("src/a.ts", 1), None);
    hashes.insert_file("src/a.ts", vec![11, 22, 33]);
    assert_eq!(hashes.cached_line_hash("src/a.ts", 1), Some(Some(11)));
    assert_eq!(hashes.cached_line_hash("src/a.ts", 3), Some(Some(33)));
    assert_eq!(hashes.cached_line_hash("src/a.ts", 4), Some(None));
    assert_eq!(hashes.cached_line_hash("src/a.ts", 0), Some(None));
    hashes.insert_file("src/a.ts", vec![99]);
    assert_eq!(hashes.cached_line_hash("src/a.ts", 1), Some(Some(11)));
    assert_eq!(hashes.cached_line_hash("src/b.ts", 1), None);
    hashes.insert_file("src/b.ts", Vec::new());
    assert_eq!(hashes.cached_line_hash("src/b.ts", 1), Some(None));
}

fn patterns(ps: &[&str]) -> Vec<String> {
    ps.iter().map(|p| p.to_string()).collect()
}

#[test]
fn exclusion_globs_match_relative_paths() {
    let set = build_globset(&patterns(&["**/fixtures/**"])).unwrap();
    assert!(is_excluded("fixtures/vulnerable.ts", &set));
    assert!(!is_excluded("app.ts", &set));
    let empty = build_globset(&Vec::new()).unwrap();
    assert!(!is_excluded("anything.ts", &empty));
}

#[test]
fn invalid_glob_names_the_pattern() {
    match build_globset(&patterns(&["src/**", "[unclosed", "also["])) {
        Err(SourceLoadError::InvalidExclusion(name, _)) => assert_eq!(name, "[unclosed"),
        other => panic!("expected an invalid-pattern error, got {other:?}"),
    }
    assert!(parse_pattern("[unclosed").is_err());
    assert!(parse_pattern("src/**").is_ok());
}

#[test]
fn scope_keeps_included_and_drops_excluded_files() {
    let (inc, exc) = build_scope(&patterns(&["src/**"]), &patterns(&["**/gen/**"])).unwrap();
    let inc = inc.expect("inclusions were declared");
    assert!(in_scope("src/app.ts", Some(&inc), &exc));
    assert!(!in_scope("scripts/build.ts", Some(&inc), &exc));
    assert!(!in_scope("src/gen/out.ts", Some(&inc), &exc));
    let (none, exc2) = build_scope(&Vec::new(), &Vec::new()).unwrap();
    assert!(none.is_none());
    assert!(in_scope("scripts/build.ts", None, &exc2));
}

fn lit(id: usize, text: &str, line: u32, col: u32) -> SyntaxNode {
    SyntaxNode {
        id,
        kind: SyntaxKind::StringLiteral,
        text: text.to_string(),
        start_line: line,
        start_col: col,
        in_test_code: false,
        children: Vec::new(),
    }
}

fn pair(id: usize, key: SyntaxNode, value: SyntaxNode) -> SyntaxNode {
    SyntaxNode {
        id,
        kind: SyntaxKind::JsonPair,
        text: String::new(),
        start_line: key.start_line,
        start_col: key.start_col,
        in_test_code: false,
        children: vec![key, value],
    }
}

#[test]
fn pair_keys_are_recorded_under_their_value_position() {
    let root = SyntaxNode {
        id: 0,
        kind: SyntaxKind::Other,
        text: String::new(),
        start_line: 1,
        start_col: 1,
        in_test_code: false,
        children: vec![
            pair(1, lit(2, "\"ApiKey\"", 2, 3), lit(3, "\"x\"", 2, 13)),
            pair(4, lit(5, "'Name'", 3, 3), lit(6, "\"y\"", 3, 11)),
        ],
    };
    let mut keys: HashMap<u64, String> = HashMap::new();
    collect_json_pair_keys(&root, &mut keys);
    assert_eq!(keys.len(), 2);
    assert_eq!(keys.get(&((2u64 << 32) + 13)).map(String::as_str), Some("apikey"));
    assert_eq!(keys.get(&((3u64 << 32) + 11)).map(String::as_str), Some("name"));
}

#[test]
fn side_files_sit_beside_a_scanned_file_or_inside_a_scanned_directory() {
    assert_eq!(scan_root_dir("/work/app", true), "/work/app");
    assert_eq!(scan_root_dir("/work/app/main.ts", false), "/work/app");
    assert_eq!(scan_root_dir("main.ts", false), "");
    assert_eq!(scan_root_dir("/", false), ".");
}

/// The search over a simulated tree: directories `/`, `/r`, `/r/sub`,
/// `/r/sub/x`, with `.git` in `/r` and `/r/sub`.
fn simulated_git_root(start: &str) -> Option<String> {
    let dirs = ["/", "/r", "/r/sub", "/r/sub/x"];
    let with_git = ["/r", "/r/sub"];
    let mut step = find_git_root(start, dirs.contains(&start));
    let mut probes = 0;
    loop {
        match step {
            GitRootSearch::Probe(dir) => {
                probes += 1;
                assert!(probes <= start.len() + 1, "the search must end");
                step = git_root_step(&dir, with_git.contains(&dir.as_str()));
            }
            GitRootSearch::Found(dir) => return Some(dir),
            GitRootSearch::NotFound => return None,
        }
    }
}

#[test]
fn git_root_search_finds_the_nearest_enclosing_repository() {
    assert_eq!(simulated_git_root("/r/sub/x/m.rs"), Some("/r/sub".to_string()));
    assert_eq!(simulated_git_root("/r/sub"), Some("/r/sub".to_string()));
    assert_eq!(simulated_git_root("/r/missing"), Some("/r".to_string()));
    assert_eq!(simulated_git_root(""), None);
    assert_eq!(simulated_git_root("/elsewhere/a.ts"), None);
}
