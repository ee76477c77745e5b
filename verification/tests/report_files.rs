use vord::blame::{blame_request, rekey_blame};
use vord::gaps::{mutation_gap_summary, Gap};

fn strings(v: &[&str]) -> Vec<String> {
    v.iter().map(|s| s.to_string()).collect()
}

#[test]
fn blame_request_lists_each_file_once_in_order_under_the_git_prefix() {
    let request = blame_request("services/api", strings(&["src/b.ts", "src/a.ts", "src/b.ts"]));
    assert_eq!(
        request,
        vec![
            ("src/a.ts".to_string(), "services/api/src/a.ts".to_string()),
            ("src/b.ts".to_string(), "services/api/src/b.ts".to_string()),
        ]
    );
    let at_root = blame_request("", strings(&["z.rs", "Z.rs"]));
    assert_eq!(
        at_root,
        vec![("Z.rs".to_string(), "Z.rs".to_string()), ("z.rs".to_string(), "z.rs".to_string())]
    );
    assert!(blame_request("x", Vec::new()).is_empty());
}

#[test]
fn blame_request_turns_backslashes_into_slashes() {
    let request = blame_request("sub", strings(&["dir\\file.ts"]));
    assert_eq!(request[0].1, "sub/dir/file.ts");
}

#[test]
fn rekeyed_blame_keeps_only_requested_files_under_their_scan_paths() {
    let request = blame_request("svc", strings(&["a.ts", "b.ts"]));
    let blamed = vec![
        ("svc/b.ts".to_string(), 2),
        ("other/c.ts".to_string(), 3),
        ("svc/a.ts".to_string(), 1),
    ];
    let keyed = rekey_blame(&request, blamed);
    assert_eq!(keyed, vec![("b.ts".to_string(), 2), ("a.ts".to_string(), 1)]);
}

fn gap(rule: &str, file: &str, line: u32, message: &str) -> Gap {
    Gap { rule: rule.into(), file: file.into(), line, message: message.into() }
}

#[test]
fn mutation_gaps_are_counted_per_rule_and_listed_per_file() {
    let issues = vec![
        gap("mutation:uncovered-branch", "src/b.rs", 7, "m1"),
        gap("smells:long-method", "src/a.rs", 1, "not a gap"),
        gap("mutation:boundary", "src/a.rs", 3, "m2"),
        gap("mutation:uncovered-branch", "src/a.rs", 9, "m3"),
        gap("mutation-like:other", "src/a.rs", 4, "not a gap either"),
    ];
    let s = mutation_gap_summary(&issues);
    assert_eq!(s.total, 3);
    assert_eq!(
        s.by_rule,
        vec![("mutation:boundary".to_string(), 1), ("mutation:uncovered-branch".to_string(), 2)]
    );
    assert_eq!(s.by_file.len(), 2);
    assert_eq!(s.by_file[0].0, "src/a.rs");
    assert_eq!(
        s.by_file[0].1,
        vec![
            ("mutation:boundary".to_string(), 3, "m2".to_string()),
            ("mutation:uncovered-branch".to_string(), 9, "m3".to_string()),
        ]
    );
    assert_eq!(s.by_file[1].0, "src/b.rs");
    assert_eq!(s.by_file[1].1, vec![("mutation:uncovered-branch".to_string(), 7, "m1".to_string())]);
}

#[test]
fn no_mutation_findings_give_an_empty_summary() {
    let s = mutation_gap_summary(&vec![gap("owasp:eval", "a.ts", 1, "x")]);
    assert_eq!(s.total, 0);
    assert!(s.by_rule.is_empty());
    assert!(s.by_file.is_empty());
}
