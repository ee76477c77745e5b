use vord::clusters::{suppress_bulk_data_clusters, Candidate};
use vord::heuristics::{looks_like_known_charset_alphabet, strip_quotes, unescape_common};
use vord::screening::{path_is_exempt, HighEntropyStringRule};
use vord::syntax::{SyntaxKind, SyntaxNode};

fn node(id: usize, kind: SyntaxKind, text: &str, col: u32, children: Vec<SyntaxNode>) -> SyntaxNode {
    SyntaxNode {
        id,
        kind,
        text: text.to_string(),
        start_line: 0,
        start_col: col,
        in_test_code: false,
        children,
    }
}

/// The quoted string literals of a line of code, each with its byte offset.
fn string_literals(code: &str) -> Vec<(usize, String)> {
    let bytes: Vec<char> = code.chars().collect();
    let mut out = Vec::new();
    let mut i = 0;
    while i < bytes.len() {
        if bytes[i] == '"' {
            let start = i;
            i += 1;
            while i < bytes.len() && bytes[i] != '"' {
                if bytes[i] == '\\' {
                    i += 1;
                }
                i += 1;
            }
            let text: String = bytes[start..=i.min(bytes.len() - 1)].iter().collect();
            out.push((start, text));
        }
        i += 1;
    }
    out
}

/// A script-like tree: a root with one string-literal child per literal.
fn script_tree(code: &str) -> SyntaxNode {
    let children = string_literals(code)
        .into_iter()
        .enumerate()
        .map(|(k, (col, text))| node(k + 1, SyntaxKind::StringLiteral, &text, col as u32, vec![]))
        .collect();
    node(0, SyntaxKind::Other, "", 0, children)
}

/// A JSON-like tree: every `"key": "value"` becomes a pair node whose
/// children are the key and value literals.
fn json_tree(code: &str) -> SyntaxNode {
    let lits = string_literals(code);
    let mut pairs = Vec::new();
    let mut k = 0;
    let mut id = 1;
    while k + 1 < lits.len() {
        let (kc, kt) = &lits[k];
        let (vc, vt) = &lits[k + 1];
        let between: String = code[kc + kt.len()..*vc].to_string();
        if between.trim() == ":" {
            let key = node(id, SyntaxKind::StringLiteral, kt, *kc as u32, vec![]);
            let value = node(id + 1, SyntaxKind::StringLiteral, vt, *vc as u32, vec![]);
            pairs.push(node(id + 2, SyntaxKind::JsonPair, "", *kc as u32, vec![key, value]));
            id += 3;
            k += 2;
        } else {
            k += 1;
        }
    }
    node(0, SyntaxKind::Other, "", 0, pairs)
}

fn entropy(s: &str) -> f64 {
    if s.is_empty() {
        return 0.0;
    }
    let mut freq: std::collections::HashMap<char, u32> = std::collections::HashMap::new();
    let mut len: u32 = 0;
    for c in s.chars() {
        *freq.entry(c).or_insert(0) += 1;
        len += 1;
    }
    let len = f64::from(len);
    freq.values().fold(0.0, |acc, &count| {
        let p = f64::from(count) / len;
        acc - p * p.log2()
    })
}

/// The ids of the literals the rule reports: screened, scored against the
/// threshold, then cluster-suppressed.
fn findings(rule: &HighEntropyStringRule, threshold: f64, path: &str, root: &SyntaxNode) -> Vec<usize> {
    let candidates: Vec<Candidate> = rule
        .screen_file(path, false, root)
        .into_iter()
        .filter(|(_, lit)| entropy(&lit.value) >= threshold)
        .map(|(id, lit)| Candidate { id, value_len: lit.value.len(), is_sensitive: lit.is_sensitive })
        .collect();
    suppress_bulk_data_clusters(candidates).into_iter().map(|c| c.id).collect()
}

fn check_ts(code: &str) -> Vec<usize> {
    findings(&HighEntropyStringRule::new(), 3.5, "t.ts", &script_tree(code))
}

fn check_json_with(rule: &HighEntropyStringRule, code: &str) -> Vec<usize> {
    findings(rule, 3.5, "t.json", &json_tree(code))
}

fn check_json(code: &str) -> Vec<usize> {
    check_json_with(&HighEntropyStringRule::new(), code)
}

fn base64_blob(len: usize) -> String {
    const ALPHABET: &[u8] = b"ABCDEFGHIJKLMNOPQRSTUVWXYZabcdefghijklmnopqrstuvwxyz0123456789+";
    let mut state: u64 = 0x9E3779B97F4A7C15;
    (0..len)
        .map(|_| {
            state ^= state << 13;
            state ^= state >> 7;
            state ^= state << 17;
            ALPHABET[(state % ALPHABET.len() as u64) as usize] as char
        })
        .collect()
}

#[test]
fn flags_random_looking_token() {
    let token = ["aG3n7Zq9L", "m2XpW5vB", "t8FhKc1RdSy"].concat();
    let code = format!("const apiToken = \"{token}\";\n");
    let findings = check_ts(&code);
    assert_eq!(findings.len(), 1);
}

#[test]
fn ignores_structured_identifiers_that_merely_contain_digits() {
    for identifier in [
        "a11y:missing-lang-attribute",
        "vendor-model-4-5-20250929",
        ".choices[0].message.content",
        "secrets:high-entropy-string",
        "text-embedding-3-small",
    ] {
        let code = format!("const x = \"{identifier}\";\n");
        assert!(check_ts(&code).is_empty(), "flagged identifier {identifier} as a secret");
    }
}

#[test]
fn still_flags_a_prefixed_token_whose_random_half_is_not_word_like() {
    let token = ["sk-proj-aG3n7", "Zq9Lm2Xp", "W5vBt8FhKc1RdSy"].concat();
    let code = format!("const k = \"{token}\";\n");
    assert_eq!(check_ts(&code).len(), 1);
}

#[test]
fn ignores_short_strings() {
    assert!(check_ts("const x = \"aB3!\";\n").is_empty());
}

#[test]
fn ignores_plain_english_sentence() {
    let code = "const msg = \"could not connect to the database, please retry\";\n";
    assert!(check_ts(code).is_empty());
}

#[test]
fn ignores_common_identifier_style_text() {
    let code = "const description = \"aVeryDescriptiveHumanReadableConfigurationOptionName\";\n";
    assert!(check_ts(code).is_empty());
}

#[test]
fn ignores_git_sha1_and_sha256() {
    let code = "const commit = \"a94a8fe5ccb19ba61c4c0873d391e987982fbbd3\";\n\
                const digest = \"e3b0c44298fc1c149afbf4c8996fb92427ae41e4649b934ca495991b7852b855\";\n";
    assert!(check_ts(code).is_empty());
}

#[test]
fn ignores_uuid() {
    let code = "const requestId = \"550e8400-e29b-41d4-a716-446655440000\";\n";
    assert!(check_ts(code).is_empty());
}

#[test]
fn ignores_urls_and_paths() {
    let code = "const url = \"https://example.com/some/very/long/descriptive/path\";\n\
                const p = \"/usr/local/share/some-long-application-name/config\";\n";
    assert!(check_ts(code).is_empty());
}

#[test]
fn ignores_subresource_integrity_hash() {
    let code = "const sri = \"sha384-oqVuAfXRKap7fdgcCY5uykM6+R9GqQ8K/uxy9rx7HNQlGYl1kPzQho1wx4JwY8wC\";\n";
    assert!(check_ts(code).is_empty());
}

#[test]
fn ignores_snake_case_identifier_style_text() {
    assert!(check_ts("const m = \"vord_process_uptime_seconds\";\n").is_empty());
}

#[test]
fn ignores_namespaced_kebab_case_rule_ids() {
    assert!(check_ts("const rule = \"owasp:hardcoded-secret\";\n").is_empty());
}

#[test]
fn ignores_dotted_config_keys_and_comma_joined_lists() {
    assert!(check_ts("const key = \"analysis.exclusions.default\";\n").is_empty());
    assert!(check_ts("const list = \"read:user,user:email,repo:status\";\n").is_empty());
}

#[test]
fn ignores_format_string_placeholders() {
    assert!(check_ts("const url = \"{public_url}/api/auth/oauth/github/callback\";\n").is_empty());
    assert!(check_ts(
        "const metric = \"vord_http_requests_total{{method=\\\"{}\\\",route=\\\"{}\\\"}}\";\n"
    )
    .is_empty());
}

#[test]
fn ignores_comma_joined_header_row_with_trailing_newline_escape() {
    let code = "const h = \"rule_id,severity,file_path,start_line,message\\n\";\n";
    assert!(check_ts(code).is_empty());
}

#[test]
fn ignores_urn_identifiers() {
    assert!(check_ts("const s = \"urn:ietf:params:scim:api:messages:2.0:ListResponse\";\n").is_empty());
}

#[test]
fn ignores_extensionless_multi_segment_paths() {
    assert!(check_ts("const p = \"refs/remotes/origin/HEAD\";\n").is_empty());
    assert!(check_ts("const p2 = \"api/auth/oauth/github/callback\";\n").is_empty());
}

#[test]
fn respects_custom_threshold() {
    let token = ["aG3n7Zq9L", "m2XpW5vB", "t8FhKc1RdSy"].concat();
    let code = format!("const apiToken = \"{token}\";\n");
    let strict_rule = HighEntropyStringRule::with_config(20, Vec::new());
    assert!(findings(&strict_rule, 5.9, "t.ts", &script_tree(&code)).is_empty());
}

#[test]
fn ignores_lockfiles_and_yaml_files() {
    let token = ["aG3n7Zq9L", "m2XpW5vB", "t8FhKc1RdSy"].concat();
    let code = format!("const apiToken = \"{token}\";\n");
    let rule = HighEntropyStringRule::new();
    let tree = script_tree(&code);
    assert!(findings(&rule, 3.5, "pnpm-lock.yaml", &tree).is_empty());
    assert!(findings(&rule, 3.5, "Cargo.lock", &tree).is_empty());
    assert!(findings(&rule, 3.5, "some.yaml", &tree).is_empty());
    assert!(findings(&rule, 3.5, "other.yml", &tree).is_empty());
}

#[test]
fn ignores_css_variables() {
    assert!(check_ts("const c = \"var(--color-expenses)\";\n").is_empty());
    assert!(check_ts("const c = \"var(--color-signups)\";\n").is_empty());
}

#[test]
fn ignores_sql_fragments_with_like_and_lower() {
    let code = "const q = \"LOWER(I18n.transliterate(name)) LIKE LOWER(I18n.transliterate(search))\";\n";
    assert!(check_ts(code).is_empty());
}

#[test]
fn ignores_sql_select_and_where_clauses() {
    let code = "const q = \"SELECT name, email FROM users WHERE active = true\";\n";
    assert!(check_ts(code).is_empty());
}

#[test]
fn ignores_mime_type_strings() {
    assert!(check_ts("const ct = \"application/json; charset=utf-8\";\n").is_empty());
    assert!(check_ts("const ct = \"multipart/form-data; boundary=something\";\n").is_empty());
    assert!(check_ts("const ct = \"text/html; charset=iso-8859-1\";\n").is_empty());
}

#[test]
fn ignores_http_header_name_values() {
    assert!(check_ts("const h = \"Content-Type: application/x-www-form-urlencoded\";\n").is_empty());
}

#[test]
fn ignores_tailwind_arbitrary_value_classes() {
    for class in [
        "[&_tr:last-child]:border-0",
        "grid-cols-[repeat(auto-fill,minmax(120px,1fr))]",
        "group-data-[side=left]:cursor-e-resize",
        "aria-[current=page]:bg-accent",
        "group-data-[collapsible=icon]:w-[calc(var(--sidebar-width-icon)+(--spacing(4)))]",
    ] {
        let code = format!("const c = \"{class}\";\n");
        assert!(check_ts(&code).is_empty(), "flagged tailwind class {class}");
    }
}

#[test]
fn ignores_key_value_build_directives() {
    assert!(check_ts("const s = \"cargo:rustc-link-arg-bin=rg=/MANIFEST:EMBED\";\n").is_empty());
}

#[test]
fn ignores_regex_patterns() {
    assert!(check_ts(
        r#"const re = "(?im-u)^\s*excludesfile\s*=\s*\"?\s*(\S+?)\s*\"?\s*$";
"#
    )
    .is_empty());
}

#[test]
fn ignores_glob_patterns_with_wildcards() {
    assert!(check_ts("const g = \"docker-compose.*.yml\";\n").is_empty());
    assert!(check_ts("const g = \"*.terraform.lock.hcl\";\n").is_empty());
}

#[test]
fn strip_quotes_drops_byte_and_raw_string_prefixes() {
    assert_eq!(strip_quotes(r#"b"abc""#), "abc");
    assert_eq!(strip_quotes(r#"r"abc""#), "abc");
    assert_eq!(strip_quotes(r#"br"abc""#), "abc");
    assert_eq!(strip_quotes(r#"rb"abc""#), "abc");
    assert_eq!(strip_quotes(r#""abc""#), "abc");
}

#[test]
fn ignores_known_charset_alphabet_constants() {
    let literal = "b\"ABCDEFGHIJKLMNOPQRSTUVWXYZabcdefghijklmnopqrstuvwxyz0123456789+/\"";
    assert!(looks_like_known_charset_alphabet(&strip_quotes(literal)));
}

#[test]
fn ignores_code_expressions_with_parentheses() {
    assert!(check_ts("const s = \"datetime.utcfromtimestamp(\";\n").is_empty());
    assert!(check_ts("const s = \"datetime.utcnow()\";\n").is_empty());
    assert!(check_ts("const call = \"console.log(42)\";\n").is_empty());
}

#[test]
fn ignores_long_base64_blob_under_a_generic_json_key() {
    let blob = base64_blob(900);
    let code = format!("{{\"value\": \"{blob}\"}}");
    assert!(check_json(&code).is_empty());
}

#[test]
fn still_flags_long_blob_under_a_sensitive_json_key() {
    let blob = base64_blob(900);
    let code = format!("{{\"privateKey\": \"{blob}\"}}");
    assert_eq!(check_json(&code).len(), 1);
}

#[test]
fn still_flags_long_blob_with_a_known_secret_prefix() {
    let jwt = format!("eyJ{}", base64_blob(300));
    let code = format!("{{\"value\": \"{jwt}\"}}");
    assert_eq!(check_json(&code).len(), 1);
}

#[test]
fn ignores_moderate_length_secret_under_a_configured_ignore_key() {
    let rule = HighEntropyStringRule::with_ignore_keys(vec!["value".to_string()]);
    let token = ["aG3n7Zq9L", "m2XpW5vB", "t8FhKc1RdSy"].concat();
    let code = format!("{{\"value\": \"{token}\"}}");
    assert!(check_json_with(&rule, &code).is_empty());

    let code2 = format!("{{\"VALUE\": \"{token}\"}}");
    assert!(check_json_with(&rule, &code2).is_empty());
}

#[test]
fn ignore_keys_do_not_suppress_other_keys() {
    let rule = HighEntropyStringRule::with_ignore_keys(vec!["value".to_string()]);
    let token = ["aG3n7Zq9L", "m2XpW5vB", "t8FhKc1RdSy"].concat();
    let code = format!("{{\"apiKey\": \"{token}\"}}");
    assert_eq!(check_json_with(&rule, &code).len(), 1);
}

#[test]
fn suppresses_a_bulk_cluster_of_similar_length_high_entropy_strings() {
    let entries: Vec<String> =
        (0..12).map(|i| format!("{{\"value\": \"{}\"}}", base64_blob(120 + i))).collect();
    let code = format!("[{}]", entries.join(","));
    assert!(check_json(&code).is_empty());
}

#[test]
fn does_not_suppress_a_lone_secret_alongside_unrelated_short_strings() {
    let token = ["aG3n7Zq9L", "m2XpW5vB", "t8FhKc1RdSy"].concat();
    let code = format!(
        "{{\"name\": \"my-app\", \"description\": \"just a normal app\", \"apiKey\": \"{token}\"}}"
    );
    assert_eq!(check_json(&code).len(), 1);
}

#[test]
fn unescape_resolves_the_common_escapes_only() {
    assert_eq!(unescape_common("a\\nb\\tc\\rd\\\\e\\\"f\\'g\\0h"), "a\nb\tc\rd\\e\"f'g\0h");
    assert_eq!(unescape_common("keep \\x41 and \\u{1F600}"), "keep \\x41 and \\u{1F600}");
    assert_eq!(unescape_common("trailing\\"), "trailing\\");
}

#[test]
fn screen_reports_value_and_sensitivity() {
    let rule = HighEntropyStringRule::new();
    let token = ["aG3n7Zq9L", "m2XpW5vB", "t8FhKc1RdSy"].concat();
    let quoted = format!("\"{token}\"");
    let plain = rule.screen_literal(&quoted, None).expect("token passes the screen");
    assert_eq!(plain.value, token);
    assert!(!plain.is_sensitive);
    let keyed = rule.screen_literal(&quoted, Some("apikey")).expect("token passes the screen");
    assert!(keyed.is_sensitive);
    let prefixed = format!("\"ghp_{token}\"");
    assert!(rule.screen_literal(&prefixed, None).unwrap().is_sensitive);
}

#[test]
fn screen_skips_ignored_keys_only() {
    let rule = HighEntropyStringRule::with_ignore_keys(vec!["Preset".to_string()]);
    let token = ["aG3n7Zq9L", "m2XpW5vB", "t8FhKc1RdSy"].concat();
    let quoted = format!("\"{token}\"");
    assert!(rule.screen_literal(&quoted, Some("preset")).is_none());
    let other = rule.screen_literal(&quoted, Some("apikey"));
    let plain = HighEntropyStringRule::new().screen_literal(&quoted, Some("apikey"));
    assert_eq!(other.map(|l| (l.value, l.is_sensitive)), plain.map(|l| (l.value, l.is_sensitive)));
}

#[test]
fn screen_minimum_length_is_inclusive() {
    let rule = HighEntropyStringRule::with_config(20, Vec::new());
    assert_eq!(rule.min_length(), 20);
    let nineteen = "\"aG3n7Zq9Lm2XpW5vBt8\"";
    let twenty = "\"aG3n7Zq9Lm2XpW5vBt8F\"";
    assert!(rule.screen_literal(nineteen, None).is_none());
    assert!(rule.screen_literal(twenty, None).is_some());
}

#[test]
fn screen_drops_unprefixed_values_over_two_hundred_chars() {
    let rule = HighEntropyStringRule::new();
    let at_limit = format!("\"{}\"", base64_blob(200));
    let over = format!("\"{}\"", base64_blob(201));
    assert!(rule.screen_literal(&at_limit, None).is_some());
    assert!(rule.screen_literal(&over, None).is_none());
    assert!(rule.screen_literal(&over, Some("secret")).is_some());
}

#[test]
fn exempt_paths_are_matched_case_insensitively() {
    assert!(path_is_exempt("web/PNPM-LOCK.YAML"));
    assert!(path_is_exempt("app/i18n/../Locales/en.json"));
    assert!(path_is_exempt("src/Translations/fr.po"));
    assert!(path_is_exempt("rulesets/secrets/src/entropy.rs"));
    assert!(!path_is_exempt("src/app.ts"));
}

#[test]
fn test_code_literals_are_not_screened() {
    let token = ["aG3n7Zq9L", "m2XpW5vB", "t8FhKc1RdSy"].concat();
    let mut tree = script_tree(&format!("const apiToken = \"{token}\";\n"));
    tree.children[0].in_test_code = true;
    assert!(HighEntropyStringRule::new().screen_file("t.rs", false, &tree).is_empty());
    tree.children[0].in_test_code = false;
    assert_eq!(HighEntropyStringRule::new().screen_file("t.rs", false, &tree).len(), 1);
    assert!(HighEntropyStringRule::new().screen_file("t.rs", true, &tree).is_empty());
}

fn cand(id: usize, value_len: usize, is_sensitive: bool) -> Candidate {
    Candidate { id, value_len, is_sensitive }
}

#[test]
fn cluster_of_six_plain_candidates_is_suppressed() {
    let c: Vec<Candidate> = (0..6).map(|i| cand(i, 100 + i, false)).collect();
    assert!(suppress_bulk_data_clusters(c).is_empty());
}

#[test]
fn five_candidates_are_never_a_cluster() {
    let c: Vec<Candidate> = (0..5).map(|i| cand(i, 100, false)).collect();
    assert_eq!(suppress_bulk_data_clusters(c.clone()), c);
}

#[test]
fn a_sensitive_member_keeps_the_whole_cluster() {
    let mut c: Vec<Candidate> = (0..6).map(|i| cand(i, 100, false)).collect();
    c[3].is_sensitive = true;
    assert_eq!(suppress_bulk_data_clusters(c.clone()), c);
}

#[test]
fn outliers_survive_cluster_suppression_in_order() {
    // Median 100, tolerance 15: 40 and 300 lie outside the band.
    let mut c = vec![cand(10, 40, false)];
    c.extend((0..6).map(|i| cand(i, 100, false)));
    c.push(cand(11, 300, false));
    let kept = suppress_bulk_data_clusters(c);
    assert_eq!(kept, vec![cand(10, 40, false), cand(11, 300, false)]);
}

#[test]
fn tolerance_is_fifteen_percent_of_the_median_rounded_down() {
    // Median 120: tolerance 18, so 138 is in the band and 139 is not.
    let mut c: Vec<Candidate> = (0..6).map(|i| cand(i, 120, false)).collect();
    c.push(cand(6, 138, false));
    c.push(cand(7, 139, false));
    assert_eq!(suppress_bulk_data_clusters(c), vec![cand(7, 139, false)]);
}

#[test]
fn tolerance_is_at_least_one() {
    // Median 3: 15% is below 1, so the band is 2..=4.
    let mut c: Vec<Candidate> = (0..6).map(|i| cand(i, 3, false)).collect();
    c.push(cand(6, 4, false));
    c.push(cand(7, 5, false));
    assert_eq!(suppress_bulk_data_clusters(c), vec![cand(7, 5, false)]);
}

#[test]
fn empty_candidates_stay_empty() {
    assert!(suppress_bulk_data_clusters(Vec::new()).is_empty());
}
