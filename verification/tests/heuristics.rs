use vord::heuristics::{
    has_known_secret_prefix, has_secret_like_charset, is_word_like_segment, key_looks_sensitive,
    looks_like_css_variable, looks_like_delimited_identifier, looks_like_format_template,
    looks_like_hex_digest, looks_like_http_or_mime_value, looks_like_known_charset_alphabet,
    looks_like_regex_pattern, looks_like_sql_or_query_fragment, looks_like_tailwind_arbitrary_value,
    looks_like_url_path_or_integrity_hash, looks_like_uuid, strip_quotes,
};

#[test]
fn hex_digests_have_digest_lengths() {
    assert!(looks_like_hex_digest("d41d8cd98f00b204e9800998ecf8427e"));
    assert!(looks_like_hex_digest(&"a".repeat(40)));
    assert!(looks_like_hex_digest(&"F".repeat(128)));
    assert!(!looks_like_hex_digest(&"a".repeat(33)));
    assert!(!looks_like_hex_digest(&"g".repeat(32)));
}

#[test]
fn uuids_are_five_hex_groups() {
    assert!(looks_like_uuid("550e8400-e29b-41d4-a716-446655440000"));
    assert!(looks_like_uuid("550E8400-E29B-41D4-A716-446655440000"));
    assert!(!looks_like_uuid("550e8400-e29b-41d4-a716-44665544000"));
    assert!(!looks_like_uuid("550e8400e29b41d4a716446655440000"));
    assert!(!looks_like_uuid("550e8400-e29b-41d4-a716-44665544000g"));
}

#[test]
fn css_variables_are_var_calls() {
    assert!(looks_like_css_variable("var(--color-signups)"));
    assert!(!looks_like_css_variable("var(--color-signups"));
    assert!(!looks_like_css_variable("calc(var(--x))"));
}

#[test]
fn known_alphabets_match_exactly() {
    assert!(looks_like_known_charset_alphabet("ABCDEFGHIJKLMNOPQRSTUVWXYZ234567"));
    assert!(looks_like_known_charset_alphabet(
        "0123456789ABCDEFGHIJKLMNOPQRSTUVWXYZabcdefghijklmnopqrstuvwxyz"
    ));
    assert!(!looks_like_known_charset_alphabet("ABCDEFGHIJKLMNOPQRSTUVWXYZ23456"));
}

#[test]
fn tailwind_classes_need_brackets_and_class_charset() {
    assert!(looks_like_tailwind_arbitrary_value("top-[calc(-50%_-_2px)]"));
    assert!(!looks_like_tailwind_arbitrary_value("no-brackets-here"));
    assert!(!looks_like_tailwind_arbitrary_value("[bad;char]"));
}

#[test]
fn urls_paths_and_integrity_hashes() {
    assert!(looks_like_url_path_or_integrity_hash("https://example.com"));
    assert!(looks_like_url_path_or_integrity_hash("data:image/png;base64,AAAA"));
    assert!(looks_like_url_path_or_integrity_hash("./local"));
    assert!(looks_like_url_path_or_integrity_hash("@scope/pkg"));
    assert!(looks_like_url_path_or_integrity_hash("a/b/c"));
    assert!(looks_like_url_path_or_integrity_hash("dir/file.txt"));
    assert!(looks_like_url_path_or_integrity_hash("urn:isbn:0451450523"));
    assert!(looks_like_url_path_or_integrity_hash("sha512-abc"));
    assert!(!looks_like_url_path_or_integrity_hash("a/b"));
    assert!(!looks_like_url_path_or_integrity_hash("aG3n7Zq9Lm2XpW5vBt8FhKc1RdSy"));
}

#[test]
fn sql_keywords_match_in_any_case() {
    assert!(looks_like_sql_or_query_fragment("select name from users"));
    assert!(looks_like_sql_or_query_fragment("x.order by y"));
    assert!(looks_like_sql_or_query_fragment("ActiveRecord::Base.connection(x)"));
    assert!(!looks_like_sql_or_query_fragment("Base.connection(x)"));
    assert!(!looks_like_sql_or_query_fragment("aG3n7Zq9Lm2XpW5vBt8FhKc1RdSy"));
}

#[test]
fn regex_patterns_need_a_class_escape_and_syntax() {
    assert!(looks_like_regex_pattern("^\\d+$"));
    assert!(!looks_like_regex_pattern("\\d\\d"));
    assert!(!looks_like_regex_pattern("^abc$"));
}

#[test]
fn mime_and_header_values_match_in_any_case() {
    assert!(looks_like_http_or_mime_value("Application/JSON"));
    assert!(looks_like_http_or_mime_value("X-Requested-With: XMLHttpRequest"));
    assert!(!looks_like_http_or_mime_value("json/application"));
}

#[test]
fn format_templates_need_a_placeholder() {
    assert!(looks_like_format_template("{}"));
    assert!(looks_like_format_template("pre{name:?}post"));
    assert!(looks_like_format_template("{a b}{ok}"));
    assert!(!looks_like_format_template("{a b}"));
    assert!(!looks_like_format_template("no braces"));
    assert!(!looks_like_format_template("{unclosed"));
}

#[test]
fn secret_like_charset_needs_a_digit_or_a_symbol() {
    assert!(has_secret_like_charset("abc1"));
    assert!(has_secret_like_charset("abc+def"));
    assert!(!has_secret_like_charset("snake_case-and:dots.,/@()="));
}

#[test]
fn word_like_segments() {
    assert!(is_word_like_segment("missing"));
    assert!(is_word_like_segment("a11y"));
    assert!(is_word_like_segment("20250929"));
    assert!(is_word_like_segment("CamelCase"));
    assert!(is_word_like_segment(""));
    assert!(!is_word_like_segment("aG3n7Zq9Lm2XpW5"));
    assert!(!is_word_like_segment("abcdefghijklmnop"));
    assert!(!is_word_like_segment("with space"));
}

#[test]
fn delimited_identifiers_are_two_or_more_word_segments() {
    assert!(looks_like_delimited_identifier("a11y:missing-lang-attribute"));
    assert!(looks_like_delimited_identifier("docker-compose.*.yml"));
    assert!(!looks_like_delimited_identifier("single"));
    let prefixed_key = ["sk-proj-aG3n7", "Zq9Lm2Xp", "W5vBt8FhKc1RdSy"].concat();
    assert!(!looks_like_delimited_identifier(&prefixed_key));
}

#[test]
fn known_secret_prefixes() {
    assert!(has_known_secret_prefix("ghp_abc"));
    assert!(has_known_secret_prefix(&["AKIA", "IOSFODNN7EXAMPLE"].concat()));
    assert!(has_known_secret_prefix(&["-----BEGIN", " RSA PRIVATE", " KEY-----"].concat()));
    assert!(!has_known_secret_prefix("akia-lowercase"));
}

#[test]
fn sensitive_keys_ignore_case_and_punctuation() {
    assert!(key_looks_sensitive("api_key"));
    assert!(key_looks_sensitive("\"API-KEY\""));
    assert!(key_looks_sensitive("clientSecret"));
    assert!(key_looks_sensitive("x-access-token"));
    assert!(!key_looks_sensitive("value"));
    assert!(!key_looks_sensitive("payload"));
}

#[test]
fn strip_quotes_handles_unmatched_and_other_quotes() {
    assert_eq!(strip_quotes("'abc'"), "abc");
    assert_eq!(strip_quotes("`abc`"), "abc");
    assert_eq!(strip_quotes("\"abc'"), "\"abc'");
    assert_eq!(strip_quotes("\""), "\"");
    assert_eq!(strip_quotes("b"), "b");
    assert_eq!(strip_quotes("bar"), "bar");
    assert_eq!(strip_quotes("rust"), "rust");
    assert_eq!(strip_quotes("br'x'"), "x");
    assert_eq!(strip_quotes("plain"), "plain");
}
