//! The shape tests that tell a high-entropy string literal which is plainly
//! *not* a secret (a digest, a UUID, a path, a template, an identifier, ...)
//! from one that might be. Each is stated over the literal's characters.

use vstd::prelude::*;
use crate::text::{
    ascii_alnum, ascii_digit, ascii_hex, ascii_lower, ascii_lower_letter, ascii_upper, begins_with,
    begins_with_any, chars_of, contains_any, contains_char, contains_seq, count_char, count_of,
    ends_with_seq, finishes_with, is_alphanumeric_char, is_ascii_alnum, is_ascii_digit,
    is_ascii_hex, is_ascii_lower, is_ascii_upper, occurs_any, occurs_in, push_char, same_chars,
    starts_with_any, starts_with_seq, to_lowercase, to_uppercase, unicode_alphanumeric,
    unicode_lowercase, unicode_uppercase,
};

verus! {

/// The byte counts of the common hex digests: MD5, SHA-1, SHA-224/256,
/// SHA-384 and SHA-512.
pub open spec fn is_digest_length(n: nat) -> bool {
    n == 32 || n == 40 || n == 56 || n == 64 || n == 96 || n == 128
}

/// A hex digest: a digest length made only of hex digits.
pub open spec fn hex_digest_spec(s: Seq<char>) -> bool {
    &&& s.len() >= 8
    &&& is_digest_length(s.len())
    &&& forall|i: int| 0 <= i < s.len() ==> is_ascii_hex(#[trigger] s[i])
}

/// Common hex digest lengths (MD5, SHA-1, SHA-224/256, SHA-384, SHA-512) —
/// high entropy but almost always a checksum or git commit SHA, not a
/// secret.
pub fn looks_like_hex_digest(s: &str) -> (b: bool)
    ensures
        b == hex_digest_spec(s@),
{
    let v = chars_of(s);
    let n = v.len();
    if !(n >= 8 && (n == 32 || n == 40 || n == 56 || n == 64 || n == 96 || n == 128)) {
        return false;
    }
    let mut i: usize = 0;
    while i < n
        invariant
            n == v@.len(),
            v@ == s@,
            i <= n,
            forall|k: int| 0 <= k < i ==> is_ascii_hex(#[trigger] v@[k]),
        decreases n - i,
    {
        if !ascii_hex(v[i]) {
            assert(!is_ascii_hex(v@[i as int]));
            return false;
        }
        i += 1;
    }
    true
}

/// Whether index `i` of a UUID holds one of its four dashes.
pub open spec fn is_uuid_dash_index(i: int) -> bool {
    i == 8 || i == 13 || i == 18 || i == 23
}

/// RFC 4122 shape: hex groups of 8, 4, 4, 4 and 12 digits joined by `-`.
pub open spec fn uuid_spec(s: Seq<char>) -> bool {
    &&& s.len() == 36
    &&& forall|i: int|
        0 <= i < 36 ==> if is_uuid_dash_index(i) {
            s[i] == '-'
        } else {
            is_ascii_hex(#[trigger] s[i])
        }
}

/// RFC 4122 UUID shape (`8-4-4-4-12` hex groups) — a common non-secret
/// identifier that happens to have high entropy.
pub fn looks_like_uuid(s: &str) -> (b: bool)
    ensures
        b == uuid_spec(s@),
{
    let v = chars_of(s);
    if v.len() != 36 {
        return false;
    }
    let mut i: usize = 0;
    while i < 36
        invariant
            v@.len() == 36,
            v@ == s@,
            i <= 36,
            forall|k: int|
                0 <= k < i ==> if is_uuid_dash_index(k) {
                    v@[k] == '-'
                } else {
                    is_ascii_hex(#[trigger] v@[k])
                },
        decreases 36 - i,
    {
        let ok = if i == 8 || i == 13 || i == 18 || i == 23 {
            v[i] == '-'
        } else {
            ascii_hex(v[i])
        };
        if !ok {
            assert(!(if is_uuid_dash_index(i as int) {
                v@[i as int] == '-'
            } else {
                is_ascii_hex(v@[i as int])
            }));
            return false;
        }
        i += 1;
    }
    true
}

/// A CSS variable reference: `var(--` ... `)`.
pub open spec fn css_variable_spec(s: Seq<char>) -> bool {
    begins_with(s, "var(--"@) && finishes_with(s, ")"@)
}

/// CSS variables (`var(--...)`) can have high entropy but are not secrets.
pub fn looks_like_css_variable(s: &str) -> (b: bool)
    ensures
        b == css_variable_spec(s@),
{
    let v = chars_of(s);
    starts_with_seq(&v, &chars_of("var(--")) && ends_with_seq(&v, &chars_of(")"))
}

/// The publicly documented encoder alphabets: Base64 (standard and
/// URL-safe), Base32 (RFC 4648), z-base-32, Base58 and Base62.
pub open spec fn known_alphabets() -> Seq<&'static str> {
    seq![
        "ABCDEFGHIJKLMNOPQRSTUVWXYZabcdefghijklmnopqrstuvwxyz0123456789+/",
        "ABCDEFGHIJKLMNOPQRSTUVWXYZabcdefghijklmnopqrstuvwxyz0123456789-_",
        "ABCDEFGHIJKLMNOPQRSTUVWXYZ234567",
        "ybndrfg8ejkmcpqxot1uwisza345h769",
        "123456789ABCDEFGHJKLMNPQRSTUVWXYZabcdefghijkmnopqrstuvwxyz",
        "0123456789ABCDEFGHIJKLMNOPQRSTUVWXYZabcdefghijklmnopqrstuvwxyz",
    ]
}

fn known_alphabet_list() -> (v: Vec<&'static str>)
    ensures
        v@ == known_alphabets(),
{
    vec![
        "ABCDEFGHIJKLMNOPQRSTUVWXYZabcdefghijklmnopqrstuvwxyz0123456789+/",
        "ABCDEFGHIJKLMNOPQRSTUVWXYZabcdefghijklmnopqrstuvwxyz0123456789-_",
        "ABCDEFGHIJKLMNOPQRSTUVWXYZ234567",
        "ybndrfg8ejkmcpqxot1uwisza345h769",
        "123456789ABCDEFGHJKLMNPQRSTUVWXYZabcdefghijkmnopqrstuvwxyz",
        "0123456789ABCDEFGHIJKLMNOPQRSTUVWXYZabcdefghijklmnopqrstuvwxyz",
    ]
}

/// `s` is exactly one of the known alphabets.
pub open spec fn known_alphabet_spec(s: Seq<char>) -> bool {
    exists|k: int| 0 <= k < known_alphabets().len() && s == (#[trigger] known_alphabets()[k])@
}

/// The handful of well-known fixed alphabets a hand-rolled encoder/decoder
/// declares as a constant (`const ALPHABET: &[u8] = b"ABC...";`). These are
/// deliberately high-entropy — that's the whole point of an alphabet meant
/// to cover the input's character space evenly — but they're publicly
/// documented constants, not a private value.
pub fn looks_like_known_charset_alphabet(s: &str) -> (b: bool)
    ensures
        b == known_alphabet_spec(s@),
{
    let v = chars_of(s);
    let alphabets = known_alphabet_list();
    let mut k: usize = 0;
    while k < alphabets.len()
        invariant
            alphabets@ == known_alphabets(),
            v@ == s@,
            k <= alphabets.len(),
            forall|j: int| 0 <= j < k ==> v@ != (#[trigger] known_alphabets()[j])@,
        decreases alphabets.len() - k,
    {
        if same_chars(&v, &chars_of(alphabets[k])) {
            assert(v@ == known_alphabets()[k as int]@);
            return true;
        }
        k += 1;
    }
    false
}

} // verus!

verus! {

/// The characters a Tailwind class name may carry besides letters and
/// digits.
pub open spec fn class_charset() -> Seq<char> {
    "[]-_:./%#(),&*!='\"+"@
}

/// A Tailwind arbitrary-value class: it holds both `[` and `]`, and every
/// character is an ASCII letter or digit or one of [`class_charset`].
pub open spec fn tailwind_arbitrary_value_spec(s: Seq<char>) -> bool {
    &&& s.contains('[')
    &&& s.contains(']')
    &&& forall|i: int|
        0 <= i < s.len() ==> is_ascii_alnum(#[trigger] s[i]) || class_charset().contains(s[i])
}

/// Tailwind's arbitrary-value/arbitrary-variant syntax packs a CSS selector
/// or value straight into square brackets inside the class name itself —
/// `[&_tr:last-child]:border-0`, `top-[calc(-50%_-_2px)]`,
/// `grid-cols-[repeat(auto-fill,minmax(120px,1fr))]`. The brackets — on a
/// string built only from the same narrow class-name charset — are the
/// signal: none of the standard token encodings (base64, hex, base62) use
/// square brackets.
pub fn looks_like_tailwind_arbitrary_value(s: &str) -> (b: bool)
    ensures
        b == tailwind_arbitrary_value_spec(s@),
{
    let v = chars_of(s);
    if !contains_char(&v, '[') || !contains_char(&v, ']') {
        return false;
    }
    let charset = chars_of("[]-_:./%#(),&*!='\"+");
    let mut i: usize = 0;
    while i < v.len()
        invariant
            v@ == s@,
            charset@ == class_charset(),
            i <= v.len(),
            forall|k: int|
                0 <= k < i ==> is_ascii_alnum(#[trigger] v@[k]) || class_charset().contains(v@[k]),
        decreases v.len() - i,
    {
        if !ascii_alnum(v[i]) && !contains_char(&charset, v[i]) {
            assert(!(is_ascii_alnum(v@[i as int]) || class_charset().contains(v@[i as int])));
            return false;
        }
        i += 1;
    }
    true
}

/// The Subresource-Integrity / lockfile hash prefixes.
pub open spec fn integrity_prefixes() -> Seq<&'static str> {
    seq!["sha1-", "sha256-", "sha384-", "sha512-"]
}

/// A URL, a filesystem path or route, or an integrity hash.
pub open spec fn url_path_or_integrity_hash_spec(s: Seq<char>) -> bool {
    ||| occurs_in(s, "://"@)
    ||| begins_with(s, "data:"@)
    ||| begins_with(s, "/"@)
    ||| begins_with(s, "./"@)
    ||| begins_with(s, "../"@)
    ||| begins_with(s, "@"@)
    ||| (s.contains('/') && s.contains('.'))
    ||| count_of(s, '/') >= 2
    ||| begins_with(s, "urn:"@)
    ||| begins_with_any(s, integrity_prefixes())
}

/// URLs, filesystem paths and Subresource-Integrity/lockfile hash prefixes:
/// all can be high-entropy but are not secrets. Two or more path separators
/// is a strong path/route signal on its own — `refs/heads/main`,
/// `api/auth/oauth/github/callback` — even without a literal `.` anywhere
/// in the string.
pub fn looks_like_url_path_or_integrity_hash(s: &str) -> (b: bool)
    ensures
        b == url_path_or_integrity_hash_spec(s@),
{
    let v = chars_of(s);
    let prefixes: Vec<&str> = vec!["sha1-", "sha256-", "sha384-", "sha512-"];
    contains_seq(&v, &chars_of("://")) || starts_with_seq(&v, &chars_of("data:"))
        || starts_with_seq(&v, &chars_of("/")) || starts_with_seq(&v, &chars_of("./"))
        || starts_with_seq(&v, &chars_of("../")) || starts_with_seq(&v, &chars_of("@")) || (
    contains_char(&v, '/') && contains_char(&v, '.')) || count_char(&v, '/') >= 2
        || starts_with_seq(&v, &chars_of("urn:")) || starts_with_any(&v, &prefixes)
}

/// The SQL keywords (uppercase, with their delimiting space or parenthesis)
/// that mark a query fragment.
pub open spec fn sql_keywords() -> Seq<&'static str> {
    seq![
        "SELECT ",
        "INSERT ",
        "UPDATE ",
        "DELETE ",
        "WHERE ",
        " LIKE ",
        "LOWER(",
        "UPPER(",
        "COALESCE(",
        "CONCAT(",
        "TRIM(",
        "ORDER BY",
        "GROUP BY",
        "JOIN ",
        "FROM ",
    ]
}

/// A SQL fragment (a keyword of [`sql_keywords`] in the uppercased text) or a
/// namespaced method-call chain.
pub open spec fn sql_or_query_fragment_spec(s: Seq<char>) -> bool {
    ||| occurs_any(unicode_uppercase(s), sql_keywords())
    ||| ((occurs_in(s, ".("@) || (s.contains('.') && s.contains('(') && s.contains(')')))
        && occurs_in(s, "::"@))
}

/// SQL fragments and ORM method-call chains — e.g.
/// `LOWER(I18n.transliterate(name)) LIKE ...` — are code, not secrets.
/// Matching is case-insensitive on common SQL keywords and tolerates
/// parenthesised method-call syntax (`fn(...)`).
pub fn looks_like_sql_or_query_fragment(s: &str) -> (b: bool)
    ensures
        b == sql_or_query_fragment_spec(s@),
{
    let upper = to_uppercase(s);
    let upper_chars = chars_of(upper.as_str());
    let keywords: Vec<&str> = vec![
        "SELECT ",
        "INSERT ",
        "UPDATE ",
        "DELETE ",
        "WHERE ",
        " LIKE ",
        "LOWER(",
        "UPPER(",
        "COALESCE(",
        "CONCAT(",
        "TRIM(",
        "ORDER BY",
        "GROUP BY",
        "JOIN ",
        "FROM ",
    ];
    if contains_any(&upper_chars, &keywords) {
        return true;
    }
    let v = chars_of(s);
    let has_method_call = contains_seq(&v, &chars_of(".(")) || (contains_char(&v, '.')
        && contains_char(&v, '(') && contains_char(&v, ')'));
    let has_namespace = contains_seq(&v, &chars_of("::"));
    has_method_call && has_namespace
}

/// The regex character-class escapes `\s`, `\S`, `\d`, `\D`, `\w`, `\W`,
/// `\b`, `\B`.
pub open spec fn class_escapes() -> Seq<&'static str> {
    seq!["\\s", "\\S", "\\d", "\\D", "\\w", "\\W", "\\b", "\\B"]
}

/// The regex anchors, groups and quantifiers.
pub open spec fn regex_syntax() -> Seq<char> {
    "^$()?*+|"@
}

/// A regex: some class escape, and some anchor/group/quantifier character.
pub open spec fn regex_pattern_spec(s: Seq<char>) -> bool {
    &&& occurs_any(s, class_escapes())
    &&& exists|i: int| 0 <= i < s.len() && regex_syntax().contains(#[trigger] s[i])
}

/// A regex pattern — `(?im-u)^\s*excludesfile\s*=\s*"?\s*(\S+?)\s*"?\s*$` —
/// rather than a secret. Character-class escapes combined with
/// anchors/quantifiers/groups are not a shape any real token encoding
/// produces, but they read as high-entropy noise to a charset-frequency
/// count.
pub fn looks_like_regex_pattern(s: &str) -> (b: bool)
    ensures
        b == regex_pattern_spec(s@),
{
    let v = chars_of(s);
    let escapes: Vec<&str> = vec!["\\s", "\\S", "\\d", "\\D", "\\w", "\\W", "\\b", "\\B"];
    if !contains_any(&v, &escapes) {
        return false;
    }
    assert(escapes@ == class_escapes());
    let syntax = chars_of("^$()?*+|");
    let mut i: usize = 0;
    while i < v.len()
        invariant
            v@ == s@,
            syntax@ == regex_syntax(),
            occurs_any(s@, class_escapes()),
            i <= v.len(),
            forall|k: int| 0 <= k < i ==> !regex_syntax().contains(#[trigger] v@[k]),
        decreases v.len() - i,
    {
        if contains_char(&syntax, v[i]) {
            assert(regex_syntax().contains(v@[i as int]));
            return true;
        }
        i += 1;
    }
    false
}

/// The MIME top-level types, with their `/`.
pub open spec fn mime_prefixes() -> Seq<&'static str> {
    seq![
        "application/",
        "text/",
        "image/",
        "audio/",
        "video/",
        "multipart/",
        "font/",
        "model/",
        "message/",
    ]
}

/// HTTP header names commonly held in string values.
pub open spec fn header_names() -> Seq<&'static str> {
    seq![
        "content-type",
        "content-disposition",
        "authorization",
        "cache-control",
        "accept-encoding",
        "x-requested-with",
        "access-control-allow",
    ]
}

/// A MIME type (the lowercased text begins with a MIME top-level type) or a
/// header value (it holds a header name).
pub open spec fn http_or_mime_value_spec(s: Seq<char>) -> bool {
    begins_with_any(unicode_lowercase(s), mime_prefixes()) || occurs_any(
        unicode_lowercase(s),
        header_names(),
    )
}

/// HTTP header values and MIME type strings — `application/json`,
/// `text/html; charset=utf-8`, `multipart/form-data; boundary=...` — are
/// not secrets.
pub fn looks_like_http_or_mime_value(s: &str) -> (b: bool)
    ensures
        b == http_or_mime_value_spec(s@),
{
    let lower = to_lowercase(s);
    let v = chars_of(lower.as_str());
    let mime: Vec<&str> = vec![
        "application/",
        "text/",
        "image/",
        "audio/",
        "video/",
        "multipart/",
        "font/",
        "model/",
        "message/",
    ];
    if starts_with_any(&v, &mime) {
        return true;
    }
    let headers: Vec<&str> = vec![
        "content-type",
        "content-disposition",
        "authorization",
        "cache-control",
        "accept-encoding",
        "x-requested-with",
        "access-control-allow",
    ];
    contains_any(&v, &headers)
}

} // verus!

verus! {

/// The structural punctuation that identifiers and prose carry: `_-:.,/@()=`.
pub open spec fn structural_chars() -> Seq<char> {
    "_-:.,/@()="@
}

/// `c` is a symbol in the charset sense: neither an ASCII letter or digit
/// nor structural punctuation.
pub open spec fn is_charset_symbol(c: char) -> bool {
    !is_ascii_alnum(c) && !structural_chars().contains(c)
}

/// `s` holds an ASCII digit or a symbol outside the structural set.
pub open spec fn secret_like_charset_spec(s: Seq<char>) -> bool {
    ||| exists|i: int| 0 <= i < s.len() && is_ascii_digit(#[trigger] s[i])
    ||| exists|i: int| 0 <= i < s.len() && is_charset_symbol(#[trigger] s[i])
}

/// Real secrets/tokens are essentially always alphanumeric-plus-symbols
/// (base64, hex-with-mixed-context, or `prefix_base62...`); plain English
/// words and identifiers contain only letters plus `_-:.,` structural
/// punctuation. Requiring a digit or a symbol outside that structural set
/// filters most of that prose out while keeping actual token shapes.
///
/// `=` is in the structural set even though base64 padding uses it too: a
/// real token will still carry a digit almost certainly. What `=` filters
/// out is `key=value`/build-directive syntax —
/// `cargo:rustc-link-arg-bin=rg=/MANIFEST:EMBED`.
pub fn has_secret_like_charset(s: &str) -> (b: bool)
    ensures
        b == secret_like_charset_spec(s@),
{
    let v = chars_of(s);
    let structural = chars_of("_-:.,/@()=");
    let mut has_digit = false;
    let mut has_symbol = false;
    let mut i: usize = 0;
    while i < v.len()
        invariant
            v@ == s@,
            structural@ == structural_chars(),
            i <= v.len(),
            has_digit == exists|k: int| 0 <= k < i && is_ascii_digit(#[trigger] v@[k]),
            has_symbol == exists|k: int| 0 <= k < i && is_charset_symbol(#[trigger] v@[k]),
        decreases v.len() - i,
    {
        let c = v[i];
        if ascii_digit(c) {
            has_digit = true;
        }
        if !ascii_alnum(c) && !contains_char(&structural, c) {
            has_symbol = true;
        }
        proof {
            assert forall|k: int| 0 <= k < i + 1 && is_ascii_digit(#[trigger] v@[k]) implies k
                < i || is_ascii_digit(v@[i as int]) by {}
            assert forall|k: int| 0 <= k < i + 1 && is_charset_symbol(#[trigger] v@[k]) implies k
                < i || is_charset_symbol(v@[i as int]) by {}
        }
        i += 1;
    }
    has_digit || has_symbol
}

/// The longest run that still reads as a typed word.
pub open spec fn max_word_len() -> nat {
    15
}

/// A short all-ASCII-alphanumeric run that does not mix digits with both
/// letter cases.
pub open spec fn word_like_spec(s: Seq<char>) -> bool {
    &&& s.len() <= max_word_len()
    &&& forall|i: int| 0 <= i < s.len() ==> is_ascii_alnum(#[trigger] s[i])
    &&& !((exists|i: int| 0 <= i < s.len() && is_ascii_digit(#[trigger] s[i])) && (exists|i: int|
        0 <= i < s.len() && is_ascii_upper(#[trigger] s[i])) && (exists|i: int|
        0 <= i < s.len() && is_ascii_lower(#[trigger] s[i])))
}

/// Whether the characters `s` form a word-like segment.
pub fn word_like_chars(s: &Vec<char>) -> (b: bool)
    ensures
        b == word_like_spec(s@),
{
    if s.len() > 15 {
        return false;
    }
    let mut has_digit = false;
    let mut has_upper = false;
    let mut has_lower = false;
    let mut i: usize = 0;
    while i < s.len()
        invariant
            i <= s.len(),
            s.len() <= 15,
            forall|k: int| 0 <= k < i ==> is_ascii_alnum(#[trigger] s@[k]),
            has_digit == exists|k: int| 0 <= k < i && is_ascii_digit(#[trigger] s@[k]),
            has_upper == exists|k: int| 0 <= k < i && is_ascii_upper(#[trigger] s@[k]),
            has_lower == exists|k: int| 0 <= k < i && is_ascii_lower(#[trigger] s@[k]),
        decreases s.len() - i,
    {
        let c = s[i];
        if !ascii_alnum(c) {
            assert(!is_ascii_alnum(s@[i as int]));
            return false;
        }
        if ascii_digit(c) {
            has_digit = true;
        }
        if ascii_upper(c) {
            has_upper = true;
        }
        if ascii_lower_letter(c) {
            has_lower = true;
        }
        proof {
            assert forall|k: int| 0 <= k < i + 1 && is_ascii_digit(#[trigger] s@[k]) implies k < i
                || is_ascii_digit(s@[i as int]) by {}
            assert forall|k: int| 0 <= k < i + 1 && is_ascii_upper(#[trigger] s@[k]) implies k < i
                || is_ascii_upper(s@[i as int]) by {}
            assert forall|k: int| 0 <= k < i + 1 && is_ascii_lower(#[trigger] s@[k]) implies k < i
                || is_ascii_lower(s@[i as int]) by {}
        }
        i += 1;
    }
    !(has_digit && has_upper && has_lower)
}

/// One `-`/`_`/`:`/`.`/`,`/`[`/`]`-separated piece of a longer string,
/// judged as "a word someone typed" rather than "a run of random bytes":
/// alphanumeric, short, and — when it carries digits — not also mixing
/// letter case. `missing`, `a11y`, `20250929` and `CamelCase` all pass;
/// `aG3n7Zq9Lm2XpW5` (mixed case *and* digits) and any run longer than a
/// plausible word do not.
pub fn is_word_like_segment(s: &str) -> (b: bool)
    ensures
        b == word_like_spec(s@),
{
    word_like_chars(&chars_of(s))
}

/// The prefixes and headers that issuers stamp on real credentials.
pub open spec fn known_secret_prefixes() -> Seq<&'static str> {
    seq![
        "sk-",
        "sk_",
        "pk_live_",
        "pk_test_",
        "rk_live_",
        "rk_test_",
        "ghp_",
        "gho_",
        "ghu_",
        "ghs_",
        "ghr_",
        "github_pat_",
        "AKIA",
        "ASIA",
        "xoxb-",
        "xoxp-",
        "xoxa-",
        "xoxs-",
        "xoxr-",
        "AIza",
        "eyJ",
        "-----BEGIN",
    ]
}

fn known_secret_prefix_list() -> (v: Vec<&'static str>)
    ensures
        v@ == known_secret_prefixes(),
{
    vec![
        "sk-",
        "sk_",
        "pk_live_",
        "pk_test_",
        "rk_live_",
        "rk_test_",
        "ghp_",
        "gho_",
        "ghu_",
        "ghs_",
        "ghr_",
        "github_pat_",
        "AKIA",
        "ASIA",
        "xoxb-",
        "xoxp-",
        "xoxa-",
        "xoxs-",
        "xoxr-",
        "AIza",
        "eyJ",
        "-----BEGIN",
    ]
}

/// Real credentials (API keys, JWTs, OAuth tokens) essentially always carry
/// a recognizable prefix or header, because every issuer stamps its own
/// format on them: `sk-`/`sk_` (OpenAI/Stripe secret keys), `pk_live_`/
/// `pk_test_` (Stripe publishable keys), `ghp_`/`gho_`/`ghu_`/`ghs_`/`ghr_`/
/// `github_pat_` (GitHub tokens), `AKIA`/`ASIA` (AWS access key ids),
/// `xox[abps]-` (Slack tokens), `AIza` (Google API keys), `eyJ` (the base64
/// of a JWT's `{"` header), and `-----BEGIN` (PEM-encoded keys/certs).
pub fn has_known_secret_prefix(s: &str) -> (b: bool)
    ensures
        b == begins_with_any(s@, known_secret_prefixes()),
{
    starts_with_any(&chars_of(s), &known_secret_prefix_list())
}

/// JSON object key substrings (matched after normalizing) that mark the
/// value they label as credential-shaped.
pub open spec fn sensitive_key_hints() -> Seq<&'static str> {
    seq![
        "apikey",
        "token",
        "secret",
        "password",
        "passwd",
        "credential",
        "authorization",
        "accesskey",
        "privatekey",
        "clientsecret",
        "bearer",
    ]
}

/// A key reduced to its ASCII letters and digits, lowercased.
pub open spec fn normalized_key(s: Seq<char>) -> Seq<char>
    decreases s.len(),
{
    if s.len() == 0 {
        Seq::empty()
    } else if is_ascii_alnum(s.last()) {
        normalized_key(s.drop_last()).push(ascii_lower(s.last()))
    } else {
        normalized_key(s.drop_last())
    }
}

pub(crate) fn ascii_lower_char(c: char) -> (r: char)
    ensures
        r == ascii_lower(c),
{
    if ascii_upper(c) {
        let b = (c as u8) + 32;
        b as char
    } else {
        c
    }
}

/// Normalizes a JSON/object key to bare lowercase letters+digits (dropping
/// `_`/`-`/quotes/whitespace) so `api_key`, `apiKey` and `"API-KEY"` all
/// compare equal, then checks it against [`sensitive_key_hints`].
pub fn key_looks_sensitive(key: &str) -> (b: bool)
    ensures
        b == occurs_any(normalized_key(key@), sensitive_key_hints()),
{
    let v = chars_of(key);
    let mut normalized: Vec<char> = Vec::new();
    let mut i: usize = 0;
    while i < v.len()
        invariant
            i <= v.len(),
            normalized@ == normalized_key(v@.take(i as int)),
        decreases v.len() - i,
    {
        assert(v@.take(i + 1).drop_last() =~= v@.take(i as int));
        if ascii_alnum(v[i]) {
            normalized.push(ascii_lower_char(v[i]));
        }
        i += 1;
    }
    assert(v@.take(v.len() as int) =~= v@);
    let hints: Vec<&str> = vec![
        "apikey",
        "token",
        "secret",
        "password",
        "passwd",
        "credential",
        "authorization",
        "accesskey",
        "privatekey",
        "clientsecret",
        "bearer",
    ];
    contains_any(&normalized, &hints)
}

} // verus!

verus! {

/// The first index at or after `from` where `c` occurs in `s`.
pub open spec fn first_index_from(s: Seq<char>, c: char, from: int) -> Option<int>
    decreases s.len() - from,
{
    if from < 0 || from >= s.len() {
        None
    } else if s[from] == c {
        Some(from)
    } else {
        first_index_from(s, c, from + 1)
    }
}

pub proof fn lemma_first_index_from(s: Seq<char>, c: char, from: int)
    ensures
        first_index_from(s, c, from) matches Some(j) ==> from <= j < s.len() && s[j] == c
            && forall|k: int| from <= k < j ==> s[k] != c,
        first_index_from(s, c, from) is None ==> forall|k: int|
            0 <= from <= k < s.len() ==> s[k] != c,
    decreases s.len() - from,
{
    if from < 0 || from >= s.len() {
    } else if s[from] == c {
    } else {
        lemma_first_index_from(s, c, from + 1);
    }
}

/// The first index at or after `from` where `c` occurs in `s`.
pub fn find_char_from(s: &Vec<char>, c: char, from: usize) -> (r: Option<usize>)
    ensures
        r matches Some(j) ==> first_index_from(s@, c, from as int) == Some(j as int),
        r is None ==> first_index_from(s@, c, from as int) is None,
{
    proof {
        lemma_first_index_from(s@, c, from as int);
    }
    let mut j: usize = from;
    while j < s.len()
        invariant
            from <= j,
            first_index_from(s@, c, from as int) == first_index_from(s@, c, j as int),
        decreases s.len() - j,
    {
        if s[j] == c {
            return Some(j);
        }
        j += 1;
    }
    None
}

/// The characters a format placeholder may hold besides Unicode letters and
/// digits.
pub open spec fn placeholder_punctuation() -> Seq<char> {
    "_:.?#<>^+-"@
}

pub open spec fn is_placeholder_char(c: char) -> bool {
    unicode_alphanumeric(c) || placeholder_punctuation().contains(c)
}

/// Scanning from index `i`: some `{` is followed by a `}` and everything
/// between the `{` and the first `}` after it is placeholder text. A `{`
/// whose braces enclose anything else resumes the scan after that `}`.
pub open spec fn template_from(s: Seq<char>, i: int) -> bool
    decreases s.len() - i,
{
    if i < 0 || i >= s.len() {
        false
    } else if s[i] == '{' && first_index_from(s, '}', i + 1) is Some {
        let j = first_index_from(s, '}', i + 1)->0;
        proof {
            lemma_first_index_from(s, '}', i + 1);
        }
        if forall|k: int| i + 1 <= k < j ==> is_placeholder_char(#[trigger] s[k]) {
            true
        } else {
            template_from(s, j + 1)
        }
    } else {
        template_from(s, i + 1)
    }
}

/// A format-template shape: scanning from the start finds a `{...}`
/// placeholder.
pub open spec fn format_template_spec(s: Seq<char>) -> bool {
    template_from(s, 0)
}

/// A Rust `format!`-style interpolation template — `{candidate}`,
/// `{public_url}/api/...`, `{}` — is source code building a string, not the
/// secret value that ends up in it.
pub fn looks_like_format_template(s: &str) -> (b: bool)
    ensures
        b == format_template_spec(s@),
{
    let v = chars_of(s);
    let punctuation = chars_of("_:.?#<>^+-");
    let mut i: usize = 0;
    while i < v.len()
        invariant
            v@ == s@,
            punctuation@ == placeholder_punctuation(),
            template_from(v@, 0) == template_from(v@, i as int),
        decreases v.len() - i,
    {
        if v[i] == '{' {
            match find_char_from(&v, '}', i + 1) {
                Some(close) => {
                    proof {
                        lemma_first_index_from(v@, '}', i + 1);
                    }
                    let mut all_placeholder = true;
                    let mut k: usize = i + 1;
                    while k < close
                        invariant
                            i + 1 <= k <= close,
                            close < v.len(),
                            v@ == s@,
                            punctuation@ == placeholder_punctuation(),
                            template_from(v@, 0) == template_from(v@, i as int),
                            i < v.len(),
                            v@[i as int] == '{',
                            first_index_from(v@, '}', i + 1) == Some(close as int),
                            all_placeholder == forall|m: int|
                                i + 1 <= m < k ==> is_placeholder_char(#[trigger] v@[m]),
                        decreases close - k,
                    {
                        let c = v[k];
                        let ok = is_alphanumeric_char(c) || contains_char(&punctuation, c);
                        proof {
                            assert forall|m: int|
                                i + 1 <= m < k + 1 && all_placeholder && ok implies is_placeholder_char(
                                #[trigger] v@[m]) by {}
                            if !ok {
                                assert(!is_placeholder_char(v@[k as int]));
                            }
                        }
                        all_placeholder = all_placeholder && ok;
                        k += 1;
                    }
                    if all_placeholder {
                        return true;
                    }
                    i = close + 1;
                    continue ;
                },
                None => {},
            }
        }
        i += 1;
    }
    false
}

} // verus!

verus! {

/// The characters that separate the segments of a structured identifier.
pub open spec fn identifier_delimiters() -> Seq<char> {
    "-_:.,[]/@*"@
}

pub open spec fn is_delimiter(c: char) -> bool {
    identifier_delimiters().contains(c)
}

/// The maximal non-empty runs of non-delimiter characters of `s`, in order
/// (what splitting on the delimiters and dropping empty pieces yields).
pub open spec fn segments(s: Seq<char>) -> Seq<Seq<char>>
    decreases s.len(),
{
    if s.len() == 0 {
        Seq::empty()
    } else {
        let prev = segments(s.drop_last());
        let c = s.last();
        if is_delimiter(c) {
            prev
        } else if s.len() >= 2 && !is_delimiter(s[s.len() - 2]) {
            prev.update(prev.len() - 1, prev.last().push(c))
        } else {
            prev.push(seq![c])
        }
    }
}

/// Two or more segments, every one word-like.
pub open spec fn delimited_identifier_spec(s: Seq<char>) -> bool {
    &&& segments(s).len() >= 2
    &&& forall|k: int| 0 <= k < segments(s).len() ==> word_like_spec(#[trigger] segments(s)[k])
}

proof fn lemma_segments_open(s: Seq<char>)
    requires
        s.len() > 0,
        !is_delimiter(s.last()),
    ensures
        segments(s).len() > 0,
    decreases s.len(),
{
    if s.len() >= 2 && !is_delimiter(s[s.len() - 2]) {
        lemma_segments_open(s.drop_last());
    }
}

/// A structured identifier — a rule id (`a11y:missing-lang-attribute`), a
/// model name (`vendor-model-4-5-20250929`), a dotted accessor path
/// (`.choices[0].message.content`), a glob pattern
/// (`docker-compose.*.yml`) — rather than a secret.
///
/// What separates these from a token is *segmentation*: an identifier is
/// several short words joined by structural punctuation, while a random
/// token is one unbroken run (or, for a prefixed key like
/// `sk-proj-<random>`, a couple of short words followed by a long run that
/// is not a word). So: two or more segments, every one of them word-like.
/// `*` is a delimiter: a real token never contains a literal wildcard.
pub fn looks_like_delimited_identifier(s: &str) -> (b: bool)
    ensures
        b == delimited_identifier_spec(s@),
{
    let v = chars_of(s);
    let delimiters = chars_of("-_:.,[]/@*");
    let mut count: usize = 0;
    let mut closed_ok = true;
    let mut cur: Vec<char> = Vec::new();
    let mut i: usize = 0;
    while i < v.len()
        invariant
            v@ == s@,
            delimiters@ == identifier_delimiters(),
            i <= v.len(),
            count == segments(v@.take(i as int)).len(),
            count <= i,
            cur@.len() > 0 ==> count > 0,
            cur@.len() > 0 <==> (i > 0 && !is_delimiter(v@[i - 1])),
            cur@.len() > 0 ==> cur@ == segments(v@.take(i as int)).last(),
            closed_ok == forall|k: int|
                0 <= k < count - (if cur@.len() > 0 {
                    1int
                } else {
                    0int
                }) ==> word_like_spec(#[trigger] segments(v@.take(i as int))[k]),
        decreases v.len() - i,
    {
        let c = v[i];
        let ghost t = v@.take(i as int);
        let ghost t1 = v@.take(i + 1);
        assert(t1.drop_last() =~= t);
        assert(t1.last() == c);
        if contains_char(&delimiters, c) {
            assert(segments(t1) == segments(t));
            if cur.len() > 0 {
                let ok = word_like_chars(&cur);
                proof {
                    let segs = segments(t1);
                    assert(segs[count - 1] == cur@);
                    let new_ok = closed_ok && ok;
                    if new_ok {
                        assert forall|k: int| 0 <= k < count implies word_like_spec(
                            #[trigger] segs[k]) by {
                            if k < count - 1 {
                                assert(word_like_spec(segments(t)[k]));
                            }
                        }
                    } else if !ok {
                        assert(!word_like_spec(segs[count - 1]));
                    } else {
                        let k = choose|k: int|
                            0 <= k < count - 1 && !word_like_spec(#[trigger] segments(t)[k]);
                        assert(!word_like_spec(segs[k]));
                    }
                }
                closed_ok = closed_ok && ok;
                cur = Vec::new();
            }
        } else {
            if cur.len() > 0 {
                proof {
                    assert(t1.len() >= 2 && !is_delimiter(t1[t1.len() - 2]));
                    let segs = segments(t1);
                    assert(segs.len() == count);
                    assert forall|k: int|
                        0 <= k < count - 1 implies #[trigger] segs[k] == segments(t)[k] by {}
                    if !closed_ok {
                        let k = choose|k: int|
                            0 <= k < count - 1 && !word_like_spec(#[trigger] segments(t)[k]);
                        assert(!word_like_spec(segs[k]));
                    }
                    assert(segs.last() == cur@.push(c));
                }
                cur.push(c);
            } else {
                proof {
                    if t1.len() >= 2 {
                        assert(is_delimiter(t1[t1.len() - 2]));
                    }
                    let segs = segments(t1);
                    assert(segs.len() == count + 1);
                    assert forall|k: int|
                        0 <= k < count implies #[trigger] segs[k] == segments(t)[k] by {}
                    if !closed_ok {
                        let k = choose|k: int|
                            0 <= k < count && !word_like_spec(#[trigger] segments(t)[k]);
                        assert(!word_like_spec(segs[k]));
                    }
                    assert(segs.last() == seq![c]);
                }
                cur.push(c);
                assert(cur@ =~= seq![c]);
                count += 1;
            }
        }
        i += 1;
    }
    assert(v@.take(v.len() as int) =~= v@);
    if cur.len() > 0 {
        let ok = word_like_chars(&cur);
        proof {
            if !ok {
                assert(!word_like_spec(segments(v@)[count - 1]));
            }
        }
        count >= 2 && closed_ok && ok
    } else {
        count >= 2 && closed_ok
    }
}

/// The quote characters a literal may be wrapped in.
pub open spec fn is_quote(c: char) -> bool {
    c == '"' || c == '\'' || c == '`'
}

/// `s` without the prefix of a Rust byte or raw string literal: `br`, `rb`,
/// `b` or `r` directly followed by a quote character. Text with no such
/// prefix (`bar`, `rust`) is left as it is.
pub open spec fn without_literal_prefix(s: Seq<char>) -> Seq<char> {
    if (begins_with(s, "br"@) || begins_with(s, "rb"@)) && s.len() > 2 && is_quote(s[2]) {
        s.skip(2)
    } else if (begins_with(s, "b"@) || begins_with(s, "r"@)) && s.len() > 1 && is_quote(s[1]) {
        s.skip(1)
    } else {
        s
    }
}

/// The literal's value: the prefix dropped, then one layer of matching
/// quotes removed when the rest is at least two characters long.
pub open spec fn strip_quotes_spec(s: Seq<char>) -> Seq<char> {
    let t = without_literal_prefix(s);
    if t.len() >= 2 && t[0] == t.last() && is_quote(t[0]) {
        t.subrange(1, t.len() - 1)
    } else {
        t
    }
}

/// Strips one layer of matching quote characters (`"`, `'`, `` ` ``) so
/// entropy is computed over the literal's value, not its syntax. Also
/// drops the prefix of a Rust byte/raw string literal (`b"..."`, `r"..."`,
/// `br"..."`, `rb"..."`) first, and only there — those aren't part of the value either, and left in
/// place they'd make an exact-match check like
/// [`looks_like_known_charset_alphabet`] never fire on the byte-string
/// constants that's the common way to declare a fixed alphabet.
pub fn strip_quotes(s: &str) -> (r: String)
    ensures
        r@ == strip_quotes_spec(s@),
{
    let v = chars_of(s);
    proof {
        reveal_strlit("br");
        reveal_strlit("rb");
        reveal_strlit("b");
        reveal_strlit("r");
    }
    let start: usize = if (starts_with_seq(&v, &chars_of("br")) || starts_with_seq(
        &v,
        &chars_of("rb"),
    )) && v.len() > 2 && (v[2] == '"' || v[2] == '\'' || v[2] == '`') {
        2
    } else if (starts_with_seq(&v, &chars_of("b")) || starts_with_seq(&v, &chars_of("r")))
        && v.len() > 1 && (v[1] == '"' || v[1] == '\'' || v[1] == '`') {
        1
    } else {
        0
    };
    let ghost t = without_literal_prefix(v@);
    assert(t =~= v@.subrange(start as int, v@.len() as int));
    let n = v.len() - start;
    let (lo, hi) = if n >= 2 && v[start] == v[v.len() - 1] && (v[start] == '"' || v[start] == '\''
        || v[start] == '`') {
        (start + 1, v.len() - 1)
    } else {
        (start, v.len())
    };
    let mut out = String::new();
    let mut k = lo;
    while k < hi
        invariant
            lo <= k <= hi <= v.len(),
            out@ == v@.subrange(lo as int, k as int),
        decreases hi - k,
    {
        push_char(&mut out, v[k]);
        assert(v@.subrange(lo as int, k + 1) =~= v@.subrange(lo as int, k as int).push(
            v@[k as int],
        ));
        k += 1;
    }
    assert(strip_quotes_spec(v@) =~= v@.subrange(lo as int, hi as int));
    out
}

/// What the escape `\c` stands for, when `c` is one of the common escapes.
pub open spec fn escape_target(c: char) -> Option<char> {
    if c == 'n' {
        Some('\n')
    } else if c == 't' {
        Some('\t')
    } else if c == 'r' {
        Some('\r')
    } else if c == '0' {
        Some('\0')
    } else if c == '\\' || c == '"' || c == '\'' {
        Some(c)
    } else {
        None
    }
}

/// `s` with each common escape (`\n`, `\t`, `\r`, `\0`, `\\`, `\"`, `\'`)
/// replaced by its character, read left to right; any other backslash is
/// kept as it is.
pub open spec fn unescape_spec(s: Seq<char>) -> Seq<char>
    decreases s.len(),
{
    if s.len() == 0 {
        Seq::empty()
    } else if s[0] != '\\' {
        seq![s[0]] + unescape_spec(s.skip(1))
    } else if s.len() >= 2 && escape_target(s[1]) is Some {
        seq![escape_target(s[1])->0] + unescape_spec(s.skip(2))
    } else {
        seq!['\\'] + unescape_spec(s.skip(1))
    }
}

fn escape_target_of(c: char) -> (r: Option<char>)
    ensures
        r == escape_target(c),
{
    if c == 'n' {
        Some('\n')
    } else if c == 't' {
        Some('\t')
    } else if c == 'r' {
        Some('\r')
    } else if c == '0' {
        Some('\0')
    } else if c == '\\' || c == '"' || c == '\'' {
        Some(c)
    } else {
        None
    }
}

/// Resolves the handful of common backslash escapes (`\n`, `\t`, `\r`,
/// `\\`, `\"`, `\'`, `\0`) to their actual character, leaving anything else
/// untouched. A literal like `"rule_id,severity,message\n"` reads as a
/// comma-joined header row followed by a real newline once unescaped —
/// exactly the shape the whitespace/charset checks already know how to
/// recognize as non-secret — rather than a string ending in a stray `\`
/// symbol byte.
pub fn unescape_common(s: &str) -> (r: String)
    ensures
        r@ == unescape_spec(s@),
{
    let v = chars_of(s);
    let mut out = String::new();
    let mut i: usize = 0;
    assert(v@.skip(0) =~= v@);
    while i < v.len()
        invariant
            v@ == s@,
            i <= v.len(),
            out@ + unescape_spec(v@.skip(i as int)) == unescape_spec(v@),
        decreases v.len() - i,
    {
        let ghost rest = v@.skip(i as int);
        let c = v[i];
        assert(rest[0] == c);
        assert(rest.skip(1) =~= v@.skip(i + 1));
        if c != '\\' {
            push_char(&mut out, c);
            assert(out@ + unescape_spec(v@.skip(i + 1)) =~= (out@.drop_last() + unescape_spec(
                rest,
            )));
            i += 1;
            continue ;
        }
        let target = if i + 1 < v.len() {
            escape_target_of(v[i + 1])
        } else {
            None
        };
        match target {
            Some(t) => {
                assert(rest[1] == v@[i + 1]);
                assert(rest.skip(2) =~= v@.skip(i + 2));
                push_char(&mut out, t);
                assert(out@ + unescape_spec(v@.skip(i + 2)) =~= (out@.drop_last() + unescape_spec(
                    rest,
                )));
                i += 2;
            },
            None => {
                proof {
                    if rest.len() >= 2 {
                        assert(rest[1] == v@[i + 1]);
                    }
                }
                push_char(&mut out, c);
                assert(out@ + unescape_spec(v@.skip(i + 1)) =~= (out@.drop_last() + unescape_spec(
                    rest,
                )));
                i += 1;
            },
        }
    }
    assert(v@.skip(v.len() as int) =~= Seq::<char>::empty());
    assert(out@ + Seq::<char>::empty() =~= out@);
    out
}

/// Every string of the length of an MD5 (32), SHA-1 (40), SHA-224 (56),
/// SHA-256 (64), SHA-384 (96) or SHA-512 (128) hex digest made only of
/// ASCII hex digits is recognized as a hex digest, and nothing else is.
pub proof fn law_hex_digests_are_exactly_the_digest_lengths(s: Seq<char>)
    ensures
        hex_digest_spec(s) <==> (s.len() == 32 || s.len() == 40 || s.len() == 56 || s.len() == 64
            || s.len() == 96 || s.len() == 128) && forall|i: int|
            0 <= i < s.len() ==> ('0' <= #[trigger] s[i] && s[i] <= '9') || ('a' <= s[i] && s[i]
                <= 'f') || ('A' <= s[i] && s[i] <= 'F'),
{
}

/// A short run of ASCII letters and digits is word-like unless it mixes
/// digits with both letter cases: at most 15 characters, all ASCII
/// alphanumeric, and not holding a digit, an uppercase and a lowercase
/// letter all at once (`HTTP2`, `v2`, `a11y`, `CamelCase` are word-like).
pub proof fn law_word_like_segments(s: Seq<char>)
    ensures
        word_like_spec(s) <==> {
            &&& s.len() <= 15
            &&& forall|i: int|
                0 <= i < s.len() ==> ('0' <= #[trigger] s[i] && s[i] <= '9') || ('a' <= s[i]
                    && s[i] <= 'z') || ('A' <= s[i] && s[i] <= 'Z')
            &&& !((exists|i: int| 0 <= i < s.len() && '0' <= #[trigger] s[i] && s[i] <= '9')
                && (exists|i: int| 0 <= i < s.len() && 'A' <= #[trigger] s[i] && s[i] <= 'Z')
                && (exists|i: int| 0 <= i < s.len() && 'a' <= #[trigger] s[i] && s[i] <= 'z'))
        },
{
}

/// Letters of a single case, with or without digits, never make a segment
/// look random: a short ASCII alphanumeric run without both an uppercase
/// and a lowercase letter is word-like, whatever digits it holds.
pub proof fn law_single_case_segments_are_word_like(s: Seq<char>)
    requires
        s.len() <= 15,
        forall|i: int|
            0 <= i < s.len() ==> ('0' <= #[trigger] s[i] && s[i] <= '9') || ('a' <= s[i] && s[i]
                <= 'z') || ('A' <= s[i] && s[i] <= 'Z'),
        (forall|i: int| 0 <= i < s.len() ==> !('A' <= #[trigger] s[i] && s[i] <= 'Z')) || (
        forall|i: int| 0 <= i < s.len() ==> !('a' <= #[trigger] s[i] && s[i] <= 'z')),
    ensures
        word_like_spec(s),
{
}

} // verus!
