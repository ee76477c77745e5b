//! The `secrets:high-entropy-string` rule's screening: which files it
//! skips, and which string literals survive every "plainly not a secret"
//! filter to have their entropy scored.

use std::collections::HashMap;
use vstd::prelude::*;
use crate::heuristics::{
    css_variable_spec, delimited_identifier_spec, format_template_spec, has_known_secret_prefix,
    has_secret_like_charset, hex_digest_spec, http_or_mime_value_spec, key_looks_sensitive,
    known_alphabet_spec, known_secret_prefixes, looks_like_css_variable,
    looks_like_delimited_identifier, looks_like_format_template, looks_like_hex_digest,
    looks_like_http_or_mime_value, looks_like_known_charset_alphabet, looks_like_regex_pattern,
    looks_like_sql_or_query_fragment, looks_like_tailwind_arbitrary_value,
    looks_like_url_path_or_integrity_hash, looks_like_uuid, normalized_key, regex_pattern_spec,
    secret_like_charset_spec, sensitive_key_hints, sql_or_query_fragment_spec, strip_quotes,
    strip_quotes_spec, tailwind_arbitrary_value_spec, unescape_common, unescape_spec,
    url_path_or_integrity_hash_spec, uuid_spec,
};
use crate::syntax::{
    SyntaxKind, SyntaxNode, collect_json_pair_keys, key_texts, lemma_record_pair_keys_last_writer,
    pair_key_entry, position_key, preorder, preorder_all, record_pair_keys,
};
use crate::text::{
    begins_with_any, chars_of, contains_seq, ends_with_seq, finishes_with, is_whitespace_char,
    occurs_any, occurs_in, to_lowercase, unicode_lowercase, unicode_whitespace,
};

verus! {

/// Files the rule never reads, judged on the lowercased path: lockfiles,
/// YAML, translation catalogs, and the secrets/OWASP rulesets' own sources
/// (dense with long pattern literals that are not credentials).
pub open spec fn exempt_path_spec(path: Seq<char>) -> bool {
    let p = unicode_lowercase(path);
    ||| finishes_with(p, ".lock"@)
    ||| occurs_in(p, "-lock."@)
    ||| finishes_with(p, ".yaml"@)
    ||| finishes_with(p, ".yml"@)
    ||| occurs_in(p, "/i18n/"@)
    ||| occurs_in(p, "/locales/"@)
    ||| occurs_in(p, "/lang/"@)
    ||| occurs_in(p, "/translations/"@)
    ||| finishes_with(p, ".po"@)
    ||| finishes_with(p, ".pot"@)
    ||| occurs_in(p, "rulesets/secrets"@)
    ||| occurs_in(p, "rulesets/owasp"@)
}

/// Whether the rule skips the file at `path` altogether.
pub fn path_is_exempt(path: &str) -> (b: bool)
    ensures
        b == exempt_path_spec(path@),
{
    let lower = to_lowercase(path);
    let p = chars_of(lower.as_str());
    ends_with_seq(&p, &chars_of(".lock")) || contains_seq(&p, &chars_of("-lock."))
        || ends_with_seq(&p, &chars_of(".yaml")) || ends_with_seq(&p, &chars_of(".yml"))
        || contains_seq(&p, &chars_of("/i18n/")) || contains_seq(&p, &chars_of("/locales/"))
        || contains_seq(&p, &chars_of("/lang/")) || contains_seq(&p, &chars_of("/translations/"))
        || ends_with_seq(&p, &chars_of(".po")) || ends_with_seq(&p, &chars_of(".pot"))
        || contains_seq(&p, &chars_of("rulesets/secrets")) || contains_seq(
        &p,
        &chars_of("rulesets/owasp"),
    )
}

/// A value this long with no recognizable secret prefix reads as
/// serialized data (base64 assets, presets, encoded payloads), not a
/// credential — unless its JSON key looks sensitive.
pub const MAX_LENGTH_WITHOUT_KNOWN_PREFIX: usize = 200;

/// The value looks like one of the recognized non-secret shapes.
pub open spec fn non_secret_shape(v: Seq<char>) -> bool {
    ||| hex_digest_spec(v)
    ||| uuid_spec(v)
    ||| url_path_or_integrity_hash_spec(v)
    ||| format_template_spec(v)
    ||| delimited_identifier_spec(v)
    ||| css_variable_spec(v)
    ||| known_alphabet_spec(v)
    ||| tailwind_arbitrary_value_spec(v)
    ||| sql_or_query_fragment_spec(v)
    ||| http_or_mime_value_spec(v)
    ||| regex_pattern_spec(v)
}

/// `v` holds a Unicode whitespace character.
pub open spec fn has_whitespace(v: Seq<char>) -> bool {
    exists|i: int| 0 <= i < v.len() && unicode_whitespace(#[trigger] v[i])
}

/// A key is credential-shaped.
pub open spec fn key_sensitive_spec(key: Seq<char>) -> bool {
    occurs_any(normalized_key(key), sensitive_key_hints())
}

/// What the screen makes of one literal: `None` when it is skipped,
/// otherwise its unescaped value and whether it is flagged sensitive (a
/// sensitive key or a known secret prefix). `key` is the literal's JSON
/// key, lowercased, when it is a pair's value; `ignore_keys` are the
/// lowercased keys whose values are never flagged.
pub open spec fn screen_spec(
    text: Seq<char>,
    key: Option<Seq<char>>,
    ignore_keys: Seq<Seq<char>>,
    min_length: nat,
) -> Option<(Seq<char>, bool)> {
    let value = unescape_spec(strip_quotes_spec(text));
    if !vstd::utf8::is_ascii_chars(value) || value.len() < min_length || has_whitespace(value) {
        None
    } else if non_secret_shape(value) || !secret_like_charset_spec(value) {
        None
    } else if key is Some && ignore_keys.contains(key->0) {
        None
    } else {
        let sensitive = key is Some && key_sensitive_spec(key->0);
        let prefixed = begins_with_any(value, known_secret_prefixes());
        if !sensitive && value.len() > MAX_LENGTH_WITHOUT_KNOWN_PREFIX && !prefixed {
            None
        } else {
            Some((value, sensitive || prefixed))
        }
    }
}

/// A literal under one of the ignored keys is never flagged, whatever its
/// value.
pub proof fn law_ignored_keys_are_never_flagged(
    text: Seq<char>,
    ignore_keys: Seq<Seq<char>>,
    key: Seq<char>,
    min_length: nat,
)
    requires
        ignore_keys.contains(key),
    ensures
        screen_spec(text, Some(key), ignore_keys, min_length) is None,
{
}

/// Ignored keys affect only their own values: a literal under any other
/// key, or under no key at all, is screened exactly as with no keys
/// ignored.
pub proof fn law_ignore_keys_leave_other_literals_alone(
    text: Seq<char>,
    ignore_keys: Seq<Seq<char>>,
    key: Option<Seq<char>>,
    min_length: nat,
)
    requires
        key matches Some(k) ==> !ignore_keys.contains(k),
    ensures
        screen_spec(text, key, ignore_keys, min_length) == screen_spec(
            text,
            key,
            Seq::empty(),
            min_length,
        ),
{
}

/// What a flagged literal always is: its value is ASCII, at least the
/// minimum length, free of whitespace, not of a recognized non-secret shape
/// and of a secret-like charset; a value longer than
/// [`MAX_LENGTH_WITHOUT_KNOWN_PREFIX`] is flagged only as sensitive; and it
/// is flagged sensitive exactly when its key looks sensitive or it starts
/// with a known secret prefix.
pub proof fn law_flagged_literals(
    text: Seq<char>,
    key: Option<Seq<char>>,
    ignore_keys: Seq<Seq<char>>,
    min_length: nat,
)
    ensures
        screen_spec(text, key, ignore_keys, min_length) matches Some((v, sensitive)) ==> {
            &&& v == unescape_spec(strip_quotes_spec(text))
            &&& vstd::utf8::is_ascii_chars(v)
            &&& v.len() >= min_length
            &&& !has_whitespace(v)
            &&& !non_secret_shape(v)
            &&& secret_like_charset_spec(v)
            &&& (v.len() > MAX_LENGTH_WITHOUT_KNOWN_PREFIX ==> sensitive)
            &&& sensitive == ((key is Some && key_sensitive_spec(key->0)) || begins_with_any(
                v,
                known_secret_prefixes(),
            ))
        },
{
}

/// A literal whose value is a hex digest (32, 40, 56, 64, 96 or 128 ASCII
/// hex digits: MD5, SHA-1, SHA-224, SHA-256, SHA-384, SHA-512) is never
/// flagged, whatever its key.
pub proof fn law_hex_digests_are_never_flagged(
    text: Seq<char>,
    key: Option<Seq<char>>,
    ignore_keys: Seq<Seq<char>>,
    min_length: nat,
)
    requires
        ({
            let v = unescape_spec(strip_quotes_spec(text));
            &&& (v.len() == 32 || v.len() == 40 || v.len() == 56 || v.len() == 64 || v.len() == 96
                || v.len() == 128)
            &&& forall|i: int|
                0 <= i < v.len() ==> ('0' <= #[trigger] v[i] && v[i] <= '9') || ('a' <= v[i]
                    && v[i] <= 'f') || ('A' <= v[i] && v[i] <= 'F')
        }),
    ensures
        screen_spec(text, key, ignore_keys, min_length) is None,
{
    crate::heuristics::law_hex_digests_are_exactly_the_digest_lengths(
        unescape_spec(strip_quotes_spec(text)),
    );
}

/// A literal that survived the screen: its value (whose entropy is scored
/// next) and whether it is flagged sensitive.
pub struct ScreenedLiteral {
    pub value: String,
    pub is_sensitive: bool,
}

/// The screening half of the `secrets:high-entropy-string` rule: the
/// minimum literal length worth scoring, and the JSON/object key names
/// (lowercased) whose values are never flagged — the project's own
/// declaration that a key like `"value"` or `"preset"` holds serialized
/// data, not a credential (`vord.toml`'s `[secrets] ignore_keys`).
pub struct HighEntropyStringRule {
    min_length: usize,
    ignore_keys: Vec<String>,
}

impl Default for HighEntropyStringRule {
    /// The default screen, as [`HighEntropyStringRule::new`].
    fn default() -> (r: Self)
        ensures
            r.min_length_spec() == 20,
            r.ignore_keys_spec() == Seq::<Seq<char>>::empty(),
    {
        Self::new()
    }
}

/// The keys, each lowercased.
pub open spec fn lowercased(keys: Seq<String>) -> Seq<Seq<char>> {
    keys.map_values(|k: String| unicode_lowercase(k@))
}

/// Configuring no ignored keys screens as the default rule does: the
/// lowercased list of no keys is empty.
pub proof fn law_no_ignore_keys_is_the_default()
    ensures
        lowercased(Seq::<String>::empty()) == Seq::<Seq<char>>::empty(),
{
    assert(lowercased(Seq::<String>::empty()) =~= Seq::<Seq<char>>::empty());
}

impl HighEntropyStringRule {
    /// The minimum literal length to consider.
    pub closed spec fn min_length_spec(&self) -> nat {
        self.min_length as nat
    }

    /// The lowercased ignored keys.
    pub closed spec fn ignore_keys_spec(&self) -> Seq<Seq<char>> {
        self.ignore_keys@.map_values(|k: String| k@)
    }

    /// The default screen: literals of at least 20 characters, no ignored
    /// keys.
    pub fn new() -> (r: Self)
        ensures
            r.min_length_spec() == 20,
            r.ignore_keys_spec() == Seq::<Seq<char>>::empty(),
    {
        Self::with_config(20, Vec::new())
    }

    /// The default minimum length plus a project-declared list of
    /// JSON/object key names to never flag — `vord.toml`'s
    /// `[secrets] ignore_keys`.
    pub fn with_ignore_keys(ignore_keys: Vec<String>) -> (r: Self)
        ensures
            r.min_length_spec() == 20,
            r.ignore_keys_spec() == lowercased(ignore_keys@),
    {
        Self::with_config(20, ignore_keys)
    }

    /// A screen with the given minimum length and ignored keys; the keys are
    /// lowercased.
    pub fn with_config(min_length: usize, ignore_keys: Vec<String>) -> (r: Self)
        ensures
            r.min_length_spec() == min_length,
            r.ignore_keys_spec() == lowercased(ignore_keys@),
    {
        let mut keys: Vec<String> = Vec::new();
        let mut i: usize = 0;
        while i < ignore_keys.len()
            invariant
                i <= ignore_keys.len(),
                keys@.map_values(|k: String| k@) == lowercased(ignore_keys@.take(i as int)),
            decreases ignore_keys.len() - i,
        {
            let lower = to_lowercase(ignore_keys[i].as_str());
            let ghost before = keys@;
            keys.push(lower);
            proof {
                let prev = ignore_keys@.take(i as int);
                assert(ignore_keys@.take(i + 1) =~= prev.push(ignore_keys@[i as int]));
                assert(keys@ =~= before.push(lower));
                assert(keys@.map_values(|k: String| k@) =~= before.map_values(|k: String| k@).push(
                    lower@,
                ));
                assert(lowercased(ignore_keys@.take(i + 1)) =~= lowercased(prev).push(
                    unicode_lowercase(ignore_keys@[i as int]@),
                ));
            }
            i += 1;
        }
        assert(ignore_keys@.take(ignore_keys.len() as int) =~= ignore_keys@);
        HighEntropyStringRule { min_length, ignore_keys: keys }
    }

    /// The minimum literal length the screen considers.
    pub fn min_length(&self) -> (n: usize)
        ensures
            n == self.min_length_spec(),
    {
        self.min_length
    }

    /// Whether `key` is one of the ignored keys.
    fn is_ignored_key(&self, key: &str) -> (b: bool)
        ensures
            b == self.ignore_keys_spec().contains(key@),
    {
        let k = chars_of(key);
        let mut i: usize = 0;
        while i < self.ignore_keys.len()
            invariant
                i <= self.ignore_keys.len(),
                k@ == key@,
                forall|j: int| 0 <= j < i ==> self.ignore_keys@[j]@ != key@,
            decreases self.ignore_keys.len() - i,
        {
            let candidate = chars_of(self.ignore_keys[i].as_str());
            if crate::text::same_chars(&candidate, &k) {
                assert(self.ignore_keys_spec()[i as int] == key@);
                return true;
            }
            i += 1;
        }
        proof {
            if self.ignore_keys_spec().contains(key@) {
                let j = choose|j: int|
                    0 <= j < self.ignore_keys_spec().len() && self.ignore_keys_spec()[j] == key@;
                assert(self.ignore_keys@[j]@ == key@);
            }
        }
        false
    }

    /// Screens one string literal: `text` is the literal as written (quotes
    /// and any byte/raw prefix included), `key` its JSON key (lowercased)
    /// when it is the value of a pair. `None` when the literal is too short,
    /// not ASCII, holds whitespace, has a recognized non-secret shape, lacks
    /// a secret-like charset, sits under an ignored key, or is an unprefixed
    /// over-long blob under a non-sensitive key; otherwise its value and
    /// whether it is flagged sensitive.
    pub fn screen_literal(&self, text: &str, key: Option<&str>) -> (r: Option<ScreenedLiteral>)
        ensures
            r is None <==> screen_spec(
                text@,
                match key {
                    Some(k) => Some(k@),
                    None => None,
                },
                self.ignore_keys_spec(),
                self.min_length_spec(),
            ) is None,
            r matches Some(lit) ==> screen_spec(
                text@,
                match key {
                    Some(k) => Some(k@),
                    None => None,
                },
                self.ignore_keys_spec(),
                self.min_length_spec(),
            ) == Some((lit.value@, lit.is_sensitive)),
    {
        let stripped = strip_quotes(text);
        let value = unescape_common(stripped.as_str());
        let v = chars_of(value.as_str());
        if !value.is_ascii() || v.len() < self.min_length {
            return None;
        }
        let mut i: usize = 0;
        while i < v.len()
            invariant
                i <= v.len(),
                v@ == value@,
                value@ == unescape_spec(strip_quotes_spec(text@)),
                forall|k: int| 0 <= k < i ==> !unicode_whitespace(#[trigger] v@[k]),
            decreases v.len() - i,
        {
            if is_whitespace_char(v[i]) {
                assert(unicode_whitespace(v@[i as int]));
                return None;
            }
            i += 1;
        }
        let s = value.as_str();
        if looks_like_hex_digest(s) || looks_like_uuid(s) || looks_like_url_path_or_integrity_hash(s)
            || looks_like_format_template(s) || looks_like_delimited_identifier(s)
            || looks_like_css_variable(s) || looks_like_known_charset_alphabet(s)
            || looks_like_tailwind_arbitrary_value(s) || looks_like_sql_or_query_fragment(s)
            || looks_like_http_or_mime_value(s) || looks_like_regex_pattern(s) {
            return None;
        }
        if !has_secret_like_charset(s) {
            return None;
        }
        let sensitive = match key {
            Some(k) => {
                if self.is_ignored_key(k) {
                    return None;
                }
                key_looks_sensitive(k)
            },
            None => false,
        };
        let prefixed = has_known_secret_prefix(s);
        if !sensitive && v.len() > MAX_LENGTH_WITHOUT_KNOWN_PREFIX && !prefixed {
            return None;
        }
        Some(ScreenedLiteral { value, is_sensitive: sensitive || prefixed })
    }
}

} // verus!

verus! {

broadcast use vstd::std_specs::hash::group_hash_axioms;

/// The key a node sits under when it is the value of a JSON pair.
pub open spec fn key_at(keys: Map<u64, Seq<char>>, n: SyntaxNode) -> Option<Seq<char>> {
    let k = position_key(n.start_line, n.start_col);
    if keys.contains_key(k) {
        Some(keys[k])
    } else {
        None
    }
}

/// The string literals of `nodes`, outside test code, that survive the
/// screen, in order: each with its node's id, its value and whether it is
/// flagged sensitive.
pub open spec fn screened_literals(
    nodes: Seq<SyntaxNode>,
    keys: Map<u64, Seq<char>>,
    ignore_keys: Seq<Seq<char>>,
    min_length: nat,
) -> Seq<(usize, Seq<char>, bool)>
    decreases nodes.len(),
{
    if nodes.len() == 0 {
        Seq::empty()
    } else {
        let prev = screened_literals(nodes.drop_last(), keys, ignore_keys, min_length);
        let n = nodes.last();
        if n.kind == SyntaxKind::StringLiteral && !n.in_test_code {
            match screen_spec(n.text@, key_at(keys, n), ignore_keys, min_length) {
                Some((v, s)) => prev.push((n.id, v, s)),
                None => prev,
            }
        } else {
            prev
        }
    }
}

pub proof fn lemma_screened_literals_append(
    a: Seq<SyntaxNode>,
    b: Seq<SyntaxNode>,
    keys: Map<u64, Seq<char>>,
    ignore_keys: Seq<Seq<char>>,
    min_length: nat,
)
    ensures
        screened_literals(a + b, keys, ignore_keys, min_length) == screened_literals(
            a,
            keys,
            ignore_keys,
            min_length,
        ) + screened_literals(b, keys, ignore_keys, min_length),
    decreases b.len(),
{
    if b.len() == 0 {
        assert(a + b =~= a);
        assert(screened_literals(a, keys, ignore_keys, min_length) + Seq::empty() =~= screened_literals(
            a,
            keys,
            ignore_keys,
            min_length,
        ));
    } else {
        lemma_screened_literals_append(a, b.drop_last(), keys, ignore_keys, min_length);
        assert((a + b).drop_last() =~= a + b.drop_last());
        assert((a + b).last() == b.last());
        let fa = screened_literals(a, keys, ignore_keys, min_length);
        let fb = screened_literals(b.drop_last(), keys, ignore_keys, min_length);
        let n = b.last();
        if n.kind == SyntaxKind::StringLiteral && !n.in_test_code {
            match screen_spec(n.text@, key_at(keys, n), ignore_keys, min_length) {
                Some((v, s)) => {
                    assert((fa + fb).push((n.id, v, s)) =~= fa + fb.push((n.id, v, s)));
                },
                None => {},
            }
        }
    }
}

/// Every literal the screen of a file reports comes from a string literal
/// node outside test code, whose key (if any) is not ignored, and is
/// reported with the value and sensitivity the screen gives that node.
pub proof fn law_reported_literals_come_from_screened_nodes(
    nodes: Seq<SyntaxNode>,
    keys: Map<u64, Seq<char>>,
    ignore_keys: Seq<Seq<char>>,
    min_length: nat,
    j: int,
)
    requires
        0 <= j < screened_literals(nodes, keys, ignore_keys, min_length).len(),
    ensures
        ({
            let e = screened_literals(nodes, keys, ignore_keys, min_length)[j];
            exists|i: int|
                #![trigger nodes[i]]
                0 <= i < nodes.len() && nodes[i].id == e.0 && nodes[i].kind
                    == SyntaxKind::StringLiteral && !nodes[i].in_test_code && !(key_at(
                    keys,
                    nodes[i],
                ) matches Some(k) && ignore_keys.contains(k)) && screen_spec(
                    nodes[i].text@,
                    key_at(keys, nodes[i]),
                    ignore_keys,
                    min_length,
                ) == Some((e.1, e.2))
        }),
    decreases nodes.len(),
{
    let prev = screened_literals(nodes.drop_last(), keys, ignore_keys, min_length);
    let e = screened_literals(nodes, keys, ignore_keys, min_length)[j];
    if j < prev.len() {
        law_reported_literals_come_from_screened_nodes(
            nodes.drop_last(),
            keys,
            ignore_keys,
            min_length,
            j,
        );
        let i = choose|i: int|
            #![trigger nodes.drop_last()[i]]
            0 <= i < nodes.drop_last().len() && nodes.drop_last()[i].id == e.0
                && nodes.drop_last()[i].kind == SyntaxKind::StringLiteral
                && !nodes.drop_last()[i].in_test_code && !(key_at(keys, nodes.drop_last()[i]) matches Some(
                k,
            ) && ignore_keys.contains(k)) && screen_spec(
                nodes.drop_last()[i].text@,
                key_at(keys, nodes.drop_last()[i]),
                ignore_keys,
                min_length,
            ) == Some((e.1, e.2));
        assert(nodes[i] == nodes.drop_last()[i]);
    } else {
        let i = nodes.len() - 1;
        assert(nodes[i] == nodes.last());
    }
}

/// Ignored keys match whatever case a key is written in: when a JSON
/// pair's key, unquoted and lowercased, equals one of the configured keys
/// lowercased, the pair's value is never reported (given node ids are
/// distinct and no later pair records a key at the same position).
pub proof fn law_ignored_keys_match_whatever_their_case(
    nodes: Seq<SyntaxNode>,
    pair: int,
    value: int,
    config_keys: Seq<String>,
    c: int,
    min_length: nat,
    e: int,
)
    requires
        0 <= pair < nodes.len(),
        0 <= value < nodes.len(),
        forall|a: int, b: int|
            0 <= a < b < nodes.len() ==> #[trigger] nodes[a].id != #[trigger] nodes[b].id,
        nodes[pair].kind == SyntaxKind::JsonPair,
        nodes[pair].children@.len() >= 2,
        nodes[pair].children@[0].kind == SyntaxKind::StringLiteral,
        nodes[pair].children@[1] == nodes[value],
        forall|j: int|
            pair < j < nodes.len() ==> !(#[trigger] pair_key_entry(nodes[j]) matches Some((k, _))
                && k == position_key(nodes[value].start_line, nodes[value].start_col)),
        0 <= c < config_keys.len(),
        unicode_lowercase(config_keys[c]@) == unicode_lowercase(
            strip_quotes_spec(nodes[pair].children@[0].text@),
        ),
        0 <= e < screened_literals(
            nodes,
            record_pair_keys(nodes, Map::empty()),
            lowercased(config_keys),
            min_length,
        ).len(),
    ensures
        screened_literals(
            nodes,
            record_pair_keys(nodes, Map::empty()),
            lowercased(config_keys),
            min_length,
        )[e].0 != nodes[value].id,
{
    let keys = record_pair_keys(nodes, Map::empty());
    let ignore = lowercased(config_keys);
    let v = nodes[value];
    let pos = position_key(v.start_line, v.start_col);
    let key = unicode_lowercase(strip_quotes_spec(nodes[pair].children@[0].text@));
    assert(pair_key_entry(nodes[pair]) == Some((pos, key)));
    lemma_record_pair_keys_last_writer(nodes, Map::empty(), pair, pos, key);
    assert(key_at(keys, v) == Some(key));
    assert(ignore[c] == key);
    assert(ignore.contains(key));
    let r = screened_literals(nodes, keys, ignore, min_length);
    if r[e].0 == v.id {
        law_reported_literals_come_from_screened_nodes(nodes, keys, ignore, min_length, e);
        let i = choose|i: int|
            #![trigger nodes[i]]
            0 <= i < nodes.len() && nodes[i].id == r[e].0 && nodes[i].kind
                == SyntaxKind::StringLiteral && !nodes[i].in_test_code && !(key_at(
                keys,
                nodes[i],
            ) matches Some(k) && ignore.contains(k)) && screen_spec(
                nodes[i].text@,
                key_at(keys, nodes[i]),
                ignore,
                min_length,
            ) == Some((r[e].1, r[e].2));
        if i != value {
            if i < value {
                assert(nodes[i].id != nodes[value].id);
            } else {
                assert(nodes[value].id != nodes[i].id);
            }
        }
    }
}

/// The plain view of screened literals: id, value and sensitivity.
pub open spec fn literal_views(r: Seq<(usize, ScreenedLiteral)>) -> Seq<(usize, Seq<char>, bool)> {
    r.map_values(|p: (usize, ScreenedLiteral)| (p.0, p.1.value@, p.1.is_sensitive))
}

/// What the screen of a whole file yields: nothing for an exempt or
/// test-only path; otherwise the surviving literals of the tree in
/// pre-order, each under the key of the JSON pair whose value it is.
pub open spec fn file_screen_spec(
    path: Seq<char>,
    test_only_path: bool,
    root: SyntaxNode,
    ignore_keys: Seq<Seq<char>>,
    min_length: nat,
) -> Seq<(usize, Seq<char>, bool)> {
    if exempt_path_spec(path) || test_only_path {
        Seq::empty()
    } else {
        let nodes = preorder(root);
        screened_literals(nodes, record_pair_keys(nodes, Map::empty()), ignore_keys, min_length)
    }
}

impl HighEntropyStringRule {
    fn screen_tree(
        &self,
        node: &SyntaxNode,
        keys: &HashMap<u64, String>,
        out: &mut Vec<(usize, ScreenedLiteral)>,
    )
        ensures
            literal_views(final(out)@) == literal_views(old(out)@) + screened_literals(
                preorder(*node),
                key_texts(keys@),
                self.ignore_keys_spec(),
                self.min_length_spec(),
            ),
        decreases node,
    {
        let ghost kt = key_texts(keys@);
        let ghost ik = self.ignore_keys_spec();
        let ghost ml = self.min_length_spec();
        let ghost start = literal_views(out@);
        proof {
            assert(seq![*node].drop_last() =~= Seq::<SyntaxNode>::empty());
            assert(seq![*node].last() == *node);
            assert(screened_literals(Seq::<SyntaxNode>::empty(), kt, ik, ml) == Seq::<
                (usize, Seq<char>, bool),
            >::empty());
        }
        if node.kind == SyntaxKind::StringLiteral && !node.in_test_code {
            let k = crate::syntax::position_key_of(node.start_line, node.start_col);
            let screened = match keys.get(&k) {
                Some(key) => {
                    assert(key_at(kt, *node) == Some(key@));
                    self.screen_literal(node.text.as_str(), Some(key.as_str()))
                },
                None => {
                    assert(key_at(kt, *node) is None);
                    self.screen_literal(node.text.as_str(), None)
                },
            };
            match screened {
                Some(lit) => {
                    let ghost before = out@;
                    let ghost entry = (node.id, lit.value@, lit.is_sensitive);
                    out.push((node.id, lit));
                    assert(literal_views(out@) =~= literal_views(before).push(entry));
                    assert(literal_views(out@) =~= start + screened_literals(seq![*node], kt, ik, ml));
                },
                None => {
                    assert(literal_views(out@) =~= start + screened_literals(seq![*node], kt, ik, ml));
                },
            }
        } else {
            assert(literal_views(out@) =~= start + screened_literals(seq![*node], kt, ik, ml));
        }
        let ghost children = node.children@;
        let mut i: usize = 0;
        while i < node.children.len()
            invariant
                i <= node.children.len(),
                children == node.children@,
                kt == key_texts(keys@),
                ik == self.ignore_keys_spec(),
                ml == self.min_length_spec(),
                literal_views(out@) == start + screened_literals(
                    seq![*node] + preorder_all(children.take(i as int)),
                    kt,
                    ik,
                    ml,
                ),
            decreases node.children.len() - i,
        {
            proof {
                assert(decreases_to!(node => node.children));
                assert(decreases_to!(node.children => node.children@));
                assert(decreases_to!(node.children@ => node.children@[i as int]));
            }
            self.screen_tree(&node.children[i], keys, out);
            proof {
                let done = seq![*node] + preorder_all(children.take(i as int));
                let sub = preorder(children[i as int]);
                assert(children.take(i + 1).drop_last() =~= children.take(i as int));
                assert(children.take(i + 1).last() == children[i as int]);
                assert(seq![*node] + preorder_all(children.take(i + 1)) =~= done + sub);
                lemma_screened_literals_append(done, sub, kt, ik, ml);
                assert(start + screened_literals(done, kt, ik, ml) + screened_literals(sub, kt, ik, ml)
                    =~= start + (screened_literals(done, kt, ik, ml) + screened_literals(sub, kt, ik, ml)));
            }
            i += 1;
        }
        assert(children.take(children.len() as int) =~= children);
    }

    /// Screens every string literal of a parsed file. Nothing is screened
    /// when the path is exempt or the file is test-only; otherwise each
    /// string literal outside test code, in pre-order, is screened under the
    /// key of the JSON pair whose value it is, and the survivors are
    /// returned with their node ids, ready for entropy scoring.
    pub fn screen_file(&self, path: &str, test_only_path: bool, root: &SyntaxNode) -> (r: Vec<
        (usize, ScreenedLiteral),
    >)
        ensures
            literal_views(r@) == file_screen_spec(
                path@,
                test_only_path,
                *root,
                self.ignore_keys_spec(),
                self.min_length_spec(),
            ),
    {
        let mut out: Vec<(usize, ScreenedLiteral)> = Vec::new();
        if path_is_exempt(path) || test_only_path {
            assert(literal_views(out@) =~= Seq::empty());
            return out;
        }
        let mut keys: HashMap<u64, String> = HashMap::new();
        assert(key_texts(keys@) =~= Map::empty());
        collect_json_pair_keys(root, &mut keys);
        assert(literal_views(out@) =~= Seq::empty());
        self.screen_tree(root, &keys, &mut out);
        assert(Seq::<(usize, Seq<char>, bool)>::empty() + screened_literals(
            preorder(*root),
            key_texts(keys@),
            self.ignore_keys_spec(),
            self.min_length_spec(),
        ) =~= screened_literals(
            preorder(*root),
            key_texts(keys@),
            self.ignore_keys_spec(),
            self.min_length_spec(),
        ));
        out
    }
}

} // verus!
