//! The order of texts as `String`'s `Ord` compares them (character by
//! character, by code point), and keyed lists kept strictly ascending by
//! their text keys.

use vstd::prelude::*;
use crate::text::{chars_of, same_chars};

verus! {

/// `a` comes strictly before `b`: lexicographic order on code points, a
/// proper prefix first.
pub open spec fn text_lt(a: Seq<char>, b: Seq<char>) -> bool
    decreases a.len(),
{
    if b.len() == 0 {
        false
    } else if a.len() == 0 {
        true
    } else if (a[0] as int) < (b[0] as int) {
        true
    } else if a[0] == b[0] {
        text_lt(a.drop_first(), b.drop_first())
    } else {
        false
    }
}

pub proof fn lemma_text_lt_irreflexive(a: Seq<char>)
    ensures
        !text_lt(a, a),
    decreases a.len(),
{
    if a.len() > 0 {
        lemma_text_lt_irreflexive(a.drop_first());
    }
}

pub proof fn lemma_text_lt_transitive(a: Seq<char>, b: Seq<char>, c: Seq<char>)
    requires
        text_lt(a, b),
        text_lt(b, c),
    ensures
        text_lt(a, c),
    decreases a.len(),
{
    if a.len() > 0 && b.len() > 0 && c.len() > 0 && a[0] == b[0] && b[0] == c[0] {
        lemma_text_lt_transitive(a.drop_first(), b.drop_first(), c.drop_first());
    }
}

pub proof fn lemma_text_lt_total(a: Seq<char>, b: Seq<char>)
    requires
        a != b,
    ensures
        text_lt(a, b) || text_lt(b, a),
    decreases a.len(),
{
    if a.len() > 0 && b.len() > 0 && a[0] == b[0] {
        if a.drop_first() == b.drop_first() {
            assert(a =~= seq![a[0]] + a.drop_first());
            assert(b =~= seq![b[0]] + b.drop_first());
        }
        lemma_text_lt_total(a.drop_first(), b.drop_first());
    } else if a.len() > 0 && b.len() > 0 {
        assert((a[0] as int) != (b[0] as int));
    } else if a.len() == 0 && b.len() == 0 {
        assert(a =~= b);
    }
}

pub proof fn lemma_text_lt_asymmetric(a: Seq<char>, b: Seq<char>)
    requires
        text_lt(a, b),
    ensures
        !text_lt(b, a),
{
    if text_lt(b, a) {
        lemma_text_lt_transitive(a, b, a);
        lemma_text_lt_irreflexive(a);
    }
}

proof fn lemma_text_lt_skip(a: Seq<char>, b: Seq<char>, i: int)
    requires
        0 <= i <= a.len(),
        i <= b.len(),
        forall|k: int| 0 <= k < i ==> a[k] == b[k],
    ensures
        text_lt(a, b) == text_lt(a.skip(i), b.skip(i)),
    decreases i,
{
    if i > 0 {
        assert forall|k: int| 0 <= k < i - 1 implies a.drop_first()[k] == b.drop_first()[k] by {
            assert(a[k + 1] == b[k + 1]);
        }
        lemma_text_lt_skip(a.drop_first(), b.drop_first(), i - 1);
        assert(a.drop_first().skip(i - 1) =~= a.skip(i));
        assert(b.drop_first().skip(i - 1) =~= b.skip(i));
    } else {
        assert(a.skip(0) =~= a);
        assert(b.skip(0) =~= b);
    }
}

/// The order is lexicographic, whatever the lengths: after a common first
/// part, a text that ends there comes before one that goes on, and
/// otherwise the first differing character decides by code point.
pub proof fn law_text_order_is_lexicographic(a: Seq<char>, b: Seq<char>, i: int)
    requires
        0 <= i <= a.len(),
        i <= b.len(),
        forall|k: int| 0 <= k < i ==> a[k] == b[k],
    ensures
        i == a.len() && i < b.len() ==> text_lt(a, b),
        i == a.len() && i == b.len() ==> !text_lt(a, b),
        i < a.len() && i < b.len() && (a[i] as int) < (b[i] as int) ==> text_lt(a, b),
        i < a.len() && i < b.len() && (b[i] as int) < (a[i] as int) ==> !text_lt(a, b),
{
    lemma_text_lt_skip(a, b, i);
    if i < a.len() && i < b.len() {
        assert(a.skip(i)[0] == a[i]);
        assert(b.skip(i)[0] == b[i]);
    }
}

/// Whether `a` comes strictly before `b`.
pub fn text_less(a: &Vec<char>, b: &Vec<char>) -> (r: bool)
    ensures
        r == text_lt(a@, b@),
{
    let mut i: usize = 0;
    while i < a.len() && i < b.len() && a[i] == b[i]
        invariant
            i <= a.len(),
            i <= b.len(),
            forall|k: int| 0 <= k < i ==> a@[k] == b@[k],
        decreases a.len() - i,
    {
        i += 1;
    }
    proof {
        lemma_text_lt_skip(a@, b@, i as int);
    }
    if i == b.len() {
        false
    } else if i == a.len() {
        true
    } else {
        assert(a@.skip(i as int)[0] == a@[i as int]);
        assert(b@.skip(i as int)[0] == b@[i as int]);
        a[i] < b[i]
    }
}

/// The text keys of a keyed list.
pub open spec fn keys_of<T>(entries: Seq<(String, T)>) -> Seq<Seq<char>> {
    entries.map_values(|e: (String, T)| e.0@)
}

/// Texts in strictly ascending order (so each at most once).
pub open spec fn strictly_sorted(s: Seq<Seq<char>>) -> bool {
    forall|i: int, j: int| 0 <= i < j < s.len() ==> text_lt(#[trigger] s[i], #[trigger] s[j])
}

/// Where `key` stands in a strictly ascending keyed list: its index and
/// `true` when it is there, else the index where inserting it keeps the
/// list strictly ascending and `false`.
pub fn locate<T>(entries: &Vec<(String, T)>, key: &Vec<char>) -> (r: (usize, bool))
    requires
        strictly_sorted(keys_of(entries@)),
    ensures
        r.0 <= entries@.len(),
        r.1 ==> r.0 < entries@.len() && keys_of(entries@)[r.0 as int] == key@,
        !r.1 ==> !keys_of(entries@).contains(key@),
        !r.1 ==> strictly_sorted(keys_of(entries@).insert(r.0 as int, key@)),
{
    let ghost keys = keys_of(entries@);
    let mut i: usize = 0;
    while i < entries.len() && text_less(&chars_of(entries[i].0.as_str()), key)
        invariant
            i <= entries@.len(),
            keys == keys_of(entries@),
            forall|k: int| 0 <= k < i ==> text_lt(#[trigger] keys[k], key@),
        decreases entries.len() - i,
    {
        i += 1;
    }
    if i < entries.len() && same_chars(&chars_of(entries[i].0.as_str()), key) {
        return (i, true);
    }
    proof {
        if i < entries@.len() {
            assert(!text_lt(keys[i as int], key@));
            lemma_text_lt_total(keys[i as int], key@);
            assert(text_lt(key@, keys[i as int]));
        }
        assert forall|k: int| 0 <= k < keys.len() implies keys[k] != key@ by {
            if k < i {
                assert(text_lt(keys[k], key@));
                lemma_text_lt_irreflexive(key@);
            } else {
                if k > i {
                    lemma_text_lt_transitive(key@, keys[i as int], keys[k]);
                }
                lemma_text_lt_irreflexive(key@);
            }
        }
        let ins = keys.insert(i as int, key@);
        assert forall|a: int, b: int| 0 <= a < b < ins.len() implies text_lt(
            #[trigger] ins[a],
            #[trigger] ins[b],
        ) by {
            if b < i {
                assert(ins[a] == keys[a] && ins[b] == keys[b]);
            } else if b == i {
                assert(ins[a] == keys[a]);
            } else if a < i {
                assert(ins[a] == keys[a] && ins[b] == keys[b - 1]);
                if b - 1 > i {
                    lemma_text_lt_transitive(key@, keys[i as int], keys[b - 1]);
                }
                lemma_text_lt_transitive(keys[a], key@, keys[b - 1]);
            } else if a == i {
                assert(ins[b] == keys[b - 1]);
                if b - 1 > i {
                    lemma_text_lt_transitive(key@, keys[i as int], keys[b - 1]);
                }
            } else {
                assert(ins[a] == keys[a - 1] && ins[b] == keys[b - 1]);
            }
        }
    }
    (i, false)
}

} // verus!
