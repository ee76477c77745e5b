//! Mutation-gap findings (rules in the `mutation:` namespace) summarized
//! for the side file a scan writes: how many there are, how many per rule,
//! and each file's gaps in the order they were found.

use vstd::prelude::*;
use crate::ordering::{
    keys_of, lemma_text_lt_irreflexive, locate, strictly_sorted, text_lt,
};
use crate::text::{begins_with, chars_of, starts_with_seq};

verus! {

/// One finding: its rule id, file, line and message.
pub struct Gap {
    pub rule: String,
    pub file: String,
    pub line: u32,
    pub message: String,
}

/// The summary of a report's mutation gaps: their number, their count per
/// rule (ascending by rule), and per file (ascending by file) the gaps'
/// rule, line and message in the order they were found.
pub struct GapSummary {
    pub total: usize,
    pub by_rule: Vec<(String, usize)>,
    pub by_file: Vec<(String, Vec<(String, u32, String)>)>,
}

/// A finding of a `mutation:` rule.
pub open spec fn is_mutation_gap(g: Gap) -> bool {
    begins_with(g.rule@, "mutation:"@)
}

/// The mutation gaps among `issues`, in order.
pub open spec fn mutation_gaps(issues: Seq<Gap>) -> Seq<Gap>
    decreases issues.len(),
{
    if issues.len() == 0 {
        Seq::empty()
    } else {
        let prev = mutation_gaps(issues.drop_last());
        if is_mutation_gap(issues.last()) {
            prev.push(issues.last())
        } else {
            prev
        }
    }
}

/// How many of `gaps` have the rule `rule`.
pub open spec fn rule_count(gaps: Seq<Gap>, rule: Seq<char>) -> nat
    decreases gaps.len(),
{
    if gaps.len() == 0 {
        0
    } else {
        rule_count(gaps.drop_last(), rule) + if gaps.last().rule@ == rule {
            1nat
        } else {
            0nat
        }
    }
}

/// The rule, line and message of each of `gaps` in `file`, in order.
pub open spec fn file_gaps(gaps: Seq<Gap>, file: Seq<char>) -> Seq<(Seq<char>, u32, Seq<char>)>
    decreases gaps.len(),
{
    if gaps.len() == 0 {
        Seq::empty()
    } else {
        let prev = file_gaps(gaps.drop_last(), file);
        let g = gaps.last();
        if g.file@ == file {
            prev.push((g.rule@, g.line, g.message@))
        } else {
            prev
        }
    }
}

/// The sum of `w` over `s`.
pub open spec fn total_of<T>(s: Seq<T>, w: spec_fn(T) -> nat) -> nat
    decreases s.len(),
{
    if s.len() == 0 {
        0
    } else {
        total_of(s.drop_last(), w) + w(s.last())
    }
}

/// A per-rule count's weight in the total.
pub open spec fn count_weight() -> spec_fn((String, usize)) -> nat {
    |e: (String, usize)| e.1 as nat
}

/// A per-file list's weight in the total.
pub open spec fn list_weight() -> spec_fn((String, Vec<(String, u32, String)>)) -> nat {
    |e: (String, Vec<(String, u32, String)>)| e.1@.len()
}

/// The plain view of a file's gap list.
pub open spec fn gap_list_view(l: Seq<(String, u32, String)>) -> Seq<(Seq<char>, u32, Seq<char>)> {
    l.map_values(|e: (String, u32, String)| (e.0@, e.1, e.2@))
}

/// The per-rule counts of `gaps`: strictly ascending by rule, each rule of
/// `gaps` once with its count and no other, the counts adding up to the
/// number of gaps.
pub open spec fn rule_table_ok(t: Seq<(String, usize)>, gaps: Seq<Gap>) -> bool {
    &&& strictly_sorted(keys_of(t))
    &&& forall|k: int| 0 <= k < t.len() ==> (#[trigger] t[k]).1 == rule_count(gaps, t[k].0@)
    &&& forall|r: Seq<char>|
        #![trigger rule_count(gaps, r)]
        rule_count(gaps, r) > 0 <==> keys_of(t).contains(r)
    &&& total_of(t, count_weight()) == gaps.len()
}

/// The per-file lists of `gaps`: strictly ascending by file, each file of
/// `gaps` once with its gaps in order and no other, the list lengths adding
/// up to the number of gaps.
pub open spec fn file_table_ok(t: Seq<(String, Vec<(String, u32, String)>)>, gaps: Seq<Gap>) -> bool {
    &&& strictly_sorted(keys_of(t))
    &&& forall|k: int|
        0 <= k < t.len() ==> gap_list_view((#[trigger] t[k]).1@) == file_gaps(gaps, t[k].0@)
    &&& forall|f: Seq<char>|
        #![trigger file_gaps(gaps, f)]
        file_gaps(gaps, f).len() > 0 <==> keys_of(t).contains(f)
    &&& total_of(t, list_weight()) == gaps.len()
}

/// The summary of the mutation gaps among `issues`.
pub open spec fn summarizes(s: GapSummary, issues: Seq<Gap>) -> bool {
    let gaps = mutation_gaps(issues);
    &&& s.total == gaps.len()
    &&& rule_table_ok(s.by_rule@, gaps)
    &&& file_table_ok(s.by_file@, gaps)
}

pub proof fn lemma_total_update<T>(s: Seq<T>, k: int, x: T, w: spec_fn(T) -> nat)
    requires
        0 <= k < s.len(),
    ensures
        total_of(s.update(k, x), w) + w(s[k]) == total_of(s, w) + w(x),
    decreases s.len(),
{
    let u = s.update(k, x);
    if k == s.len() - 1 {
        assert(u.drop_last() =~= s.drop_last());
    } else {
        assert(u.drop_last() =~= s.drop_last().update(k, x));
        lemma_total_update(s.drop_last(), k, x, w);
    }
}

pub proof fn lemma_total_insert<T>(s: Seq<T>, k: int, x: T, w: spec_fn(T) -> nat)
    requires
        0 <= k <= s.len(),
    ensures
        total_of(s.insert(k, x), w) == total_of(s, w) + w(x),
    decreases s.len(),
{
    s.insert_ensures(k, x);
    let u = s.insert(k, x);
    if k == s.len() {
        assert(u.drop_last() =~= s);
    } else {
        assert(u.drop_last() =~= s.drop_last().insert(k, x));
        assert(u.last() == s.last());
        lemma_total_insert(s.drop_last(), k, x, w);
    }
}

proof fn lemma_rule_count_bounded(gaps: Seq<Gap>, rule: Seq<char>)
    ensures
        rule_count(gaps, rule) <= gaps.len(),
    decreases gaps.len(),
{
    if gaps.len() > 0 {
        lemma_rule_count_bounded(gaps.drop_last(), rule);
    }
}

proof fn lemma_sorted_distinct(s: Seq<Seq<char>>, i: int, j: int)
    requires
        strictly_sorted(s),
        0 <= i < s.len(),
        0 <= j < s.len(),
        i != j,
    ensures
        s[i] != s[j],
{
    if i < j {
        assert(text_lt(s[i], s[j]));
    } else {
        assert(text_lt(s[j], s[i]));
    }
    lemma_text_lt_irreflexive(s[i]);
}

/// Counts one more gap of `g`'s rule.
fn count_gap(table: &mut Vec<(String, usize)>, Ghost(gaps): Ghost<Seq<Gap>>, g: &Gap)
    requires
        rule_table_ok(old(table)@, gaps),
        gaps.len() < usize::MAX,
    ensures
        rule_table_ok(final(table)@, gaps.push(*g)),
{
    let ghost ng = gaps.push(*g);
    let ghost old_t = table@;
    proof {
        assert(ng.drop_last() =~= gaps);
        assert forall|r: Seq<char>| #[trigger]
            rule_count(ng, r) == rule_count(gaps, r) + if g.rule@ == r {
                1nat
            } else {
                0nat
            } by {
            assert(ng.drop_last() =~= gaps);
        }
    }
    let key = chars_of(g.rule.as_str());
    let (pos, found) = locate(table, &key);
    if found {
        let c = table[pos].1;
        proof {
            assert(keys_of(old_t)[pos as int] == old_t[pos as int].0@);
            lemma_rule_count_bounded(gaps, g.rule@);
        }
        let name = table[pos].0.clone();
        let ghost entry = (name, (c + 1) as usize);
        table.set(pos, (name, c + 1));
        proof {
            assert(table@ == old_t.update(pos as int, entry));
            lemma_total_update(old_t, pos as int, entry, count_weight());
            assert(keys_of(table@) =~= keys_of(old_t));
            assert forall|k: int| 0 <= k < table@.len() implies (#[trigger] table@[k]).1
                == rule_count(ng, table@[k].0@) by {
                if k != pos {
                    lemma_sorted_distinct(keys_of(old_t), k, pos as int);
                    assert(keys_of(old_t)[k] == old_t[k].0@);
                }
            }
            assert forall|r: Seq<char>| #[trigger] rule_count(ng, r) > 0 <==> keys_of(
                table@,
            ).contains(r) by {
                if r == g.rule@ {
                    assert(keys_of(table@)[pos as int] == r);
                }
            }
        }
    } else {
        table.insert(pos, (g.rule.clone(), 1));
        proof {
            assert(!keys_of(old_t).contains(g.rule@));
            assert(rule_count(gaps, g.rule@) == 0);
            old_t.insert_ensures(pos as int, table@[pos as int]);
            assert(table@ == old_t.insert(pos as int, table@[pos as int]));
            lemma_total_insert(old_t, pos as int, table@[pos as int], count_weight());
            assert(keys_of(table@) =~= keys_of(old_t).insert(pos as int, g.rule@));
            assert forall|k: int| 0 <= k < table@.len() implies (#[trigger] table@[k]).1
                == rule_count(ng, table@[k].0@) by {
                if k < pos {
                    assert(table@[k] == old_t[k]);
                    assert(keys_of(old_t)[k] == old_t[k].0@);
                    assert(keys_of(old_t).contains(old_t[k].0@));
                } else if k > pos {
                    assert(table@[k] == old_t[k - 1]);
                    assert(keys_of(old_t)[k - 1] == old_t[k - 1].0@);
                    assert(keys_of(old_t).contains(old_t[k - 1].0@));
                }
            }
            assert forall|r: Seq<char>| #[trigger] rule_count(ng, r) > 0 <==> keys_of(
                table@,
            ).contains(r) by {
                let nk = keys_of(table@);
                let ok = keys_of(old_t);
                if r == g.rule@ {
                    assert(nk[pos as int] == r);
                } else {
                    if ok.contains(r) {
                        let k = choose|k: int| 0 <= k < ok.len() && #[trigger] ok[k] == r;
                        if k < pos {
                            assert(nk[k] == r);
                        } else {
                            assert(nk[k + 1] == r);
                        }
                    }
                    if nk.contains(r) {
                        let k = choose|k: int| 0 <= k < nk.len() && #[trigger] nk[k] == r;
                        if k < pos {
                            assert(ok[k] == r);
                        } else {
                            assert(ok[k - 1] == r);
                        }
                    }
                }
            }
        }
    }
}

/// Adds `g` to the end of its file's list.
fn list_gap(
    table: &mut Vec<(String, Vec<(String, u32, String)>)>,
    Ghost(gaps): Ghost<Seq<Gap>>,
    g: &Gap,
)
    requires
        file_table_ok(old(table)@, gaps),
    ensures
        file_table_ok(final(table)@, gaps.push(*g)),
{
    let ghost ng = gaps.push(*g);
    let ghost old_t = table@;
    let ghost item = (g.rule@, g.line, g.message@);
    proof {
        assert(ng.drop_last() =~= gaps);
        assert forall|f: Seq<char>| #[trigger]
            file_gaps(ng, f) == if g.file@ == f {
                file_gaps(gaps, f).push(item)
            } else {
                file_gaps(gaps, f)
            } by {
            assert(ng.drop_last() =~= gaps);
            assert(ng.last() == *g);
        }
    }
    let key = chars_of(g.file.as_str());
    let (pos, found) = locate(table, &key);
    if found {
        let (name, mut list) = table.remove(pos);
        let ghost old_list = list@;
        proof {
            assert(old_t[pos as int] == (name, list));
            assert(keys_of(old_t)[pos as int] == name@);
        }
        list.push((g.rule.clone(), g.line, g.message.clone()));
        let ghost entry = (name, list);
        table.insert(pos, (name, list));
        proof {
            assert(table@ =~= old_t.update(pos as int, entry));
            lemma_total_update(old_t, pos as int, entry, list_weight());
            assert(gap_list_view(list@) =~= gap_list_view(old_list).push(item));
            assert(keys_of(table@) =~= keys_of(old_t));
            assert forall|k: int| 0 <= k < table@.len() implies gap_list_view(
                (#[trigger] table@[k]).1@,
            ) == file_gaps(ng, table@[k].0@) by {
                if k != pos {
                    lemma_sorted_distinct(keys_of(old_t), k, pos as int);
                    assert(keys_of(old_t)[k] == old_t[k].0@);
                }
            }
            assert forall|f: Seq<char>| #[trigger] file_gaps(ng, f).len() > 0 <==> keys_of(
                table@,
            ).contains(f) by {
                if f == g.file@ {
                    assert(keys_of(table@)[pos as int] == f);
                }
            }
        }
    } else {
        let mut list: Vec<(String, u32, String)> = Vec::new();
        list.push((g.rule.clone(), g.line, g.message.clone()));
        table.insert(pos, (g.file.clone(), list));
        proof {
            assert(!keys_of(old_t).contains(g.file@));
            assert(file_gaps(gaps, g.file@).len() == 0);
            assert(gap_list_view(table@[pos as int].1@) =~= seq![item]);
            assert(file_gaps(gaps, g.file@).push(item) =~= seq![item]);
            old_t.insert_ensures(pos as int, table@[pos as int]);
            assert(table@ == old_t.insert(pos as int, table@[pos as int]));
            lemma_total_insert(old_t, pos as int, table@[pos as int], list_weight());
            assert(keys_of(table@) =~= keys_of(old_t).insert(pos as int, g.file@));
            assert forall|k: int| 0 <= k < table@.len() implies gap_list_view(
                (#[trigger] table@[k]).1@,
            ) == file_gaps(ng, table@[k].0@) by {
                if k < pos {
                    assert(table@[k] == old_t[k]);
                    assert(keys_of(old_t)[k] == old_t[k].0@);
                    assert(keys_of(old_t).contains(old_t[k].0@));
                } else if k > pos {
                    assert(table@[k] == old_t[k - 1]);
                    assert(keys_of(old_t)[k - 1] == old_t[k - 1].0@);
                    assert(keys_of(old_t).contains(old_t[k - 1].0@));
                }
            }
            assert forall|f: Seq<char>| #[trigger] file_gaps(ng, f).len() > 0 <==> keys_of(
                table@,
            ).contains(f) by {
                let nk = keys_of(table@);
                let ok = keys_of(old_t);
                if f == g.file@ {
                    assert(nk[pos as int] == f);
                } else {
                    if ok.contains(f) {
                        let k = choose|k: int| 0 <= k < ok.len() && #[trigger] ok[k] == f;
                        if k < pos {
                            assert(nk[k] == f);
                        } else {
                            assert(nk[k + 1] == f);
                        }
                    }
                    if nk.contains(f) {
                        let k = choose|k: int| 0 <= k < nk.len() && #[trigger] nk[k] == f;
                        if k < pos {
                            assert(ok[k] == f);
                        } else {
                            assert(ok[k - 1] == f);
                        }
                    }
                }
            }
        }
    }
}

proof fn lemma_mutation_gaps_bounded(issues: Seq<Gap>)
    ensures
        mutation_gaps(issues).len() <= issues.len(),
    decreases issues.len(),
{
    if issues.len() > 0 {
        lemma_mutation_gaps_bounded(issues.drop_last());
    }
}

/// Summarizes the findings of `mutation:` rules among `issues`: their
/// number, their count per rule in ascending rule order, and per file (in
/// ascending file order) their rule, line and message in the order found.
/// The total equals both the sum of the per-rule counts and the sum of the
/// per-file list lengths.
pub fn mutation_gap_summary(issues: &Vec<Gap>) -> (s: GapSummary)
    ensures
        summarizes(s, issues@),
        s.total == total_of(s.by_rule@, count_weight()),
        s.total == total_of(s.by_file@, list_weight()),
{
    let prefix = chars_of("mutation:");
    let mut total: usize = 0;
    let mut by_rule: Vec<(String, usize)> = Vec::new();
    let mut by_file: Vec<(String, Vec<(String, u32, String)>)> = Vec::new();
    let mut i: usize = 0;
    proof {
        assert(issues@.take(0) =~= Seq::<Gap>::empty());
        assert(keys_of(by_rule@) =~= Seq::<Seq<char>>::empty());
        assert(keys_of(by_file@) =~= Seq::<Seq<char>>::empty());
    }
    while i < issues.len()
        invariant
            i <= issues@.len(),
            prefix@ == "mutation:"@,
            total == mutation_gaps(issues@.take(i as int)).len(),
            rule_table_ok(by_rule@, mutation_gaps(issues@.take(i as int))),
            file_table_ok(by_file@, mutation_gaps(issues@.take(i as int))),
        decreases issues.len() - i,
    {
        let g = &issues[i];
        let ghost gaps = mutation_gaps(issues@.take(i as int));
        proof {
            assert(issues@.take(i + 1).drop_last() =~= issues@.take(i as int));
            assert(issues@.take(i + 1).last() == *g);
            lemma_mutation_gaps_bounded(issues@.take(i as int));
        }
        if starts_with_seq(&chars_of(g.rule.as_str()), &prefix) {
            count_gap(&mut by_rule, Ghost(gaps), g);
            list_gap(&mut by_file, Ghost(gaps), g);
            total += 1;
        }
        i += 1;
    }
    assert(issues@.take(issues.len() as int) =~= issues@);
    GapSummary { total, by_rule, by_file }
}

} // verus!
