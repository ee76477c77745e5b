//! The syntax tree the screening walks: the parts of a parsed file that the
//! `secrets:high-entropy-string` rule reads, held as plain values.

use std::collections::HashMap;
use vstd::prelude::*;
use crate::heuristics::{strip_quotes, strip_quotes_spec};
use crate::text::{to_lowercase, unicode_lowercase};

verus! {

broadcast use vstd::std_specs::hash::group_hash_axioms;

/// What a node is, as far as the screening cares.
#[derive(Clone, Copy, Debug, PartialEq, Eq, Structural)]
pub enum SyntaxKind {
    /// A string literal, quotes and any prefix included in its text.
    StringLiteral,
    /// A JSON `key: value` pair; its first child is the key, its second
    /// the value.
    JsonPair,
    /// Anything else.
    Other,
}

/// One node of a parsed file. `id` is the caller's handle on the node;
/// `start_line` and `start_col` locate its first character; `in_test_code`
/// marks a node that lies inside test-only code of the file.
pub struct SyntaxNode {
    pub id: usize,
    pub kind: SyntaxKind,
    pub text: String,
    pub start_line: u32,
    pub start_col: u32,
    pub in_test_code: bool,
    pub children: Vec<SyntaxNode>,
}

/// The nodes of the tree rooted at `n`, in pre-order: the node itself,
/// then each child's subtree in turn.
pub open spec fn preorder(n: SyntaxNode) -> Seq<SyntaxNode>
    decreases n, 1nat,
{
    seq![n] + preorder_all(n.children@)
}

/// The pre-order nodes of each tree of `ns`, one tree after another.
pub open spec fn preorder_all(ns: Seq<SyntaxNode>) -> Seq<SyntaxNode>
    decreases ns, 0nat,
{
    if ns.len() == 0 {
        Seq::empty()
    } else {
        preorder_all(ns.drop_last()) + preorder(ns.last())
    }
}

/// The key under which a position is recorded: the line in the upper 32
/// bits, the column in the lower.
pub open spec fn position_key(line: u32, col: u32) -> u64 {
    (line as int * 0x1_0000_0000 + col as int) as u64
}

pub(crate) fn position_key_of(line: u32, col: u32) -> (k: u64)
    ensures
        k == position_key(line, col),
{
    assert(line as int * 0x1_0000_0000 + col as int <= u64::MAX) by (nonlinear_arith)
        requires
            line <= u32::MAX,
            col <= u32::MAX,
    ;
    (line as u64) * 0x1_0000_0000 + (col as u64)
}

/// For a JSON pair whose key is a string literal: the position of its
/// value, and its key unquoted and lowercased.
pub open spec fn pair_key_entry(n: SyntaxNode) -> Option<(u64, Seq<char>)> {
    if n.kind == SyntaxKind::JsonPair && n.children@.len() >= 2 && n.children@[0].kind
        == SyntaxKind::StringLiteral {
        let value = n.children@[1];
        Some(
            (
                position_key(value.start_line, value.start_col),
                unicode_lowercase(strip_quotes_spec(n.children@[0].text@)),
            ),
        )
    } else {
        None
    }
}

/// `m` with the pair-key entry of every node of `nodes` recorded in turn,
/// a later entry replacing an earlier one at the same position.
pub open spec fn record_pair_keys(nodes: Seq<SyntaxNode>, m: Map<u64, Seq<char>>) -> Map<
    u64,
    Seq<char>,
>
    decreases nodes.len(),
{
    if nodes.len() == 0 {
        m
    } else {
        let prev = record_pair_keys(nodes.drop_last(), m);
        match pair_key_entry(nodes.last()) {
            Some((k, v)) => prev.insert(k, v),
            None => prev,
        }
    }
}

pub proof fn lemma_record_pair_keys_append(a: Seq<SyntaxNode>, b: Seq<SyntaxNode>, m: Map<
    u64,
    Seq<char>,
>)
    ensures
        record_pair_keys(a + b, m) == record_pair_keys(b, record_pair_keys(a, m)),
    decreases b.len(),
{
    if b.len() == 0 {
        assert(a + b =~= a);
    } else {
        lemma_record_pair_keys_append(a, b.drop_last(), m);
        assert((a + b).drop_last() =~= a + b.drop_last());
        assert((a + b).last() == b.last());
    }
}

/// The key texts of a map from positions to strings.
pub open spec fn key_texts(m: Map<u64, String>) -> Map<u64, Seq<char>> {
    m.map_values(|s: String| s@)
}

/// Records, for every JSON pair node of the tree whose key is a string
/// literal, the pair's key (unquoted, lowercased) under the start position
/// of its value node. Nodes have no parent pointer, so a value's enclosing
/// key is recovered by walking down from the pair; this builds that lookup
/// once per file.
pub fn collect_json_pair_keys(node: &SyntaxNode, out: &mut HashMap<u64, String>)
    ensures
        key_texts(final(out)@) == record_pair_keys(preorder(*node), key_texts(old(out)@)),
    decreases node,
{
    let ghost start = key_texts(out@);
    if node.kind == SyntaxKind::JsonPair && node.children.len() >= 2 && node.children[0].kind
        == SyntaxKind::StringLiteral {
        let value = &node.children[1];
        let k = position_key_of(value.start_line, value.start_col);
        let unquoted = strip_quotes(node.children[0].text.as_str());
        let key = to_lowercase(unquoted.as_str());
        let ghost before = out@;
        out.insert(k, key);
        assert(key_texts(out@) =~= key_texts(before).insert(k, key@));
    }
    assert(record_pair_keys(seq![*node], start) == key_texts(out@)) by {
        assert(seq![*node].drop_last() =~= Seq::<SyntaxNode>::empty());
        assert(record_pair_keys(Seq::<SyntaxNode>::empty(), start) == start);
        assert(seq![*node].last() == *node);
    }
    let ghost children = node.children@;
    let mut i: usize = 0;
    while i < node.children.len()
        invariant
            i <= node.children.len(),
            children == node.children@,
            key_texts(out@) == record_pair_keys(
                seq![*node] + preorder_all(children.take(i as int)),
                start,
            ),
        decreases node.children.len() - i,
    {
        let ghost mid = key_texts(out@);
        proof {
            assert(decreases_to!(node => node.children));
            assert(decreases_to!(node.children => node.children@));
            assert(decreases_to!(node.children@ => node.children@[i as int]));
        }
        collect_json_pair_keys(&node.children[i], out);
        proof {
            let done = seq![*node] + preorder_all(children.take(i as int));
            let sub = preorder(children[i as int]);
            assert(children.take(i + 1).drop_last() =~= children.take(i as int));
            assert(children.take(i + 1).last() == children[i as int]);
            assert(seq![*node] + preorder_all(children.take(i + 1)) =~= done + sub);
            lemma_record_pair_keys_append(done, sub, start);
        }
        i += 1;
    }
    assert(children.take(children.len() as int) =~= children);
}

/// The key recorded at a position is the one the last node recording at
/// that position gives.
pub proof fn lemma_record_pair_keys_last_writer(
    nodes: Seq<SyntaxNode>,
    m: Map<u64, Seq<char>>,
    i: int,
    pos: u64,
    key: Seq<char>,
)
    requires
        0 <= i < nodes.len(),
        pair_key_entry(nodes[i]) == Some((pos, key)),
        forall|j: int|
            i < j < nodes.len() ==> !(#[trigger] pair_key_entry(nodes[j]) matches Some((k, _))
                && k == pos),
    ensures
        record_pair_keys(nodes, m).contains_key(pos),
        record_pair_keys(nodes, m)[pos] == key,
    decreases nodes.len(),
{
    let last = nodes.len() - 1;
    assert(nodes.last() == nodes[last]);
    if i < last {
        assert forall|j: int| i < j < nodes.drop_last().len() implies !(#[trigger] pair_key_entry(
            nodes.drop_last()[j],
        ) matches Some((k, _)) && k == pos) by {
            assert(nodes.drop_last()[j] == nodes[j]);
            assert(!(pair_key_entry(nodes[j]) matches Some((k, _)) && k == pos));
        }
        assert(nodes.drop_last()[i] == nodes[i]);
        lemma_record_pair_keys_last_writer(nodes.drop_last(), m, i, pos, key);
        assert(!(pair_key_entry(nodes[last]) matches Some((k, _)) && k == pos));
    }
}

} // verus!
