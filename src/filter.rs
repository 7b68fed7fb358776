//! Case-insensitive ordered-subsequence ("fuzzy") filtering of rows by name.
use vstd::prelude::*;
use vstd::string::*;
use crate::text::{lower_of, trim_of, to_lower, trim};
use crate::tree::{Node, VisibleNode};

verus! {

/// `needle` occurs in `hay` in order, not necessarily contiguously.
pub open spec fn is_subsequence(needle: Seq<char>, hay: Seq<char>) -> bool
    decreases hay.len(),
{
    if needle.len() == 0 {
        true
    } else if hay.len() == 0 {
        false
    } else if needle[0] == hay[0] {
        is_subsequence(needle.drop_first(), hay.drop_first())
    } else {
        is_subsequence(needle, hay.drop_first())
    }
}

/// The needle a query stands for: trimmed, then lower-cased.
pub open spec fn needle_of(query: Seq<char>) -> Seq<char> {
    lower_of(trim_of(query))
}

/// A node's name matches an already lower-cased needle.
pub open spec fn name_matches(needle: Seq<char>, node: Node) -> bool {
    is_subsequence(needle, lower_of(node.name@))
}

/// The first `k` rows whose node's name matches `needle`, in order.
pub open spec fn matching_rows(rows: Seq<VisibleNode>, nodes: Seq<Node>, needle: Seq<char>, k: int) -> Seq<
    VisibleNode,
>
    decreases k,
{
    if k <= 0 {
        Seq::empty()
    } else {
        let before = matching_rows(rows, nodes, needle, k - 1);
        if name_matches(needle, nodes[rows[k - 1].id as int]) {
            before.push(rows[k - 1])
        } else {
            before
        }
    }
}

/// Rows kept by a query: all of them when the needle is empty, else those
/// whose node's name matches it.
pub open spec fn filter_rows(rows: Seq<VisibleNode>, nodes: Seq<Node>, query: Seq<char>) -> Seq<
    VisibleNode,
> {
    if needle_of(query).len() == 0 {
        rows
    } else {
        matching_rows(rows, nodes, needle_of(query), rows.len() as int)
    }
}

/// Every row refers to a node of the arena.
pub open spec fn rows_in_range(rows: Seq<VisibleNode>, nodes: Seq<Node>) -> bool {
    forall|i: int| 0 <= i < rows.len() ==> (#[trigger] rows[i]).id < nodes.len()
}

proof fn lemma_subsequence_step(needle: Seq<char>, hay: Seq<char>, j: int, i: int)
    requires
        0 <= j < needle.len(),
        0 <= i < hay.len(),
    ensures
        is_subsequence(needle.subrange(j, needle.len() as int), hay.subrange(i, hay.len() as int))
            == if needle[j] == hay[i] {
            is_subsequence(
                needle.subrange(j + 1, needle.len() as int),
                hay.subrange(i + 1, hay.len() as int),
            )
        } else {
            is_subsequence(needle.subrange(j, needle.len() as int), hay.subrange(i + 1, hay.len() as int))
        },
{
    let n = needle.subrange(j, needle.len() as int);
    let h = hay.subrange(i, hay.len() as int);
    assert(n.drop_first() =~= needle.subrange(j + 1, needle.len() as int));
    assert(h.drop_first() =~= hay.subrange(i + 1, hay.len() as int));
    assert(n[0] == needle[j]);
    assert(h[0] == hay[i]);
}

/// Whether every character of `needle` can be found in `haystack` in order.
pub fn fuzzy_match(needle: &str, haystack: &str) -> (r: bool)
    ensures
        r == is_subsequence(needle@, haystack@),
{
    let nl = needle.unicode_len();
    let hl = haystack.unicode_len();
    let mut j: usize = 0;
    let mut i: usize = 0;
    assert(needle@.subrange(0, nl as int) =~= needle@);
    assert(haystack@.subrange(0, hl as int) =~= haystack@);
    while i < hl
        invariant
            nl == needle@.len(),
            hl == haystack@.len(),
            j <= nl,
            i <= hl,
            is_subsequence(needle@, haystack@) == is_subsequence(
                needle@.subrange(j as int, nl as int),
                haystack@.subrange(i as int, hl as int),
            ),
        decreases hl - i,
    {
        if j == nl {
            return true;
        }
        proof {
            lemma_subsequence_step(needle@, haystack@, j as int, i as int);
        }
        if haystack.get_char(i) == needle.get_char(j) {
            j = j + 1;
        }
        i = i + 1;
    }
    assert(haystack@.subrange(i as int, hl as int).len() == 0);
    j == nl
}

/// The rows whose node's name fuzzily matches the trimmed query, ignoring
/// case; all rows when the trimmed query is empty.
pub fn filter_visible_nodes(visible: &[VisibleNode], nodes: &[Node], query: &str) -> (r: Vec<
    VisibleNode,
>)
    requires
        rows_in_range(visible@, nodes@),
    ensures
        r@ == filter_rows(visible@, nodes@, query@),
        rows_in_range(r@, nodes@),
{
    let needle = to_lower(trim(query));
    if needle.unicode_len() == 0 {
        let mut all: Vec<VisibleNode> = Vec::new();
        let mut k: usize = 0;
        while k < visible.len()
            invariant
                k <= visible@.len(),
                all@ == visible@.subrange(0, k as int),
                rows_in_range(visible@, nodes@),
            decreases visible@.len() - k,
        {
            all.push(visible[k]);
            assert(visible@.subrange(0, k + 1) =~= visible@.subrange(0, k as int).push(visible@[k as int]));
            k = k + 1;
        }
        assert(visible@.subrange(0, k as int) =~= visible@);
        return all;
    }
    let mut out: Vec<VisibleNode> = Vec::new();
    let mut k: usize = 0;
    while k < visible.len()
        invariant
            k <= visible@.len(),
            rows_in_range(visible@, nodes@),
            needle@ == needle_of(query@),
            out@ == matching_rows(visible@, nodes@, needle@, k as int),
            rows_in_range(out@, nodes@),
        decreases visible@.len() - k,
    {
        let row = visible[k];
        let name = to_lower(nodes[row.id].name.as_str());
        if fuzzy_match(needle.as_str(), name.as_str()) {
            out.push(row);
        }
        k = k + 1;
    }
    out
}

} // verus!
