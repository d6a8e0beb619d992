//! Facts about the document model that the proofs over it share.

use crate::dom::{head_from, is_head, next_at_most, subtree_end, DomNode};
use vstd::prelude::*;

verus! {

/// Scanning forward never goes back and never leaves the sequence.
pub proof fn lemma_next_at_most_bounds(nodes: Seq<DomNode>, depth: nat, j: int)
    requires
        0 <= j <= nodes.len(),
    ensures
        j <= next_at_most(nodes, depth, j) <= nodes.len(),
    decreases nodes.len() - j,
{
    if j < nodes.len() && nodes[j].depth > depth {
        lemma_next_at_most_bounds(nodes, depth, j + 1);
    }
}

/// What a scan passes over is deeper than the bound, and where it stops short
/// of the end the node is not.
pub proof fn lemma_next_at_most_passes(nodes: Seq<DomNode>, depth: nat, a: int)
    requires
        0 <= a <= nodes.len(),
    ensures
        forall|j: int| a <= j < next_at_most(nodes, depth, a) ==> (#[trigger] nodes[j]).depth > depth,
        next_at_most(nodes, depth, a) < nodes.len() ==> nodes[next_at_most(nodes, depth, a)].depth
            <= depth,
    decreases nodes.len() - a,
{
    if a < nodes.len() && nodes[a].depth > depth {
        lemma_next_at_most_passes(nodes, depth, a + 1);
    }
}

/// A scan stops at the first node that is not deeper than the bound.
pub proof fn lemma_next_at_most_stops(nodes: Seq<DomNode>, depth: nat, a: int, b: int)
    requires
        0 <= a <= b <= nodes.len(),
        forall|j: int| a <= j < b ==> (#[trigger] nodes[j]).depth > depth,
        b < nodes.len() ==> nodes[b].depth <= depth,
    ensures
        next_at_most(nodes, depth, a) == b,
    decreases b - a,
{
    if a < b {
        lemma_next_at_most_stops(nodes, depth, a + 1, b);
    }
}

/// A scan stops no later than at a node that is not deeper than the bound.
pub proof fn lemma_next_at_most_upper(nodes: Seq<DomNode>, depth: nat, s: int, t: int)
    requires
        0 <= s <= t < nodes.len(),
        nodes[t].depth <= depth,
    ensures
        next_at_most(nodes, depth, s) <= t,
    decreases t - s,
{
    if s < t && nodes[s].depth > depth {
        lemma_next_at_most_upper(nodes, depth, s + 1, t);
    }
}

/// A scan does not stop among nodes that are deeper than the bound.
pub proof fn lemma_next_at_most_lower(nodes: Seq<DomNode>, depth: nat, s: int, t: int)
    requires
        0 <= s <= t <= nodes.len(),
        forall|j: int| s <= j < t ==> (#[trigger] nodes[j]).depth > depth,
    ensures
        next_at_most(nodes, depth, s) >= t,
    decreases t - s,
{
    if s < t {
        assert(nodes[s].depth > depth);
        lemma_next_at_most_lower(nodes, depth, s + 1, t);
    } else {
        lemma_next_at_most_bounds(nodes, depth, s);
    }
}

/// Where there is a head at all, the search finds one.
pub proof fn lemma_some_head_is_found(nodes: Seq<DomNode>, i: int, x: int)
    requires
        0 <= i <= x,
        is_head(nodes, x),
    ensures
        head_from(nodes, i) is Some,
    decreases x - i,
{
    if i < x && !is_head(nodes, i) {
        lemma_some_head_is_found(nodes, i + 1, x);
    }
}

/// The head that is found is a head, and the first from where the search
/// began.
pub proof fn lemma_head_from_found(nodes: Seq<DomNode>, i: int)
    requires
        0 <= i,
        head_from(nodes, i) is Some,
    ensures
        i <= head_from(nodes, i)->0 < nodes.len(),
        is_head(nodes, head_from(nodes, i)->0),
        forall|j: int| i <= j < head_from(nodes, i)->0 ==> !is_head(nodes, j),
    decreases nodes.len() - i,
{
    if i < nodes.len() && !is_head(nodes, i) {
        lemma_head_from_found(nodes, i + 1);
    }
}

/// A subtree holds at least its own root and ends within the document.
pub proof fn lemma_subtree_end_bounds(nodes: Seq<DomNode>, i: int)
    requires
        0 <= i < nodes.len(),
    ensures
        i < subtree_end(nodes, i) <= nodes.len(),
{
    lemma_next_at_most_bounds(nodes, nodes[i].depth, i + 1);
}

/// Scanning depends only on the nodes from the starting point on.
pub proof fn lemma_next_at_most_shift(
    a: Seq<DomNode>,
    i: int,
    b: Seq<DomNode>,
    k: int,
    depth: nat,
    off: int,
)
    requires
        0 <= i <= a.len(),
        0 <= k <= b.len(),
        a.skip(i) == b.skip(k),
        0 <= off <= a.len() - i,
    ensures
        next_at_most(a, depth, i + off) - i == next_at_most(b, depth, k + off) - k,
    decreases a.len() - i - off,
{
    assert(a.skip(i).len() == a.len() - i);
    assert(b.skip(k).len() == b.len() - k);
    if off < a.len() - i {
        assert(a[i + off] == a.skip(i)[off]);
        assert(b[k + off] == b.skip(k)[off]);
        if a[i + off].depth > depth {
            lemma_next_at_most_shift(a, i, b, k, depth, off + 1);
        }
    }
}

/// Two documents that agree from some node on agree on how far that node's
/// subtree reaches.
pub proof fn lemma_subtree_end_shift(a: Seq<DomNode>, i: int, b: Seq<DomNode>, k: int)
    requires
        0 <= i < a.len(),
        0 <= k < b.len(),
        a.skip(i) == b.skip(k),
    ensures
        subtree_end(a, i) - i == subtree_end(b, k) - k,
{
    assert(a[i] == a.skip(i)[0]);
    assert(b[k] == b.skip(k)[0]);
    lemma_next_at_most_shift(a, i, b, k, a[i].depth, 1);
}

/// Filters that agree on every item of a sequence select the same items.
pub proof fn lemma_filter_agree<A>(s: Seq<A>, p: spec_fn(A) -> bool, q: spec_fn(A) -> bool)
    requires
        forall|t: int| 0 <= t < s.len() ==> p(#[trigger] s[t]) == q(s[t]),
    ensures
        s.filter(p) == s.filter(q),
    decreases s.len(),
{
    reveal(Seq::filter);
    if s.len() > 0 {
        assert forall|t: int| 0 <= t < s.drop_last().len() implies p(#[trigger] s.drop_last()[t])
            == q(s.drop_last()[t]) by {
            assert(s.drop_last()[t] == s[t]);
        }
        lemma_filter_agree(s.drop_last(), p, q);
    }
}

/// A filter that every item passes leaves the sequence as it is.
pub proof fn lemma_filter_all<A>(s: Seq<A>, p: spec_fn(A) -> bool)
    requires
        forall|t: int| 0 <= t < s.len() ==> p(#[trigger] s[t]),
    ensures
        s.filter(p) == s,
    decreases s.len(),
{
    reveal(Seq::filter);
    if s.len() > 0 {
        assert forall|t: int| 0 <= t < s.drop_last().len() implies p(#[trigger] s.drop_last()[t]) by {
            assert(s.drop_last()[t] == s[t]);
        }
        lemma_filter_all(s.drop_last(), p);
        assert(s.drop_last().push(s.last()) =~= s);
    }
}

/// Filtering twice selects what satisfies both conditions.
pub proof fn lemma_filter_twice<A>(
    s: Seq<A>,
    p: spec_fn(A) -> bool,
    q: spec_fn(A) -> bool,
    both: spec_fn(A) -> bool,
)
    requires
        forall|t: int| 0 <= t < s.len() ==> both(#[trigger] s[t]) == (p(s[t]) && q(s[t])),
    ensures
        s.filter(p).filter(q) == s.filter(both),
    decreases s.len(),
{
    reveal(Seq::filter);
    if s.len() > 0 {
        let front = s.drop_last();
        assert forall|t: int| 0 <= t < front.len() implies both(#[trigger] front[t]) == (p(
            front[t],
        ) && q(front[t])) by {
            assert(front[t] == s[t]);
        }
        lemma_filter_twice(front, p, q, both);
        if p(s.last()) {
            assert(front.filter(p).push(s.last()).drop_last() =~= front.filter(p));
        }
    }
}

} // verus!
