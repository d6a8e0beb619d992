//! Why the stylesheet finds its place: the head of a parsed document is
//! still there after the document is cleaned.

use crate::dom::{head_position, is_frame, is_framed, is_head, subtree_end, DomNode};
use crate::dom_lemmas::{
    lemma_next_at_most_lower, lemma_next_at_most_passes, lemma_next_at_most_upper,
    lemma_some_head_is_found, lemma_subtree_end_bounds,
};
use crate::html::{cleaned, is_banned, is_banned_name, pruned, pruned_from};
use vstd::prelude::*;

verus! {

/// The nodes from `i` up to, not including, `x` that survive the removal of
/// banned elements.
pub open spec fn pruned_between(nodes: Seq<DomNode>, i: int, x: int) -> Seq<DomNode>
    decreases x - i,
{
    if i < 0 || i >= x || i >= nodes.len() {
        Seq::empty()
    } else if is_banned(nodes[i]) {
        let end = subtree_end(nodes, i);
        if i < end <= x {
            pruned_between(nodes, end, x)
        } else {
            Seq::empty()
        }
    } else {
        seq![nodes[i]] + pruned_between(nodes, i + 1, x)
    }
}

/// Whether node `x` survives a removal that starts at `i`: no banned element
/// from `i` on has it in its subtree, and it is not banned itself.
pub open spec fn is_kept_from(nodes: Seq<DomNode>, i: int, x: int) -> bool {
    forall|j: int| i <= j <= x && is_banned(#[trigger] nodes[j]) ==> subtree_end(nodes, j) <= x
}

/// A node that survives stands in the pruned document between what survives
/// before it and what survives after it.
pub proof fn lemma_pruned_splits(nodes: Seq<DomNode>, i: int, x: int)
    requires
        0 <= i <= x < nodes.len(),
        is_kept_from(nodes, i, x),
    ensures
        pruned_from(nodes, i) == pruned_between(nodes, i, x) + seq![nodes[x]] + pruned_from(
            nodes,
            x + 1,
        ),
    decreases x - i,
{
    lemma_subtree_end_bounds(nodes, i);
    if i == x {
        assert(!is_banned(nodes[x]));
        assert(pruned_between(nodes, i, x) + seq![nodes[x]] + pruned_from(nodes, x + 1) =~= seq![
            nodes[x],
        ] + pruned_from(nodes, x + 1));
    } else if is_banned(nodes[i]) {
        let end = subtree_end(nodes, i);
        assert(end <= x);
        assert(is_kept_from(nodes, end, x));
        lemma_pruned_splits(nodes, end, x);
    } else {
        assert(is_kept_from(nodes, i + 1, x));
        lemma_pruned_splits(nodes, i + 1, x);
        assert(pruned_from(nodes, i) =~= pruned_between(nodes, i, x) + seq![nodes[x]]
            + pruned_from(nodes, x + 1));
    }
}

/// What survives of a run of nodes is no less deep than the run.
pub proof fn lemma_pruned_between_depth(nodes: Seq<DomNode>, i: int, x: int, depth: nat)
    requires
        0 <= i,
        x <= nodes.len(),
        forall|j: int| i <= j < x ==> (#[trigger] nodes[j]).depth >= depth,
    ensures
        forall|k: int|
            0 <= k < pruned_between(nodes, i, x).len() ==> (#[trigger] pruned_between(
                nodes,
                i,
                x,
            )[k]).depth >= depth,
    decreases x - i,
{
    if i < x {
        if is_banned(nodes[i]) {
            lemma_subtree_end_bounds(nodes, i);
            if subtree_end(nodes, i) <= x {
                lemma_pruned_between_depth(nodes, subtree_end(nodes, i), x, depth);
            }
        } else {
            lemma_pruned_between_depth(nodes, i + 1, x, depth);
            let rest = pruned_between(nodes, i + 1, x);
            assert forall|k: int| 0 <= k < pruned_between(nodes, i, x).len() implies (
            #[trigger] pruned_between(nodes, i, x)[k]).depth >= depth by {
                if k > 0 {
                    assert(pruned_between(nodes, i, x)[k] == rest[k - 1]);
                }
            }
        }
    }
}

/// Neither `html` nor `head` is a banned kind.
pub proof fn lemma_frame_is_not_banned()
    ensures
        !is_banned_name("html"@),
        !is_banned_name("head"@),
{
    reveal_strlit("html");
    reveal_strlit("head");
    reveal_strlit("script");
    reveal_strlit("meta");
    reveal_strlit("audio");
    reveal_strlit("video");
    reveal_strlit("iframe");
    reveal_strlit("link");
    reveal_strlit("object");
    reveal_strlit("embed");
    reveal_strlit("applet");
    reveal_strlit("form");
    assert("html"@[0] == 'h' && "head"@[0] == 'h' && "html"@[1] == 't' && "head"@[1] == 'e');
    assert("meta"@[0] == 'm' && "link"@[0] == 'l' && "form"@[0] == 'f');
}

/// The head outlasts the cleaning: a document with the frame of a parsed
/// document still has a head below `html` once its banned elements are out
/// and its attributes stripped, so the stylesheet has a place to go.
pub proof fn lemma_head_survives_cleaning(nodes: Seq<DomNode>, strip_css: bool)
    requires
        is_framed(nodes),
    ensures
        head_position(cleaned(nodes, strip_css)) is Some,
{
    let (a, h) = choose|a: int, h: int| is_frame(nodes, a, h);
    lemma_frame_is_not_banned();
    lemma_next_at_most_passes(nodes, 1, a + 1);
    assert forall|j: int| 0 <= j <= a && is_banned(#[trigger] nodes[j]) implies subtree_end(
        nodes,
        j,
    ) <= a by {
        if 0 < j < a {
            lemma_next_at_most_upper(nodes, nodes[j].depth, j + 1, a);
        }
    }
    lemma_pruned_splits(nodes, 0, a);
    assert forall|j: int| a + 1 <= j <= h && is_banned(#[trigger] nodes[j]) implies subtree_end(
        nodes,
        j,
    ) <= h by {
        if j < h {
            assert(nodes[j].depth > 1);
            lemma_next_at_most_upper(nodes, nodes[j].depth, j + 1, h);
        }
    }
    lemma_pruned_splits(nodes, a + 1, h);
    assert forall|j: int| a + 1 <= j < h implies (#[trigger] nodes[j]).depth >= 2 by {
        assert(nodes[j].depth > 1);
    }
    lemma_pruned_between_depth(nodes, a + 1, h, 2);
    let before = pruned_between(nodes, 0, a);
    let between = pruned_between(nodes, a + 1, h);
    let kept = pruned(nodes);
    let at = before.len() as int;
    let head = at + 1 + between.len();
    assert(kept =~= before + seq![nodes[a]] + (between + seq![nodes[h]] + pruned_from(
        nodes,
        h + 1,
    )));
    assert(kept[at] == nodes[a]);
    assert(kept[head] == nodes[h]);
    let clean = cleaned(nodes, strip_css);
    assert forall|k: int| at + 1 <= k < head + 1 implies (#[trigger] clean[k]).depth > 1 by {
        if k < head {
            assert(kept[k] == between[k - at - 1]);
        }
    }
    lemma_next_at_most_lower(clean, 1, at + 1, head + 1);
    assert(clean[at].name == Some("html"@));
    assert(is_head(clean, head));
    lemma_some_head_is_found(clean, 0, head);
}

} // verus!
