//! What holds of every sanitized document.

use crate::dom::{
    deepened, document_html, document_nodes, fragment_nodes, head_from, head_position, is_head,
    parsed_nodes, subtree_end, with_children_appended, DomNode,
};
use crate::dom_lemmas::{
    lemma_filter_all, lemma_filter_twice, lemma_head_from_found, lemma_next_at_most_lower,
    lemma_next_at_most_passes, lemma_next_at_most_stops, lemma_subtree_end_bounds,
};
use crate::head_laws::lemma_head_survives_cleaning;
use crate::html::{
    cleaned, ends_with_stylesheet, has_clean_attrs, has_shapes_at, is_banned, is_clean,
    is_dropped_attr, is_kept, is_like, is_sanitized_html, kept_attrs, pruned, pruned_from,
    sanitized, stripped, styled, stylesheet_is_usable, CSS,
};
use vstd::prelude::*;

verus! {

/// Nothing banned survives pruning.
pub proof fn lemma_pruned_has_no_banned(nodes: Seq<DomNode>, i: int)
    requires
        0 <= i,
    ensures
        forall|k: int|
            0 <= k < pruned_from(nodes, i).len() ==> !is_banned(#[trigger] pruned_from(nodes, i)[k]),
    decreases nodes.len() - i,
{
    if i < nodes.len() {
        if is_banned(nodes[i]) {
            lemma_subtree_end_bounds(nodes, i);
            lemma_pruned_has_no_banned(nodes, subtree_end(nodes, i));
            assert(pruned_from(nodes, i) == pruned_from(nodes, subtree_end(nodes, i)));
        } else {
            lemma_pruned_has_no_banned(nodes, i + 1);
            let rest = pruned_from(nodes, i + 1);
            assert forall|k: int| 0 <= k < pruned_from(nodes, i).len() implies !is_banned(
                #[trigger] pruned_from(nodes, i)[k],
            ) by {
                assert(pruned_from(nodes, i) == seq![nodes[i]] + rest);
                if k > 0 {
                    assert(pruned_from(nodes, i)[k] == rest[k - 1]);
                } else {
                    assert(pruned_from(nodes, i)[0] == nodes[i]);
                }
            }
        }
    }
}

/// A document without banned elements is left as it is by pruning.
pub proof fn lemma_pruned_is_identity(nodes: Seq<DomNode>, i: int)
    requires
        0 <= i <= nodes.len(),
        forall|k: int| i <= k < nodes.len() ==> !is_banned(#[trigger] nodes[k]),
    ensures
        pruned_from(nodes, i) == nodes.skip(i),
    decreases nodes.len() - i,
{
    if i < nodes.len() {
        lemma_pruned_is_identity(nodes, i + 1);
        assert(seq![nodes[i]] + nodes.skip(i + 1) =~= nodes.skip(i));
    } else {
        assert(nodes.skip(i) =~= Seq::<DomNode>::empty());
    }
}

/// The attributes that stay hold nothing that is to be dropped, and keeping
/// them once more keeps them all.
pub proof fn lemma_kept_attrs(attrs: Seq<(Seq<char>, Seq<char>)>, strip_css: bool)
    ensures
        forall|t: int|
            0 <= t < kept_attrs(attrs, strip_css).len() ==> !is_dropped_attr(
                (#[trigger] kept_attrs(attrs, strip_css)[t]).0,
                strip_css,
            ),
        kept_attrs(kept_attrs(attrs, strip_css), strip_css) == kept_attrs(attrs, strip_css),
{
    let keep = is_kept(strip_css);
    assert forall|t: int| 0 <= t < attrs.filter(keep).len() implies !is_dropped_attr(
        (#[trigger] attrs.filter(keep)[t]).0,
        strip_css,
    ) by {
        attrs.lemma_filter_pred(keep, t);
    }
    lemma_filter_twice(attrs, keep, keep, keep);
}

/// Cleaning leaves a clean document.
pub proof fn lemma_cleaned_is_clean(nodes: Seq<DomNode>, strip_css: bool)
    ensures
        is_clean(cleaned(nodes, strip_css), strip_css),
{
    lemma_pruned_has_no_banned(nodes, 0);
    let kept = pruned(nodes);
    let out = cleaned(nodes, strip_css);
    assert forall|k: int| 0 <= k < out.len() implies !is_banned(#[trigger] out[k])
        && has_clean_attrs(out[k], strip_css) by {
        assert(!is_banned(kept[k]));
        lemma_kept_attrs(kept[k].attrs, strip_css);
    }
}

/// Idempotence of cleaning: a document that has been cleaned is left as it
/// is when it is cleaned again in the same mode.
pub proof fn lemma_cleaned_is_idempotent(nodes: Seq<DomNode>, strip_css: bool)
    ensures
        cleaned(cleaned(nodes, strip_css), strip_css) == cleaned(nodes, strip_css),
{
    let once = cleaned(nodes, strip_css);
    lemma_cleaned_is_clean(nodes, strip_css);
    lemma_pruned_is_identity(once, 0);
    assert(once.skip(0) =~= once);
    assert forall|k: int| 0 <= k < once.len() implies #[trigger] stripped(once, strip_css)[k]
        == once[k] by {
        lemma_kept_attrs(pruned(nodes)[k].attrs, strip_css);
    }
    assert(stripped(once, strip_css) =~= once);
}

/// Stripping touches nothing but attributes: every node keeps its place, its
/// depth, its name and its text.
pub proof fn lemma_stripping_keeps_text(nodes: Seq<DomNode>, strip_css: bool, k: int)
    requires
        0 <= k < nodes.len(),
    ensures
        stripped(nodes, strip_css).len() == nodes.len(),
        stripped(nodes, strip_css)[k].depth == nodes[k].depth,
        stripped(nodes, strip_css)[k].name == nodes[k].name,
        stripped(nodes, strip_css)[k].text == nodes[k].text,
{
}

/// A document without banned elements keeps every node through cleaning,
/// with its text.
pub proof fn lemma_harmless_document_keeps_text(nodes: Seq<DomNode>, strip_css: bool, k: int)
    requires
        0 <= k < nodes.len(),
        forall|j: int| 0 <= j < nodes.len() ==> !is_banned(#[trigger] nodes[j]),
    ensures
        cleaned(nodes, strip_css).len() == nodes.len(),
        cleaned(nodes, strip_css)[k].name == nodes[k].name,
        cleaned(nodes, strip_css)[k].text == nodes[k].text,
{
    lemma_pruned_is_identity(nodes, 0);
    assert(nodes.skip(0) =~= nodes);
}

/// A clean document is left as it is by cleaning.
pub proof fn lemma_clean_is_fixed(nodes: Seq<DomNode>, strip_css: bool)
    requires
        is_clean(nodes, strip_css),
    ensures
        cleaned(nodes, strip_css) == nodes,
{
    lemma_pruned_is_identity(nodes, 0);
    assert(nodes.skip(0) =~= nodes);
    assert forall|k: int| 0 <= k < nodes.len() implies #[trigger] stripped(nodes, strip_css)[k]
        == nodes[k] by {
        assert(!is_banned(nodes[k]) && has_clean_attrs(nodes[k], strip_css));
        lemma_filter_all(nodes[k].attrs, is_kept(strip_css));
    }
    assert(stripped(nodes, strip_css) =~= nodes);
}

/// Whether `after` is `before` with the stylesheet's nodes added once, as the
/// last nodes inside the head at `h`, one level below it.
pub open spec fn is_styled_once(before: Seq<DomNode>, h: int, after: Seq<DomNode>) -> bool {
    let start = subtree_end(before, h);
    let added = fragment_nodes(CSS@);
    &&& after.len() == before.len() + added.len()
    &&& after.subrange(0, start) == before.subrange(0, start)
    &&& after.subrange(start, start + added.len()) == deepened(added, before[h].depth + 1)
    &&& after.skip(start + added.len()) == before.skip(start)
    &&& subtree_end(after, h) == start + added.len()
}

/// Where added nodes land: as the last nodes inside the element they are
/// added to, one level below it, with every other node where it was.
pub proof fn lemma_appended_stands_in_head(nodes: Seq<DomNode>, h: int)
    requires
        0 <= h < nodes.len(),
    ensures
        is_styled_once(nodes, h, with_children_appended(nodes, h, fragment_nodes(CSS@))),
{
    let end = subtree_end(nodes, h);
    let added = deepened(fragment_nodes(CSS@), nodes[h].depth + 1);
    let out = with_children_appended(nodes, h, fragment_nodes(CSS@));
    lemma_subtree_end_bounds(nodes, h);
    lemma_next_at_most_passes(nodes, nodes[h].depth, h + 1);
    assert(out =~= nodes.subrange(0, end) + added + nodes.skip(end));
    assert(out.subrange(0, end) =~= nodes.subrange(0, end));
    assert(out.subrange(end, end + added.len()) =~= added);
    assert(out.skip(end + added.len()) =~= nodes.skip(end));
    assert(out[h] == nodes[h]);
    assert forall|j: int| h + 1 <= j < end + added.len() implies (#[trigger] out[j]).depth
        > nodes[h].depth by {
        if j < end {
            assert(out[j] == nodes[j]);
        } else {
            assert(out[j] == added[j - end]);
        }
    }
    if end + added.len() < out.len() {
        assert(out[end + added.len()] == nodes[end]);
    }
    lemma_next_at_most_stops(out, nodes[h].depth, h + 1, end + added.len());
}

/// Whether a node lies below another is settled by the nodes up to it.
pub proof fn lemma_below_by_prefix(x: Seq<DomNode>, y: Seq<DomNode>, a: int, j: int)
    requires
        0 <= a < j < x.len(),
        j < y.len(),
        forall|t: int| 0 <= t <= j ==> #[trigger] x[t] == y[t],
        j < subtree_end(x, a),
    ensures
        j < subtree_end(y, a),
{
    lemma_next_at_most_passes(x, x[a].depth, a + 1);
    assert forall|t: int| a + 1 <= t < j + 1 implies (#[trigger] y[t]).depth > y[a].depth by {
        assert(x[t] == y[t]);
        assert(x[t].depth > x[a].depth);
    }
    lemma_next_at_most_lower(y, y[a].depth, a + 1, j + 1);
}

/// Whether a node is a head is settled by the nodes up to it.
pub proof fn lemma_head_by_prefix(x: Seq<DomNode>, y: Seq<DomNode>, j: int)
    requires
        0 <= j < x.len(),
        j < y.len(),
        forall|t: int| 0 <= t <= j ==> #[trigger] x[t] == y[t],
        is_head(x, j),
    ensures
        is_head(y, j),
{
    let a = choose|a: int| 0 <= a < j && (#[trigger] x[a]).name == Some("html"@) && j < subtree_end(
        x,
        a,
    );
    lemma_below_by_prefix(x, y, a, j);
    assert(x[a] == y[a]);
    assert(y[a].name == Some("html"@) && j < subtree_end(y, a));
    assert(x[j] == y[j]);
}

/// The first head from a place on is found where no node before it is one.
pub proof fn lemma_head_from_is(nodes: Seq<DomNode>, i: int, h: int)
    requires
        0 <= i <= h,
        is_head(nodes, h),
        forall|j: int| i <= j < h ==> !is_head(nodes, j),
    ensures
        head_from(nodes, i) == Some(h),
    decreases h - i,
{
    if i < h {
        lemma_head_from_is(nodes, i + 1, h);
    }
}

/// The head of a document is the head of every document that has the same
/// nodes up to it.
pub proof fn lemma_head_stays(x: Seq<DomNode>, y: Seq<DomNode>)
    requires
        head_position(x) is Some,
        head_position(x)->0 < y.len(),
        forall|t: int| 0 <= t <= head_position(x)->0 ==> #[trigger] x[t] == y[t],
    ensures
        head_position(y) == head_position(x),
{
    let h = head_position(x)->0;
    lemma_head_from_found(x, 0);
    lemma_head_by_prefix(x, y, h);
    assert forall|j: int| 0 <= j < h implies !is_head(y, j) by {
        if is_head(y, j) {
            assert forall|t: int| 0 <= t <= j implies #[trigger] y[t] == x[t] by {
                assert(x[t] == y[t]);
            }
            lemma_head_by_prefix(y, x, j);
        }
    }
    lemma_head_from_is(y, 0, h);
}

/// After styling the head ends with the stylesheet: in a document with a
/// head, and with a stylesheet that can be used, the head is where it was
/// and its last nodes are those of the stylesheet.
pub proof fn lemma_styled_ends_with_stylesheet(nodes: Seq<DomNode>)
    requires
        head_position(nodes) is Some,
        stylesheet_is_usable(),
    ensures
        head_position(styled(nodes)) == head_position(nodes),
        ends_with_stylesheet(styled(nodes), head_position(nodes)->0),
{
    let h = head_position(nodes)->0;
    lemma_head_from_found(nodes, 0);
    if !ends_with_stylesheet(nodes, h) {
        let out = styled(nodes);
        let added = fragment_nodes(CSS@);
        let end = subtree_end(nodes, h);
        lemma_appended_stands_in_head(nodes, h);
        lemma_subtree_end_bounds(nodes, h);
        assert forall|t: int| 0 <= t <= h implies #[trigger] nodes[t] == out[t] by {
            assert(out.subrange(0, end)[t] == nodes.subrange(0, end)[t]);
        }
        lemma_head_stays(nodes, out);
        assert forall|k: int| 0 <= k < added.len() implies is_like(
            out[end + added.len() - added.len() + k],
            #[trigger] added[k],
            k == 0,
        ) by {
            assert(out[end + k] == out.subrange(end, end + added.len())[k]);
            assert(out[end + k] == deepened(added, nodes[h].depth + 1)[k]);
            if added[k].text is Some {
                assert(added[k].text->0.skip(0) =~= added[k].text->0);
            }
        }
        assert(has_shapes_at(out, subtree_end(out, h) - added.len(), added));
    }
}

/// Idempotence of styling: a document that has the stylesheet is left as it
/// is when it is styled again.
pub proof fn lemma_styled_is_idempotent(nodes: Seq<DomNode>)
    ensures
        styled(styled(nodes)) == styled(nodes),
{
    if head_position(nodes) is Some && stylesheet_is_usable() {
        lemma_styled_ends_with_stylesheet(nodes);
    }
}

/// Styling adds nothing that the sanitizer would take out.
pub proof fn lemma_styled_is_clean(nodes: Seq<DomNode>)
    requires
        is_clean(nodes, true),
    ensures
        is_clean(styled(nodes), true),
{
    if head_position(nodes) is Some && stylesheet_is_usable() && !ends_with_stylesheet(
        nodes,
        head_position(nodes)->0,
    ) {
        let h = head_position(nodes)->0;
        let out = styled(nodes);
        let added = fragment_nodes(CSS@);
        let end = subtree_end(nodes, h);
        lemma_head_from_found(nodes, 0);
        lemma_appended_stands_in_head(nodes, h);
        lemma_subtree_end_bounds(nodes, h);
        assert forall|k: int| 0 <= k < out.len() implies !is_banned(#[trigger] out[k])
            && has_clean_attrs(out[k], true) by {
            if k < end {
                assert(out[k] == out.subrange(0, end)[k]);
                assert(out[k] == nodes[k]);
            } else if k < end + added.len() {
                assert(out[k] == out.subrange(end, end + added.len())[k - end]);
                assert(out[k] == deepened(added, nodes[h].depth + 1)[k - end]);
                assert(!is_banned(added[k - end]) && has_clean_attrs(added[k - end], true));
            } else {
                assert(out[k] == out.skip(end + added.len())[k - end - added.len()]);
                assert(out[k] == nodes[k - added.len()]);
            }
        }
    }
}

/// Safety of the sanitizer: whatever document goes in, and in either mode,
/// the document that comes out holds no element of a banned kind and no
/// attribute whose name begins with `on`; where presentation is stripped it
/// holds no `style` and no `class` attribute either. This includes the nodes
/// of the stylesheet, which is added only where it would pass itself.
pub proof fn lemma_sanitized_is_clean(nodes: Seq<DomNode>, strip_css: bool)
    ensures
        is_clean(sanitized(nodes, strip_css), strip_css),
{
    lemma_cleaned_is_clean(nodes, strip_css);
    if strip_css {
        lemma_styled_is_clean(cleaned(nodes, true));
    }
}

/// Idempotence of the sanitizer: sanitizing a sanitized document changes
/// nothing, in either mode.
pub proof fn lemma_sanitized_is_idempotent(nodes: Seq<DomNode>, strip_css: bool)
    ensures
        sanitized(sanitized(nodes, strip_css), strip_css) == sanitized(nodes, strip_css),
{
    let once = sanitized(nodes, strip_css);
    lemma_sanitized_is_clean(nodes, strip_css);
    lemma_clean_is_fixed(once, strip_css);
    if strip_css {
        lemma_styled_is_idempotent(cleaned(nodes, true));
    }
}

/// Safety of the sanitized text: whatever `safe` hands out is the written
/// form of a clean document.
pub proof fn lemma_safe_output_is_clean(input: Seq<char>, strip_css: bool, output: Seq<char>)
    requires
        is_sanitized_html(input, strip_css, output),
    ensures
        exists|doc: nipper::Document|
            #[trigger] document_html(doc) == output && is_clean(document_nodes(doc), strip_css),
{
    let doc = choose|doc: nipper::Document|
        #[trigger] document_nodes(doc) == sanitized(parsed_nodes(input), strip_css)
            && document_html(doc) == output;
    lemma_sanitized_is_clean(parsed_nodes(input), strip_css);
    assert(document_html(doc) == output && is_clean(document_nodes(doc), strip_css));
}

/// The stylesheet in the sanitized text: where presentation is stripped,
/// what `safe` hands out is the written form of a document that has a head,
/// and whose head ends with the stylesheet. A document that comes with the
/// stylesheet at the end of its head gets no second one; one that holds it
/// elsewhere gets it at the end of its head as well.
pub proof fn lemma_safe_output_holds_the_stylesheet(input: Seq<char>, output: Seq<char>)
    requires
        is_sanitized_html(input, true, output),
        stylesheet_is_usable(),
    ensures
        exists|doc: nipper::Document|
            #[trigger] document_html(doc) == output && head_position(document_nodes(doc)) is Some
                && ends_with_stylesheet(
                document_nodes(doc),
                head_position(document_nodes(doc))->0,
            ),
{
    let clean = cleaned(parsed_nodes(input), true);
    let doc = choose|doc: nipper::Document|
        #[trigger] document_nodes(doc) == sanitized(parsed_nodes(input), true) && document_html(
            doc,
        ) == output;
    lemma_head_survives_cleaning(parsed_nodes(input), true);
    lemma_styled_ends_with_stylesheet(clean);
    assert(document_html(doc) == output && head_position(document_nodes(doc)) is Some
        && ends_with_stylesheet(document_nodes(doc), head_position(document_nodes(doc))->0));
}

} // verus!
