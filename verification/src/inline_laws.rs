//! What holds of every HTML body after its images are folded in.

use crate::attachment::AttachmentView;
use crate::codec::base64_input_limit;
use crate::dom::{document_html, document_nodes, first_value, parsed_nodes, with_value, DomNode};
use crate::electronicmail::{
    data_uri, find_from, inlined, inlined_attrs, inlined_node, is_inlined_html, resolved_source,
};
use crate::text::{fits, starts_with};
use vstd::prelude::*;

verus! {

/// After an attribute is set, its first value is the value set.
pub proof fn lemma_first_value_after_set(
    attrs: Seq<(Seq<char>, Seq<char>)>,
    name: Seq<char>,
    value: Seq<char>,
)
    ensures
        first_value(with_value(attrs, name, value), name) == Some(value),
    decreases attrs.len(),
{
    if attrs.len() > 0 && attrs[0].0 != name {
        lemma_first_value_after_set(attrs.skip(1), name, value);
        let set = with_value(attrs, name, value);
        assert(set.skip(1) =~= with_value(attrs.skip(1), name, value));
    }
}

/// A `data:` address is no `cid:` reference.
pub proof fn lemma_data_uri_is_no_reference(mime_type: Seq<char>, body: Seq<u8>)
    ensures
        !starts_with(data_uri(mime_type, body), "cid:"@),
{
    reveal_strlit("cid:");
    reveal_strlit("data:");
    let uri = data_uri(mime_type, body);
    assert(uri[0] == 'd');
    if starts_with(uri, "cid:"@) {
        assert(uri.subrange(0, 4)[0] == uri[0]);
    }
}

/// No resolvable reference is left: in the body with the images folded in,
/// an image whose source is still a `cid:` reference names no attachment of
/// the message that has a known type and can be encoded.
pub proof fn lemma_no_resolvable_reference_is_left(
    nodes: Seq<DomNode>,
    attachments: Seq<AttachmentView>,
    k: int,
)
    requires
        0 <= k < nodes.len(),
        inlined(nodes, attachments)[k].name == Some("img"@),
        first_value(inlined(nodes, attachments)[k].attrs, "src"@) is Some,
    ensures
        resolved_source(
            first_value(inlined(nodes, attachments)[k].attrs, "src"@)->0,
            attachments,
        ) is None,
{
    let attrs = nodes[k].attrs;
    match first_value(attrs, "src"@) {
        Some(src) => match resolved_source(src, attachments) {
            Some(uri) => {
                lemma_first_value_after_set(attrs, "src"@, uri);
                let i = crate::electronicmail::find_from(attachments, src.skip(4), 0)->0;
                lemma_data_uri_is_no_reference(attachments[i].mime_type->0, attachments[i].body);
            },
            None => {},
        },
        None => {},
    }
}

/// Folding in is idempotent: a body whose images are folded in is left as it
/// is when they are folded in again.
pub proof fn lemma_inlined_is_idempotent(nodes: Seq<DomNode>, attachments: Seq<AttachmentView>)
    ensures
        inlined(inlined(nodes, attachments), attachments) == inlined(nodes, attachments),
{
    let once = inlined(nodes, attachments);
    assert forall|k: int| 0 <= k < once.len() implies #[trigger] inlined(once, attachments)[k]
        == once[k] by {
        if once[k].name == Some("img"@) {
            if first_value(once[k].attrs, "src"@) is Some {
                lemma_no_resolvable_reference_is_left(nodes, attachments, k);
            }
            assert(inlined_attrs(once[k].attrs, attachments) == once[k].attrs);
        }
        assert(inlined_node(once[k], attachments) == once[k]);
    }
    assert(inlined(once, attachments) =~= once);
}

/// The first attachment with a content id is the one a search finds.
pub proof fn lemma_first_is_found(
    attachments: Seq<AttachmentView>,
    cid: Seq<char>,
    from: int,
    i: int,
)
    requires
        0 <= from <= i < attachments.len(),
        attachments[i].content_id == cid,
        forall|j: int| from <= j < i ==> (#[trigger] attachments[j]).content_id != cid,
    ensures
        find_from(attachments, cid, from) == Some(i),
    decreases i - from,
{
    if from < i {
        lemma_first_is_found(attachments, cid, from + 1, i);
    }
}

/// Resolution of a reference: an image whose source is `cid:` followed by a
/// content id gets, as its source, the `data:` address that carries the
/// bytes of the attachment with that content id, under the attachment's
/// type. This holds where that attachment is the first with the content id,
/// has a type, is not too long to be encoded, and gives an address within
/// the HTML engine's limit; the reference is then gone from the source.
pub proof fn lemma_reference_becomes_data_address(
    nodes: Seq<DomNode>,
    attachments: Seq<AttachmentView>,
    k: int,
    i: int,
    cid: Seq<char>,
)
    requires
        0 <= k < nodes.len(),
        nodes[k].name == Some("img"@),
        first_value(nodes[k].attrs, "src"@) == Some("cid:"@ + cid),
        0 <= i < attachments.len(),
        attachments[i].content_id == cid,
        forall|j: int| 0 <= j < i ==> (#[trigger] attachments[j]).content_id != cid,
        attachments[i].mime_type is Some,
        attachments[i].body.len() <= base64_input_limit(),
        fits(data_uri(attachments[i].mime_type->0, attachments[i].body)),
    ensures
        inlined(nodes, attachments)[k].name == Some("img"@),
        inlined(nodes, attachments)[k].attrs == with_value(
            nodes[k].attrs,
            "src"@,
            data_uri(attachments[i].mime_type->0, attachments[i].body),
        ),
        first_value(inlined(nodes, attachments)[k].attrs, "src"@) == Some(
            data_uri(attachments[i].mime_type->0, attachments[i].body),
        ),
        !starts_with(data_uri(attachments[i].mime_type->0, attachments[i].body), "cid:"@),
{
    reveal_strlit("cid:");
    let src = "cid:"@ + cid;
    let uri = data_uri(attachments[i].mime_type->0, attachments[i].body);
    assert(src.subrange(0, 4) =~= "cid:"@);
    assert(src.skip(4) =~= cid);
    lemma_first_is_found(attachments, cid, 0, i);
    assert(resolved_source(src, attachments) == Some(uri));
    lemma_first_value_after_set(nodes[k].attrs, "src"@, uri);
    lemma_data_uri_is_no_reference(attachments[i].mime_type->0, attachments[i].body);
}

/// Resolution in the body that `integrate_cid` hands out: the body is the
/// written form of a document in which such an image has the data address
/// as its source.
pub proof fn lemma_inlined_output_holds_the_data(
    input: Seq<char>,
    attachments: Seq<AttachmentView>,
    output: Seq<char>,
    k: int,
    i: int,
    cid: Seq<char>,
)
    requires
        is_inlined_html(input, attachments, output),
        0 <= k < parsed_nodes(input).len(),
        parsed_nodes(input)[k].name == Some("img"@),
        first_value(parsed_nodes(input)[k].attrs, "src"@) == Some("cid:"@ + cid),
        0 <= i < attachments.len(),
        attachments[i].content_id == cid,
        forall|j: int| 0 <= j < i ==> (#[trigger] attachments[j]).content_id != cid,
        attachments[i].mime_type is Some,
        attachments[i].body.len() <= base64_input_limit(),
        fits(data_uri(attachments[i].mime_type->0, attachments[i].body)),
    ensures
        exists|doc: nipper::Document|
            #[trigger] document_html(doc) == output && document_nodes(doc).len() == parsed_nodes(
                input,
            ).len() && document_nodes(doc)[k].name == Some("img"@) && first_value(
                document_nodes(doc)[k].attrs,
                "src"@,
            ) == Some(data_uri(attachments[i].mime_type->0, attachments[i].body)),
{
    let doc = choose|doc: nipper::Document|
        #[trigger] document_nodes(doc) == inlined(parsed_nodes(input), attachments)
            && document_html(doc) == output;
    lemma_reference_becomes_data_address(parsed_nodes(input), attachments, k, i, cid);
    assert(document_html(doc) == output && document_nodes(doc).len() == parsed_nodes(input).len()
        && document_nodes(doc)[k].name == Some("img"@) && first_value(
        document_nodes(doc)[k].attrs,
        "src"@,
    ) == Some(data_uri(attachments[i].mime_type->0, attachments[i].body)));
}

/// Folding in touches nothing but attributes: every node keeps its place,
/// its depth, its name and its text.
pub proof fn lemma_inlining_keeps_text(
    nodes: Seq<DomNode>,
    attachments: Seq<AttachmentView>,
    k: int,
)
    requires
        0 <= k < nodes.len(),
    ensures
        inlined(nodes, attachments).len() == nodes.len(),
        inlined(nodes, attachments)[k].depth == nodes[k].depth,
        inlined(nodes, attachments)[k].name == nodes[k].name,
        inlined(nodes, attachments)[k].text == nodes[k].text,
{
}

} // verus!
