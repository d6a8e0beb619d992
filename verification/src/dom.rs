//! The parsed HTML document, kept in the parser's own arena and reached only
//! through the operations below.
//!
//! A document is modelled as the sequence of its nodes in document order
//! (a parent before its children, siblings left to right), the document root
//! first. Of a comment or a doctype the sequence says only that it is there.
//! Beside the sequence goes one more thing the engine keeps, whether the
//! links between the nodes are in order. Every operation is stated over these
//! two; nothing in this file is proved, it is what the rest of the crate
//! takes the HTML engine to do.
//!
//! The engine keeps text in buffers of at most 4 GiB and stops the program
//! where one would grow beyond that. Text is therefore handed to it only
//! within the limit that `fits` draws.

use crate::text::{fits, opt_view};
use vstd::prelude::*;

verus! {

/// One node of a document as the contracts see it.
pub struct DomNode {
    /// Distance from the document root, which has depth 0.
    pub depth: nat,
    /// Local name for an element; `None` for text, comments and the like.
    pub name: Option<Seq<char>>,
    /// Attributes in source order, as pairs of local name and value.
    pub attrs: Seq<(Seq<char>, Seq<char>)>,
    /// What a text node holds; `None` for any other node.
    pub text: Option<Seq<char>>,
}

#[verifier::external_type_specification]
#[verifier::external_body]
pub struct ExDocument(nipper::Document);

/// The nodes reachable from the root of `doc`, in document order.
pub uninterp spec fn document_nodes(doc: nipper::Document) -> Seq<DomNode>;

/// The HTML text that `doc` serialises to.
pub uninterp spec fn document_html(doc: nipper::Document) -> Seq<char>;

/// The nodes of the document that parsing `html` produces.
pub uninterp spec fn parsed_nodes(html: Seq<char>) -> Seq<DomNode>;

/// The nodes that parsing `html` as a fragment produces, the outermost of
/// them at depth 0.
pub uninterp spec fn fragment_nodes(html: Seq<char>) -> Seq<DomNode>;

/// Whether the parent, child and sibling links of every node of `doc` name
/// its real neighbours. The nodes of a document are found by its first-child
/// and next-sibling links alone; taking a node out also follows the links
/// back, and goes wrong where those are off.
pub uninterp spec fn links_intact(doc: nipper::Document) -> bool;

/// First index at or after `j` whose node is no deeper than `depth`, or the
/// length of `nodes` when there is none.
pub open spec fn next_at_most(nodes: Seq<DomNode>, depth: nat, j: int) -> int
    decreases nodes.len() - j,
{
    if j < 0 || j >= nodes.len() || nodes[j].depth <= depth {
        j
    } else {
        next_at_most(nodes, depth, j + 1)
    }
}

/// One past the last descendant of node `i`: in document order the subtree of
/// a node is the run of deeper nodes that follows it.
pub open spec fn subtree_end(nodes: Seq<DomNode>, i: int) -> int {
    next_at_most(nodes, nodes[i].depth, i + 1)
}

/// Whether node `i` lies below an element called `name`.
pub open spec fn has_ancestor_named(nodes: Seq<DomNode>, i: int, name: Seq<char>) -> bool {
    exists|j: int|
        0 <= j < i && (#[trigger] nodes[j]).name == Some(name) && i < subtree_end(nodes, j)
}

/// Whether node `i` is what the selector `html`, then `head` matches: an
/// element called `head` below an element called `html`.
pub open spec fn is_head(nodes: Seq<DomNode>, i: int) -> bool {
    0 <= i < nodes.len() && nodes[i].name == Some("head"@) && has_ancestor_named(
        nodes,
        i,
        "html"@,
    )
}

/// The first such node at or after `i`.
pub open spec fn head_from(nodes: Seq<DomNode>, i: int) -> Option<int>
    decreases nodes.len() - i,
{
    if i < 0 || i >= nodes.len() {
        None
    } else if is_head(nodes, i) {
        Some(i)
    } else {
        head_from(nodes, i + 1)
    }
}

/// Where the selector chain `html`, then `head`, then the first match lands
/// in a document with these nodes, if anywhere.
pub open spec fn head_position(nodes: Seq<DomNode>) -> Option<int> {
    head_from(nodes, 0)
}

/// Whether `a` and `h` are the `html` element below the root and the `head`
/// element below it.
pub open spec fn is_frame(nodes: Seq<DomNode>, a: int, h: int) -> bool {
    0 < a < h < nodes.len() && nodes[a].name == Some("html"@) && nodes[a].depth == 1
        && nodes[h].name == Some("head"@) && nodes[h].depth == 2 && h < subtree_end(nodes, a)
}

/// The frame that every parsed document has: the root first, which is no
/// element, every other node below it, among the root's children an element
/// `html`, and among that element's children an element `head`.
pub open spec fn is_framed(nodes: Seq<DomNode>) -> bool {
    &&& nodes.len() > 0
    &&& nodes[0].name is None
    &&& forall|j: int| 0 < j < nodes.len() ==> (#[trigger] nodes[j]).depth >= 1
    &&& exists|a: int, h: int| is_frame(nodes, a, h)
}

/// Value of the first attribute called `name`.
pub open spec fn first_value(attrs: Seq<(Seq<char>, Seq<char>)>, name: Seq<char>) -> Option<
    Seq<char>,
>
    decreases attrs.len(),
{
    if attrs.len() == 0 {
        None
    } else if attrs[0].0 == name {
        Some(attrs[0].1)
    } else {
        first_value(attrs.skip(1), name)
    }
}

/// The attributes after setting `name` to `value`: the first attribute of
/// that name takes the value, and where there is none a new one is added at
/// the end.
pub open spec fn with_value(
    attrs: Seq<(Seq<char>, Seq<char>)>,
    name: Seq<char>,
    value: Seq<char>,
) -> Seq<(Seq<char>, Seq<char>)>
    decreases attrs.len(),
{
    if attrs.len() == 0 {
        seq![(name, value)]
    } else if attrs[0].0 == name {
        seq![(name, value)] + attrs.skip(1)
    } else {
        seq![attrs[0]] + with_value(attrs.skip(1), name, value)
    }
}

/// The texts of a list of names, in order.
pub open spec fn name_texts(names: Vec<String>) -> Seq<Seq<char>> {
    Seq::new(names@.len(), |k: int| names@[k]@)
}

/// Local names of the attributes, in order.
pub open spec fn attr_names(attrs: Seq<(Seq<char>, Seq<char>)>) -> Seq<Seq<char>> {
    Seq::new(attrs.len(), |k: int| attrs[k].0)
}

/// The test that an attribute is not called `name`.
pub open spec fn not_named(name: Seq<char>) -> spec_fn((Seq<char>, Seq<char>)) -> bool {
    |a: (Seq<char>, Seq<char>)| a.0 != name
}

/// The attributes that are not called `name`.
pub open spec fn without_name(attrs: Seq<(Seq<char>, Seq<char>)>, name: Seq<char>) -> Seq<
    (Seq<char>, Seq<char>),
> {
    attrs.filter(not_named(name))
}

/// Node `i` with other attributes.
pub open spec fn with_attrs(nodes: Seq<DomNode>, i: int, attrs: Seq<(Seq<char>, Seq<char>)>) -> Seq<
    DomNode,
> {
    nodes.update(i, DomNode { attrs, ..nodes[i] })
}

/// The nodes moved `by` levels down.
pub open spec fn deepened(nodes: Seq<DomNode>, by: nat) -> Seq<DomNode> {
    Seq::new(nodes.len(), |k: int| DomNode { depth: nodes[k].depth + by, ..nodes[k] })
}

/// `extra` added as the last children of node `i`.
pub open spec fn with_children_appended(nodes: Seq<DomNode>, i: int, extra: Seq<DomNode>) -> Seq<
    DomNode,
> {
    nodes.subrange(0, subtree_end(nodes, i)) + deepened(extra, nodes[i].depth + 1) + nodes.skip(
        subtree_end(nodes, i),
    )
}

/// The nodes without node `i` and its descendants.
pub open spec fn without_subtree(nodes: Seq<DomNode>, i: int) -> Seq<DomNode> {
    nodes.subrange(0, i) + nodes.skip(subtree_end(nodes, i))
}

/// `nipper::Document::from`: parses a whole HTML document. Any text within
/// the limit parses, and the parser leaves every link in order. Whatever the
/// text holds, the parser makes an `html` element below the root and a `head`
/// element below that before it goes on, and never moves or removes either.
#[verifier::external_body]
pub(crate) fn parse_document(html: &str) -> (doc: nipper::Document)
    requires
        fits(html@),
    ensures
        document_nodes(doc) == parsed_nodes(html@),
        links_intact(doc),
        is_framed(document_nodes(doc)),
{
    nipper::Document::from(html)
}

/// `Document::select("*")` with `Selection::length`: the universal selector
/// matches every node, the root included, so this counts the nodes.
#[verifier::external_body]
pub(crate) fn node_count(doc: &nipper::Document) -> (n: usize)
    ensures
        n == document_nodes(*doc).len(),
{
    doc.select("*").length()
}

/// `Selection::select("*")` on node `i`: matches every node below it, so this
/// counts its descendants.
#[verifier::external_body]
pub(crate) fn descendant_count(doc: &nipper::Document, i: usize) -> (n: usize)
    requires
        i < document_nodes(*doc).len(),
    ensures
        n == subtree_end(document_nodes(*doc), i as int) - i - 1,
{
    nipper::Selection::from(doc.select("*").nodes()[i].clone()).select("*").length()
}

/// `Node::node_name` on every node: the local name of an element, nothing
/// for any other node. Node 0 is the document root, which is no element.
#[verifier::external_body]
pub(crate) fn node_names(doc: &nipper::Document) -> (names: Vec<Option<String>>)
    ensures
        names@.len() == document_nodes(*doc).len(),
        forall|i: int|
            0 <= i < names@.len() ==> opt_view(#[trigger] names@[i]) == document_nodes(
                *doc,
            )[i].name,
        names@.len() > 0 ==> names@[0] is None,
{
    doc.select("*").nodes().iter().map(|n| n.node_name().map(|name| name.to_string())).collect()
}

/// `Node::is_text` and `Node::text` on every node: what each text node
/// holds, nothing for any other node.
#[verifier::external_body]
pub(crate) fn node_texts(doc: &nipper::Document) -> (texts: Vec<Option<String>>)
    ensures
        texts@.len() == document_nodes(*doc).len(),
        forall|i: int|
            0 <= i < texts@.len() ==> opt_view(#[trigger] texts@[i]) == document_nodes(
                *doc,
            )[i].text,
{
    let held = |n: &nipper::Node| if n.is_text() { Some(n.text().to_string()) } else { None };
    doc.select("*").nodes().iter().map(held).collect()
}

/// `Node::attrs` on every node: the attributes in order, of which this keeps
/// the local names.
#[verifier::external_body]
pub(crate) fn attribute_names(doc: &nipper::Document) -> (names: Vec<Vec<String>>)
    ensures
        names@.len() == document_nodes(*doc).len(),
        forall|i: int|
            0 <= i < names@.len() ==> name_texts(#[trigger] names@[i]) == attr_names(
                document_nodes(*doc)[i].attrs,
            ),
{
    let local = |n: &nipper::Node| n.attrs().iter().map(|a| a.name.local.to_string()).collect();
    doc.select("*").nodes().iter().map(local).collect()
}

/// `Node::attr`: the value of the first attribute of node `i` whose local
/// name is `name`.
#[verifier::external_body]
pub(crate) fn attribute_value(doc: &nipper::Document, i: usize, name: &str) -> (value: Option<
    String,
>)
    requires
        i < document_nodes(*doc).len(),
    ensures
        value is Some <==> first_value(document_nodes(*doc)[i as int].attrs, name@) is Some,
        value is Some ==> first_value(document_nodes(*doc)[i as int].attrs, name@)->0
            == value->0@,
{
    doc.select("*").nodes()[i].attr(name).map(|value| value.to_string())
}

/// `Node::remove_attr`: drops every attribute of node `i` whose local name
/// is `name`, and leaves all else as it was, the links too.
#[verifier::external_body]
pub(crate) fn remove_attribute(doc: &mut nipper::Document, i: usize, name: &str)
    requires
        i < document_nodes(*old(doc)).len(),
    ensures
        document_nodes(*final(doc)) == with_attrs(
            document_nodes(*old(doc)),
            i as int,
            without_name(document_nodes(*old(doc))[i as int].attrs, name@),
        ),
        links_intact(*final(doc)) == links_intact(*old(doc)),
{
    doc.select("*").nodes()[i].remove_attr(name)
}

/// `Node::set_attr` on an element: gives the first attribute called `name`
/// the value, or adds the attribute at the end where the element has none of
/// that name. The links stay as they were. The value goes into a buffer of
/// the engine's, so it has to be within the limit.
#[verifier::external_body]
pub(crate) fn set_attribute(doc: &mut nipper::Document, i: usize, name: &str, value: &str)
    requires
        i < document_nodes(*old(doc)).len(),
        document_nodes(*old(doc))[i as int].name is Some,
        fits(value@),
    ensures
        document_nodes(*final(doc)) == with_attrs(
            document_nodes(*old(doc)),
            i as int,
            with_value(document_nodes(*old(doc))[i as int].attrs, name@, value@),
        ),
        links_intact(*final(doc)) == links_intact(*old(doc)),
{
    doc.select("*").nodes()[i].set_attr(name, value)
}

/// `Node::remove_from_parent`: detaches node `i`, and with it its
/// descendants, from the document. The root has no parent and is left out.
/// The node's neighbours are found by its own links and joined to each
/// other, so the links have to be in order, and then stay so.
#[verifier::external_body]
pub(crate) fn remove_node(doc: &mut nipper::Document, i: usize)
    requires
        0 < i < document_nodes(*old(doc)).len(),
        links_intact(*old(doc)),
    ensures
        document_nodes(*final(doc)) == without_subtree(document_nodes(*old(doc)), i as int),
        links_intact(*final(doc)),
{
    doc.select("*").nodes()[i].remove_from_parent()
}

/// `Selection::append_html` on element `i`: parses `html` as a fragment and
/// adds its nodes as the last children of the element. The nodes are hung
/// behind the child that the element's last-child link names, so the links
/// have to be in order; the call does not leave them so, and nothing is said
/// of them afterwards.
#[verifier::external_body]
pub(crate) fn append_children(doc: &mut nipper::Document, i: usize, html: &str)
    requires
        i < document_nodes(*old(doc)).len(),
        document_nodes(*old(doc))[i as int].name is Some,
        links_intact(*old(doc)),
        fits(html@),
    ensures
        document_nodes(*final(doc)) == with_children_appended(
            document_nodes(*old(doc)),
            i as int,
            fragment_nodes(html@),
        ),
{
    nipper::Selection::from(doc.select("*").nodes()[i].clone()).append_html(html)
}

/// `html5ever::serialize` on the root of the document, into bytes, with the
/// settings `Document::html` uses: writes the document out. Nothing is held
/// in a buffer of the engine's on the way, so any length goes.
#[verifier::external_body]
pub(crate) fn serialize(doc: &nipper::Document) -> (html: String)
    ensures
        html@ == document_html(*doc),
{
    let mut out: Vec<u8> = Vec::new();
    let root = nipper::SerializableNodeRef::from(doc.root());
    let opts = html5ever::serialize::SerializeOpts {
        scripting_enabled: true,
        traversal_scope: html5ever::serialize::TraversalScope::IncludeNode,
        create_missing_parent: false,
    };
    let _ = html5ever::serialize(&mut out, &root, opts);
    String::from_utf8_lossy(&out).into_owned()
}

} // verus!
