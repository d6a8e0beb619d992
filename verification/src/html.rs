//! Sanitizer for untrusted HTML: takes out active content before rendering.

use crate::dom::{
    append_children, attr_names, attribute_names, descendant_count, document_html,
    document_nodes, fragment_nodes, has_ancestor_named, head_from, head_position, is_framed,
    is_head, links_intact, name_texts, node_count, node_names, node_texts, not_named,
    parse_document, parsed_nodes, remove_attribute, remove_node, serialize, subtree_end,
    with_attrs, with_children_appended, without_subtree, DomNode,
};
use crate::dom_lemmas::{
    lemma_filter_agree, lemma_filter_all, lemma_filter_twice, lemma_head_from_found,
    lemma_some_head_is_found, lemma_subtree_end_bounds, lemma_subtree_end_shift,
};
use crate::text::{ends_with, fits, has_suffix, is_within_limit, opt_view, str_eq};
use vstd::prelude::*;

verus! {

/// Stylesheet that forces legible black-on-white text.
pub const CSS: &'static str = r#"
<style>
  * {
    color: black; 
    background-color: white;
    font-family: Poppins, Roboto, sans-serif;
    font-size: 20px;
  }
</style>
"#;

/// Element kinds that are always taken out, with all they contain.
pub open spec fn is_banned_name(name: Seq<char>) -> bool {
    name == "script"@ || name == "meta"@ || name == "audio"@ || name == "video"@ || name
        == "iframe"@ || name == "link"@ || name == "object"@ || name == "embed"@ || name
        == "applet"@ || name == "form"@
}

/// Whether a node is an element of a banned kind.
pub open spec fn is_banned(node: DomNode) -> bool {
    node.name is Some && is_banned_name(node.name->0)
}

/// Whether an attribute name begins with `on` in either case: the inline
/// event handlers.
pub open spec fn starts_with_on(name: Seq<char>) -> bool {
    name.len() >= 2 && (name[0] == 'o' || name[0] == 'O') && (name[1] == 'n' || name[1] == 'N')
}

/// Whether an attribute of this name is taken out.
pub open spec fn is_dropped_attr(name: Seq<char>, strip_css: bool) -> bool {
    starts_with_on(name) || (strip_css && (name == "style"@ || name == "class"@))
}

/// The nodes from index `i` on that survive the removal of banned elements:
/// a banned element goes with its whole subtree, any other node stays.
pub open spec fn pruned_from(nodes: Seq<DomNode>, i: int) -> Seq<DomNode>
    decreases nodes.len() - i,
{
    if i < 0 || i >= nodes.len() {
        Seq::empty()
    } else if is_banned(nodes[i]) {
        let end = subtree_end(nodes, i);
        if i < end <= nodes.len() {
            pruned_from(nodes, end)
        } else {
            Seq::empty()
        }
    } else {
        seq![nodes[i]] + pruned_from(nodes, i + 1)
    }
}

/// The document without its banned elements.
pub open spec fn pruned(nodes: Seq<DomNode>) -> Seq<DomNode> {
    pruned_from(nodes, 0)
}

/// The attributes that stay on an element.
pub open spec fn kept_attrs(attrs: Seq<(Seq<char>, Seq<char>)>, strip_css: bool) -> Seq<
    (Seq<char>, Seq<char>),
> {
    attrs.filter(is_kept(strip_css))
}

/// The test that an attribute stays.
pub open spec fn is_kept(strip_css: bool) -> spec_fn((Seq<char>, Seq<char>)) -> bool {
    |a: (Seq<char>, Seq<char>)| !is_dropped_attr(a.0, strip_css)
}

/// Every node with only the attributes that stay.
pub open spec fn stripped(nodes: Seq<DomNode>, strip_css: bool) -> Seq<DomNode> {
    Seq::new(
        nodes.len(),
        |k: int| DomNode { attrs: kept_attrs(nodes[k].attrs, strip_css), ..nodes[k] },
    )
}

/// No attribute of the node is one that is to be dropped.
pub open spec fn has_clean_attrs(node: DomNode, strip_css: bool) -> bool {
    forall|t: int|
        0 <= t < node.attrs.len() ==> !is_dropped_attr((#[trigger] node.attrs[t]).0, strip_css)
}

/// No banned element is left, and no element carries an attribute that is to
/// be dropped.
pub open spec fn is_clean(nodes: Seq<DomNode>, strip_css: bool) -> bool {
    forall|k: int|
        0 <= k < nodes.len() ==> !is_banned(#[trigger] nodes[k]) && has_clean_attrs(
            nodes[k],
            strip_css,
        )
}

/// Whether two nodes have the same name, the same attribute names and the
/// same text.
pub open spec fn same_shape(a: DomNode, b: DomNode) -> bool {
    a.name == b.name && attr_names(a.attrs) == attr_names(b.attrs) && a.text == b.text
}

/// Whether the stylesheet can be added: it is within the engine's limit, and
/// what it parses to would itself pass the sanitizer.
pub open spec fn stylesheet_is_usable() -> bool {
    fits(CSS@) && is_clean(fragment_nodes(CSS@), true)
}

/// Whether the head at `h` already ends with the stylesheet: its last nodes
/// are, one for one, like the stylesheet's nodes in name, attribute names and
/// text.
pub open spec fn ends_with_stylesheet(nodes: Seq<DomNode>, h: int) -> bool {
    let added = fragment_nodes(CSS@);
    let end = subtree_end(nodes, h);
    &&& h + added.len() < end
    &&& end <= nodes.len()
    &&& has_shapes_at(nodes, end - added.len(), added)
}

/// Whether a text closes as another does: both are none, or the first ends
/// with the second.
pub open spec fn text_closes(text: Option<Seq<char>>, tail: Option<Seq<char>>) -> bool {
    match text {
        Some(held) => tail is Some && ends_with(held, tail->0),
        None => tail is None,
    }
}

/// Whether a node is like a node of the stylesheet. The first node of the
/// stylesheet, where it is text, may follow other text in the same node: a
/// parser joins text to the text before it.
pub open spec fn is_like(node: DomNode, model: DomNode, opening: bool) -> bool {
    node.name == model.name && attr_names(node.attrs) == attr_names(model.attrs) && if opening {
        text_closes(node.text, model.text)
    } else {
        node.text == model.text
    }
}

/// Whether the nodes from `first` on are, one for one, like the nodes of
/// `added`.
pub open spec fn has_shapes_at(nodes: Seq<DomNode>, first: int, added: Seq<DomNode>) -> bool {
    forall|k: int| 0 <= k < added.len() ==> is_like(nodes[first + k], #[trigger] added[k], k == 0)
}

/// The document with the fallback stylesheet at the end of its head. A head
/// that ends with the stylesheet already is left as it is, and so is a
/// document without a head.
pub open spec fn styled(nodes: Seq<DomNode>) -> Seq<DomNode> {
    match head_position(nodes) {
        Some(h) => if stylesheet_is_usable() && !ends_with_stylesheet(nodes, h) {
            with_children_appended(nodes, h, fragment_nodes(CSS@))
        } else {
            nodes
        },
        None => nodes,
    }
}

/// Banned elements removed, then the attributes stripped.
pub open spec fn cleaned(nodes: Seq<DomNode>, strip_css: bool) -> Seq<DomNode> {
    stripped(pruned(nodes), strip_css)
}

/// What sanitizing makes of a document: it is cleaned, and with `strip_css`
/// the stylesheet is then added, unless it is there.
pub open spec fn sanitized(nodes: Seq<DomNode>, strip_css: bool) -> Seq<DomNode> {
    if strip_css {
        styled(cleaned(nodes, true))
    } else {
        cleaned(nodes, false)
    }
}

/// `output` is the serialisation of the sanitized parse of `input`, and the
/// parse has the frame of a document.
pub open spec fn is_sanitized_html(input: Seq<char>, strip_css: bool, output: Seq<char>) -> bool {
    is_framed(parsed_nodes(input)) && exists|doc: nipper::Document|
        #[trigger] document_nodes(doc) == sanitized(parsed_nodes(input), strip_css)
            && document_html(doc) == output
}

/// What `safe` answers for a text: the sanitized text, and nothing at all for
/// a text beyond the engine's limit, which is not parsed.
pub open spec fn is_safe_html(input: Seq<char>, strip_css: bool, output: Seq<char>) -> bool {
    if fits(input) {
        is_sanitized_html(input, strip_css, output)
    } else {
        output.len() == 0
    }
}

/// A piece of untrusted HTML and how strictly to treat its styling.
pub struct Html {
    body: String,
    strip_css: bool,
}

impl Html {
    /// The text to be sanitized.
    pub closed spec fn body(&self) -> Seq<char> {
        self.body@
    }

    /// Whether author styling is removed and the fallback stylesheet added.
    pub closed spec fn strip_css(&self) -> bool {
        self.strip_css
    }

    /// Takes the text as it is; nothing is parsed before `safe` is called.
    pub fn new(body: &str, strip_css: bool) -> (html: Self)
        ensures
            html.body() == body@,
            html.strip_css() == strip_css,
    {
        Self { body: body.to_owned(), strip_css }
    }

    /// Parses the text, sanitizes the document and writes it out again. A
    /// text too long for the engine is not looked into: the answer is empty.
    pub fn safe(&self) -> (output: String)
        ensures
            is_safe_html(self.body(), self.strip_css(), output@),
    {
        if !is_within_limit(self.body.as_str()) {
            return String::new();
        }
        let mut document = parse_document(self.body.as_str());
        sanitize_document(&mut document, self.strip_css);
        let output = serialize(&document);
        assert(document_nodes(document) == sanitized(parsed_nodes(self.body()), self.strip_css()));
        output
    }

    /// Tests for an inline event handler's name.
    pub fn starts_with_on(s: &str) -> (r: bool)
        ensures
            r == starts_with_on(s@),
    {
        if s.unicode_len() < 2 {
            return false;
        }
        let first = s.get_char(0);
        let second = s.get_char(1);
        (first == 'o' || first == 'O') && (second == 'n' || second == 'N')
    }
}

/// Tests for a banned element kind.
pub fn is_banned_element(name: &str) -> (r: bool)
    ensures
        r == is_banned_name(name@),
{
    str_eq(name, "script") || str_eq(name, "meta") || str_eq(name, "audio") || str_eq(
        name,
        "video",
    ) || str_eq(name, "iframe") || str_eq(name, "link") || str_eq(name, "object") || str_eq(
        name,
        "embed",
    ) || str_eq(name, "applet") || str_eq(name, "form")
}

/// Tests whether an attribute of this name is taken out.
pub fn is_dropped_attribute(name: &str, strip_css: bool) -> (r: bool)
    ensures
        r == is_dropped_attr(name@, strip_css),
{
    Html::starts_with_on(name) || (strip_css && (str_eq(name, "style") || str_eq(name, "class")))
}

/// Sanitizes a parsed document in place. The document must have its links
/// in order, as it has from the parser; where the stylesheet is added they
/// are not in order afterwards.
pub fn sanitize_document(document: &mut nipper::Document, strip_css: bool)
    requires
        links_intact(*old(document)),
    ensures
        document_nodes(*final(document)) == sanitized(document_nodes(*old(document)), strip_css),
        !strip_css ==> links_intact(*final(document)),
{
    remove_banned_elements(document);
    strip_attributes(document, strip_css);
    if strip_css {
        add_stylesheet(document);
    }
}

/// Whether two optional texts are the same.
pub fn same_opt(a: &Option<String>, b: &Option<String>) -> (r: bool)
    ensures
        r == (opt_view(*a) == opt_view(*b)),
{
    match a {
        Some(x) => match b {
            Some(y) => str_eq(x.as_str(), y.as_str()),
            None => false,
        },
        None => b.is_none(),
    }
}

/// Whether a text closes as another does.
pub fn closes_with(text: &Option<String>, tail: &Option<String>) -> (r: bool)
    ensures
        r == text_closes(opt_view(*text), opt_view(*tail)),
{
    match text {
        Some(held) => match tail {
            Some(end) => has_suffix(held.as_str(), end.as_str()),
            None => false,
        },
        None => tail.is_none(),
    }
}

/// Whether two lists of names hold the same names in the same order.
pub fn same_names(a: &Vec<String>, b: &Vec<String>) -> (r: bool)
    ensures
        r == (name_texts(*a) == name_texts(*b)),
{
    if a.len() != b.len() {
        assert(name_texts(*a).len() != name_texts(*b).len());
        return false;
    }
    let mut i: usize = 0;
    while i < a.len()
        invariant
            i <= a.len(),
            a.len() == b.len(),
            forall|k: int| 0 <= k < i ==> (#[trigger] a@[k])@ == b@[k]@,
        decreases a.len() - i,
    {
        if !str_eq(a[i].as_str(), b[i].as_str()) {
            assert(name_texts(*a)[i as int] != name_texts(*b)[i as int]);
            return false;
        }
        i += 1;
    }
    assert(name_texts(*a) =~= name_texts(*b));
    true
}

/// Tests whether node `i` lies below an element called `html`.
pub fn is_below_html(document: &nipper::Document, names: &Vec<Option<String>>, i: usize) -> (r:
    bool)
    requires
        i < document_nodes(*document).len(),
        names@.len() == document_nodes(*document).len(),
        forall|k: int|
            0 <= k < names@.len() ==> opt_view(#[trigger] names@[k]) == document_nodes(
                *document,
            )[k].name,
    ensures
        r == has_ancestor_named(document_nodes(*document), i as int, "html"@),
{
    let ghost nodes = document_nodes(*document);
    let mut j: usize = 0;
    while j < i
        invariant
            j <= i,
            i < nodes.len(),
            nodes == document_nodes(*document),
            names@.len() == nodes.len(),
            forall|k: int| 0 <= k < names@.len() ==> opt_view(#[trigger] names@[k]) == nodes[k].name,
            forall|k: int|
                0 <= k < j ==> !((#[trigger] nodes[k]).name == Some("html"@) && i < subtree_end(
                    nodes,
                    k,
                )),
        decreases i - j,
    {
        let named = match &names[j] {
            Some(name) => str_eq(name.as_str(), "html"),
            None => false,
        };
        if named {
            proof {
                lemma_subtree_end_bounds(nodes, j as int);
            }
            let below = descendant_count(document, j);
            if i - j <= below {
                return true;
            }
        }
        j += 1;
    }
    false
}

/// Finds the head: the first element called `head` below an element called
/// `html`.
pub fn find_head(document: &nipper::Document, names: &Vec<Option<String>>) -> (head: Option<usize>)
    requires
        names@.len() == document_nodes(*document).len(),
        forall|k: int|
            0 <= k < names@.len() ==> opt_view(#[trigger] names@[k]) == document_nodes(
                *document,
            )[k].name,
    ensures
        head is Some <==> head_position(document_nodes(*document)) is Some,
        head is Some ==> head->0 == head_position(document_nodes(*document))->0,
{
    let ghost nodes = document_nodes(*document);
    let mut i: usize = 0;
    while i < names.len()
        invariant
            i <= names.len(),
            nodes == document_nodes(*document),
            names@.len() == nodes.len(),
            forall|k: int| 0 <= k < names@.len() ==> opt_view(#[trigger] names@[k]) == nodes[k].name,
            head_from(nodes, 0) == head_from(nodes, i as int),
        decreases names.len() - i,
    {
        let named = match &names[i] {
            Some(name) => str_eq(name.as_str(), "head"),
            None => false,
        };
        if named && is_below_html(document, names, i) {
            return Some(i);
        }
        i += 1;
    }
    None
}

/// The stylesheet as it parses: name, attribute names and text of each of
/// its nodes.
pub struct Stylesheet {
    pub names: Vec<Option<String>>,
    pub attrs: Vec<Vec<String>>,
    pub texts: Vec<Option<String>>,
}

impl Stylesheet {
    /// Whether the three lists describe these nodes, one for one.
    pub open spec fn describes(&self, nodes: Seq<DomNode>) -> bool {
        &&& self.names@.len() == nodes.len()
        &&& self.attrs@.len() == nodes.len()
        &&& self.texts@.len() == nodes.len()
        &&& forall|k: int|
            0 <= k < nodes.len() ==> opt_view(#[trigger] self.names@[k]) == nodes[k].name
        &&& forall|k: int|
            0 <= k < nodes.len() ==> name_texts(#[trigger] self.attrs@[k]) == attr_names(
                nodes[k].attrs,
            )
        &&& forall|k: int|
            0 <= k < nodes.len() ==> opt_view(#[trigger] self.texts@[k]) == nodes[k].text
    }
}

/// Tests whether a described node would pass the sanitizer with presentation
/// stripped.
pub fn is_clean_node(name: &Option<String>, attrs: &Vec<String>) -> (r: bool)
    ensures
        r == ((name is Some ==> !is_banned_name(name->0@)) && forall|t: int|
            0 <= t < attrs@.len() ==> !is_dropped_attr((#[trigger] attrs@[t])@, true)),
{
    let banned = match name {
        Some(text) => is_banned_element(text.as_str()),
        None => false,
    };
    if banned {
        return false;
    }
    let mut t: usize = 0;
    while t < attrs.len()
        invariant
            t <= attrs.len(),
            forall|k: int| 0 <= k < t ==> !is_dropped_attr((#[trigger] attrs@[k])@, true),
        decreases attrs.len() - t,
    {
        if is_dropped_attribute(attrs[t].as_str(), true) {
            return false;
        }
        t += 1;
    }
    true
}

/// Parses the stylesheet, in a document of its own, and reads off what it
/// parses to. The answer is none where the stylesheet cannot be used.
pub fn read_stylesheet() -> (sheet: Option<Stylesheet>)
    ensures
        sheet is Some <==> stylesheet_is_usable(),
        sheet is Some ==> sheet->0.describes(fragment_nodes(CSS@)),
{
    proof {
        reveal_strlit("");
        assert(vstd::utf8::encode_utf8(""@) =~= Seq::<u8>::empty());
    }
    if !is_within_limit(CSS) {
        return None;
    }
    let mut scratch = parse_document("");
    let ghost before = document_nodes(scratch);
    let ghost added = fragment_nodes(CSS@);
    let names_before = node_names(&scratch);
    proof {
        let (a, h) = choose|a: int, h: int| crate::dom::is_frame(before, a, h);
        assert(is_head(before, h));
        lemma_some_head_is_found(before, 0, h);
        lemma_head_from_found(before, 0);
    }
    let head = match find_head(&scratch, &names_before) {
        Some(head) => head,
        None => {
            return None;
        },
    };
    proof {
        lemma_subtree_end_bounds(before, head as int);
    }
    let count_before = names_before.len();
    let below = descendant_count(&scratch, head);
    assert(head + 1 + below <= count_before);
    let start = head + 1 + below;
    append_children(&mut scratch, head, CSS);
    let names = node_names(&scratch);
    let attrs = attribute_names(&scratch);
    let texts = node_texts(&scratch);
    let ghost after = document_nodes(scratch);
    proof {
        assert(after =~= before.subrange(0, start as int) + crate::dom::deepened(
            added,
            before[head as int].depth + 1,
        ) + before.skip(start as int));
        assert(after.len() == before.len() + added.len());
    }
    let total = names.len();
    let count = total - count_before;
    let mut sheet = Stylesheet { names: Vec::new(), attrs: Vec::new(), texts: Vec::new() };
    let mut clean = true;
    let mut k: usize = 0;
    while k < count
        invariant
            k <= count,
            count == added.len(),
            start + count <= total,
            total == after.len(),
            names@.len() == after.len(),
            attrs@.len() == after.len(),
            texts@.len() == after.len(),
            forall|j: int| 0 <= j < after.len() ==> opt_view(#[trigger] names@[j]) == after[j].name,
            forall|j: int|
                0 <= j < after.len() ==> name_texts(#[trigger] attrs@[j]) == attr_names(
                    after[j].attrs,
                ),
            forall|j: int| 0 <= j < after.len() ==> opt_view(#[trigger] texts@[j]) == after[j].text,
            forall|j: int|
                0 <= j < added.len() ==> same_shape(after[start + j], #[trigger] added[j]),
            sheet.describes(added.subrange(0, k as int)),
            clean == is_clean(added.subrange(0, k as int), true),
        decreases count - k,
    {
        let ghost seen = added.subrange(0, k as int);
        let ghost next = added.subrange(0, k + 1);
        let name = crate::message::clone_opt(&names[start + k]);
        let text = crate::message::clone_opt(&texts[start + k]);
        let list = &attrs[start + k];
        let mut own: Vec<String> = Vec::new();
        let mut t: usize = 0;
        while t < list.len()
            invariant
                t <= list@.len(),
                own@.len() == t,
                forall|j: int| 0 <= j < t ==> (#[trigger] own@[j])@ == list@[j]@,
            decreases list@.len() - t,
        {
            own.push(list[t].clone());
            t += 1;
        }
        proof {
            assert(name_texts(own) =~= name_texts(attrs@[start + k]));
            assert(same_shape(after[start + k], added[k as int]));
        }
        let fine = is_clean_node(&name, &own);
        proof {
            let node = added[k as int];
            assert(name_texts(own) == attr_names(node.attrs));
            assert forall|j: int| 0 <= j < node.attrs.len() implies (#[trigger] own@[j])@
                == node.attrs[j].0 by {
                assert(name_texts(own)[j] == attr_names(node.attrs)[j]);
            }
            assert(fine == (!is_banned(node) && has_clean_attrs(node, true))) by {
                if fine {
                    assert forall|j: int| 0 <= j < node.attrs.len() implies !is_dropped_attr(
                        (#[trigger] node.attrs[j]).0,
                        true,
                    ) by {
                        assert(!is_dropped_attr(own@[j]@, true));
                    }
                } else if !is_banned(node) {
                    let j = choose|j: int|
                        0 <= j < own@.len() && is_dropped_attr((#[trigger] own@[j])@, true);
                    assert(is_dropped_attr(node.attrs[j].0, true));
                }
            }
            assert(next.drop_last() =~= seen);
            assert(next.last() == node);
            assert(is_clean(next, true) == (is_clean(seen, true) && fine)) by {
                if is_clean(seen, true) && fine {
                    assert forall|j: int| 0 <= j < next.len() implies !is_banned(
                        #[trigger] next[j],
                    ) && has_clean_attrs(next[j], true) by {
                        if j < k {
                            assert(next[j] == seen[j]);
                        }
                    }
                } else if is_clean(next, true) {
                    assert(!is_banned(next[k as int]) && has_clean_attrs(next[k as int], true));
                    assert forall|j: int| 0 <= j < seen.len() implies !is_banned(
                        #[trigger] seen[j],
                    ) && has_clean_attrs(seen[j], true) by {
                        assert(seen[j] == next[j]);
                    }
                }
            }
        }
        clean = clean && fine;
        sheet.names.push(name);
        sheet.attrs.push(own);
        sheet.texts.push(text);
        proof {
            assert forall|j: int| 0 <= j < next.len() implies opt_view(
                #[trigger] sheet.names@[j],
            ) == next[j].name by {
                if j < k {
                    assert(seen[j] == next[j]);
                }
            }
            assert forall|j: int| 0 <= j < next.len() implies name_texts(
                #[trigger] sheet.attrs@[j],
            ) == attr_names(next[j].attrs) by {
                if j < k {
                    assert(seen[j] == next[j]);
                }
            }
            assert forall|j: int| 0 <= j < next.len() implies opt_view(
                #[trigger] sheet.texts@[j],
            ) == next[j].text by {
                if j < k {
                    assert(seen[j] == next[j]);
                }
            }
        }
        k += 1;
    }
    assert(added.subrange(0, added.len() as int) =~= added);
    if clean {
        Some(sheet)
    } else {
        None
    }
}

/// Tests whether the head at `head`, whose subtree ends before `end`,
/// already ends with the stylesheet.
pub fn head_ends_with(
    document: &nipper::Document,
    names: &Vec<Option<String>>,
    sheet: &Stylesheet,
    head: usize,
    end: usize,
) -> (r: bool)
    requires
        head < end <= document_nodes(*document).len(),
        end == subtree_end(document_nodes(*document), head as int),
        names@.len() == document_nodes(*document).len(),
        forall|k: int|
            0 <= k < names@.len() ==> opt_view(#[trigger] names@[k]) == document_nodes(
                *document,
            )[k].name,
        sheet.describes(fragment_nodes(CSS@)),
    ensures
        r == ends_with_stylesheet(document_nodes(*document), head as int),
{
    let ghost nodes = document_nodes(*document);
    let ghost added = fragment_nodes(CSS@);
    let count = sheet.names.len();
    if end - head <= count {
        return false;
    }
    let first = end - count;
    let attrs = attribute_names(document);
    let texts = node_texts(document);
    let mut k: usize = 0;
    while k < count
        invariant
            k <= count,
            count == added.len(),
            first + count == end,
            head + count < end,
            end <= nodes.len(),
            end == subtree_end(nodes, head as int),
            added == fragment_nodes(CSS@),
            nodes == document_nodes(*document),
            names@.len() == nodes.len(),
            attrs@.len() == nodes.len(),
            texts@.len() == nodes.len(),
            sheet.describes(added),
            forall|j: int| 0 <= j < nodes.len() ==> opt_view(#[trigger] names@[j]) == nodes[j].name,
            forall|j: int|
                0 <= j < nodes.len() ==> name_texts(#[trigger] attrs@[j]) == attr_names(
                    nodes[j].attrs,
                ),
            forall|j: int| 0 <= j < nodes.len() ==> opt_view(#[trigger] texts@[j]) == nodes[j].text,
            has_shapes_at(nodes, first as int, added.subrange(0, k as int)),
        decreases count - k,
    {
        let texts_agree = if k == 0 {
            closes_with(&texts[first + k], &sheet.texts[k])
        } else {
            same_opt(&texts[first + k], &sheet.texts[k])
        };
        let same = same_opt(&names[first + k], &sheet.names[k]) && same_names(
            &attrs[first + k],
            &sheet.attrs[k],
        ) && texts_agree;
        if !same {
            assert(!is_like(nodes[first + k], added[k as int], k == 0));
            assert(!has_shapes_at(nodes, first as int, added));
            return false;
        }
        proof {
            let seen = added.subrange(0, k as int);
            let next = added.subrange(0, k + 1);
            assert forall|j: int| 0 <= j < next.len() implies is_like(
                nodes[first + j],
                #[trigger] next[j],
                j == 0,
            ) by {
                if j < k {
                    assert(is_like(nodes[first + j], seen[j], j == 0));
                }
            }
        }
        k += 1;
    }
    assert(added.subrange(0, added.len() as int) =~= added);
    assert(has_shapes_at(nodes, first as int, added));
    true
}

/// Adds the stylesheet at the end of the head, unless the head ends with it
/// already. A document without a head stays as it is.
pub fn add_stylesheet(document: &mut nipper::Document)
    requires
        links_intact(*old(document)),
    ensures
        document_nodes(*final(document)) == styled(document_nodes(*old(document))),
{
    let ghost nodes = document_nodes(*document);
    let names = node_names(document);
    let head = match find_head(document, &names) {
        Some(head) => head,
        None => {
            return ;
        },
    };
    let sheet = match read_stylesheet() {
        Some(sheet) => sheet,
        None => {
            return ;
        },
    };
    proof {
        lemma_head_from_found(nodes, 0);
        lemma_subtree_end_bounds(nodes, head as int);
    }
    let total = names.len();
    let below = descendant_count(document, head);
    assert(head + 1 + below <= total);
    let end = head + 1 + below;
    if !head_ends_with(document, &names, &sheet, head, end) {
        append_children(document, head, CSS);
    }
}

/// Takes every banned element out of the document, with its subtree.
pub fn remove_banned_elements(document: &mut nipper::Document)
    requires
        links_intact(*old(document)),
    ensures
        document_nodes(*final(document)) == pruned(document_nodes(*old(document))),
        links_intact(*final(document)),
{
    let ghost orig = document_nodes(*document);
    let names = node_names(document);
    let total = names.len();
    let mut k: usize = 0;
    let mut i: usize = 0;
    let mut n = node_count(document);
    while i < n
        invariant
            links_intact(*document),
            total == orig.len(),
            names@.len() == orig.len(),
            forall|j: int| 0 <= j < names@.len() ==> opt_view(#[trigger] names@[j]) == orig[j].name,
            names@.len() > 0 ==> names@[0] is None,
            n == document_nodes(*document).len(),
            0 <= i <= n,
            0 <= k <= orig.len(),
            n - i == orig.len() - k,
            k > 0 ==> i > 0,
            document_nodes(*document).skip(i as int) == orig.skip(k as int),
            pruned(orig) == document_nodes(*document).subrange(0, i as int) + pruned_from(
                orig,
                k as int,
            ),
        decreases n - i,
    {
        let ghost cur = document_nodes(*document);
        proof {
            assert(cur[i as int] == cur.skip(i as int)[0]);
            assert(orig[k as int] == orig.skip(k as int)[0]);
            lemma_subtree_end_bounds(cur, i as int);
            lemma_subtree_end_bounds(orig, k as int);
            lemma_subtree_end_shift(cur, i as int, orig, k as int);
        }
        let banned = match &names[k] {
            Some(name) => is_banned_element(name.as_str()),
            None => false,
        };
        if banned {
            assert(k > 0);
            remove_node(document, i);
            let left = node_count(document);
            proof {
                let now = document_nodes(*document);
                let end = subtree_end(cur, i as int);
                assert(now == without_subtree(cur, i as int));
                assert(now.subrange(0, i as int) =~= cur.subrange(0, i as int));
                assert(cur.skip(end) =~= cur.skip(i as int).skip(end - i));
                assert(orig.skip(k + (end - i)) =~= orig.skip(k as int).skip(end - i));
                assert(now.skip(i as int) =~= cur.skip(end));
                assert(n - left == end - i);
                assert(k + (end - i) == subtree_end(orig, k as int));
                assert(k + (n - left) <= total);
            }
            k = k + (n - left);
            n = left;
        } else {
            proof {
                assert(cur.subrange(0, i + 1) =~= cur.subrange(0, i as int) + seq![cur[i as int]]);
                assert(cur.skip(i + 1) =~= cur.skip(i as int).skip(1));
                assert(orig.skip(k + 1) =~= orig.skip(k as int).skip(1));
                assert(k < total);
            }
            k = k + 1;
            i += 1;
        }
    }
    proof {
        let now = document_nodes(*document);
        assert(now.subrange(0, i as int) =~= now);
        assert(now + Seq::<DomNode>::empty() =~= now);
    }
}

/// Takes the dropped attributes off every node. The links stay as they
/// were.
pub fn strip_attributes(document: &mut nipper::Document, strip_css: bool)
    ensures
        document_nodes(*final(document)) == stripped(document_nodes(*old(document)), strip_css),
        links_intact(*final(document)) == links_intact(*old(document)),
{
    let ghost orig = document_nodes(*document);
    let names = attribute_names(document);
    let n = names.len();
    let mut i: usize = 0;
    while i < n
        invariant
            n == orig.len(),
            n == names@.len(),
            links_intact(*document) == links_intact(*old(document)),
            forall|t: int|
                0 <= t < n ==> name_texts(#[trigger] names@[t]) == attr_names(orig[t].attrs),
            0 <= i <= n,
            document_nodes(*document).len() == n,
            forall|t: int|
                0 <= t < i ==> #[trigger] document_nodes(*document)[t] == stripped(
                    orig,
                    strip_css,
                )[t],
            forall|t: int| i <= t < n ==> #[trigger] document_nodes(*document)[t] == orig[t],
        decreases n - i,
    {
        let ghost before = document_nodes(*document);
        assert(before[i as int] == orig[i as int]);
        strip_node_attributes(document, i, &names[i], strip_css);
        i += 1;
    }
    assert(document_nodes(*document) =~= stripped(orig, strip_css));
}

/// Takes the dropped attributes off node `i`, whose attributes have the
/// given names.
pub fn strip_node_attributes(
    document: &mut nipper::Document,
    i: usize,
    names: &Vec<String>,
    strip_css: bool,
)
    requires
        i < document_nodes(*old(document)).len(),
        name_texts(*names) == attr_names(document_nodes(*old(document))[i as int].attrs),
    ensures
        document_nodes(*final(document)) == with_attrs(
            document_nodes(*old(document)),
            i as int,
            kept_attrs(document_nodes(*old(document))[i as int].attrs, strip_css),
        ),
        links_intact(*final(document)) == links_intact(*old(document)),
{
    let ghost orig = document_nodes(*document);
    let ghost attrs = orig[i as int].attrs;
    let mut j: usize = 0;
    proof {
        assert(name_texts(*names).len() == attr_names(attrs).len());
        assert forall|t: int| 0 <= t < names@.len() implies (#[trigger] names@[t])@
            == attrs[t].0 by {
            assert(name_texts(*names)[t] == attr_names(attrs)[t]);
        }
        let keep_all = not_dropped_among(strip_css, names@, 0);
        lemma_filter_all(attrs, keep_all);
        assert(orig =~= with_attrs(orig, i as int, attrs));
    }
    while j < names.len()
        invariant
            0 <= j <= names.len(),
            i < orig.len(),
            links_intact(*document) == links_intact(*old(document)),
            attrs == orig[i as int].attrs,
            names@.len() == attrs.len(),
            forall|t: int| 0 <= t < names@.len() ==> (#[trigger] names@[t])@ == attrs[t].0,
            document_nodes(*document) == with_attrs(
                orig,
                i as int,
                attrs.filter(not_dropped_among(strip_css, names@, j as int)),
            ),
        decreases names.len() - j,
    {
        let ghost before = not_dropped_among(strip_css, names@, j as int);
        let ghost after = not_dropped_among(strip_css, names@, j + 1);
        let ghost name = names@[j as int]@;
        if is_dropped_attribute(names[j].as_str(), strip_css) {
            remove_attribute(document, i, names[j].as_str());
            proof {
                let other = not_named(name);
                assert forall|t: int| 0 <= t < attrs.len() implies after(#[trigger] attrs[t]) == (
                before(attrs[t]) && other(attrs[t])) by {}
                lemma_filter_twice(attrs, before, other, after);
                assert(document_nodes(*document) =~= with_attrs(orig, i as int, attrs.filter(after)));
            }
        } else {
            proof {
                assert forall|t: int| 0 <= t < attrs.len() implies after(#[trigger] attrs[t])
                    == before(attrs[t]) by {}
                lemma_filter_agree(attrs, before, after);
            }
        }
        j += 1;
    }
    proof {
        let done = not_dropped_among(strip_css, names@, names@.len() as int);
        let keep = is_kept(strip_css);
        assert forall|t: int| 0 <= t < attrs.len() implies done(#[trigger] attrs[t]) == keep(
            attrs[t],
        ) by {
            assert(names@[t]@ == attrs[t].0);
        }
        lemma_filter_agree(attrs, done, keep);
    }
}

/// Whether `name` is to be dropped and is among the first `upto` of `names`.
pub open spec fn dropped_among(name: Seq<char>, strip_css: bool, names: Seq<String>, upto: int) -> bool {
    is_dropped_attr(name, strip_css) && exists|t: int| 0 <= t < upto && (#[trigger] names[t])@ == name
}

/// The test that an attribute is not dropped on account of the first `upto`
/// of `names`.
pub open spec fn not_dropped_among(strip_css: bool, names: Seq<String>, upto: int) -> spec_fn(
    (Seq<char>, Seq<char>),
) -> bool {
    |a: (Seq<char>, Seq<char>)| !dropped_among(a.0, strip_css, names, upto)
}

} // verus!
