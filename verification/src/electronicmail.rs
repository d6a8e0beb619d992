//! The policy that turns a decoded MIME message into the normalised message:
//! which part is a body, which an attachment, how headers become text, and
//! how inline images are folded into the HTML body.

use crate::attachment::{attachment_views, clone_attachments, Attachment, AttachmentView};
use crate::codec::{base64_encode, base64_input_limit, base64_standard};
use crate::dom::{
    attribute_value, document_html, document_nodes, first_value, node_names, parse_document,
    parsed_nodes, serialize, set_attribute, with_value, DomNode,
};
use crate::error::ParseError;
use crate::message::{clone_opt, empty_message, Message, MessageView};
use crate::mime::{formatted, Address, MimeDate, MimeMessage, MimePart};
use crate::text::{
    eq_ignore_ascii_case, fits, has_prefix, is_within_limit, join, joined, latin1,
    latin1_to_string, opt_view, same_ignoring_ascii_case, skip_chars, starts_with, str_eq,
    utf8_to_string, views,
};
use vstd::prelude::*;
use vstd::utf8::{decode_utf8, valid_utf8};

verus! {

/// What a leaf of the part tree is taken for.
#[derive(Clone, Copy, Debug, PartialEq, Eq, Structural)]
pub enum PartKind {
    /// Kept as an attachment: parts marked so, and inline parts that are
    /// neither HTML nor plain text.
    Attachment,
    /// A candidate for the HTML body.
    Html,
    /// A candidate for the plain-text body.
    Text,
    /// An inline part without a content type, which is passed over.
    Skipped,
}

/// How a part is classified.
pub open spec fn kind_of(part: MimePart) -> PartKind {
    if part.is_attachment {
        PartKind::Attachment
    } else {
        match part.content_type {
            None => PartKind::Skipped,
            Some(content_type) => if content_type.is_of_type("text"@, "html"@) {
                PartKind::Html
            } else if content_type.is_of_type("text"@, "plain"@) {
                PartKind::Text
            } else {
                PartKind::Attachment
            },
        }
    }
}

/// The content id of a part, `none` where it has none.
pub open spec fn content_id_of(part: MimePart) -> Seq<char> {
    match part.content_id {
        Some(id) => id@,
        None => "none"@,
    }
}

/// The attachment a part gives: none without a file name, a content type or
/// content.
pub open spec fn attachment_of(part: MimePart) -> Option<AttachmentView> {
    if part.filename is Some && part.content_type is Some && part.content is Some {
        Some(
            AttachmentView {
                filename: part.filename->0@,
                content_id: content_id_of(part),
                body: part.content->0@,
                mime_type: Some(part.content_type->0.full_name()),
            },
        )
    } else {
        None
    }
}

/// Whether a charset parameter names ISO-8859-1, in any case.
pub open spec fn is_latin1_charset(charset: Option<String>) -> bool {
    charset is Some && same_ignoring_ascii_case(charset->0@, "iso-8859-1"@)
}

/// The charset parameter of a part.
pub open spec fn charset_of(part: MimePart) -> Option<String> {
    match part.content_type {
        Some(content_type) => content_type.charset,
        None => None,
    }
}

/// The text of a body part: ISO-8859-1 is read byte by byte, anything else
/// as UTF-8, and what is not UTF-8 gives the empty text.
pub open spec fn content_text(part: MimePart) -> Seq<char> {
    match part.content {
        None => Seq::empty(),
        Some(bytes) => if is_latin1_charset(charset_of(part)) {
            latin1(bytes@)
        } else if valid_utf8(bytes@) {
            decode_utf8(bytes@)
        } else {
            Seq::empty()
        },
    }
}

/// The attachments among the first `n` parts, in the order of the parts.
pub open spec fn attachments_upto(parts: Seq<MimePart>, n: int) -> Seq<AttachmentView>
    decreases n,
{
    if n <= 0 {
        Seq::empty()
    } else {
        let before = attachments_upto(parts, n - 1);
        let part = parts[n - 1];
        if kind_of(part) is Attachment && attachment_of(part) is Some {
            before.push(attachment_of(part)->0)
        } else {
            before
        }
    }
}

/// The text of the first part of the given kind among the first `n` parts.
pub open spec fn first_body_upto(parts: Seq<MimePart>, kind: PartKind, n: int) -> Option<Seq<char>>
    decreases n,
{
    if n <= 0 {
        None
    } else {
        match first_body_upto(parts, kind, n - 1) {
            Some(text) => Some(text),
            None => if kind_of(parts[n - 1]) == kind {
                Some(content_text(parts[n - 1]))
            } else {
                None
            },
        }
    }
}

/// The attachments of a message.
pub open spec fn attachments_of(parts: Seq<MimePart>) -> Seq<AttachmentView> {
    attachments_upto(parts, parts.len() as int)
}

/// The HTML body as the message holds it, before images are folded in: the
/// first HTML part wins.
pub open spec fn raw_html_of(parts: Seq<MimePart>) -> Option<Seq<char>> {
    first_body_upto(parts, PartKind::Html, parts.len() as int)
}

/// The plain-text body: the first plain-text part wins.
pub open spec fn text_of(parts: Seq<MimePart>) -> Option<Seq<char>> {
    first_body_upto(parts, PartKind::Text, parts.len() as int)
}

/// The renderings of the addresses that have one, in order.
pub open spec fn address_texts(list: Seq<Address>) -> Seq<Seq<char>>
    decreases list.len(),
{
    if list.len() == 0 {
        Seq::empty()
    } else {
        let before = address_texts(list.drop_last());
        match list.last().text {
            Some(text) => before.push(text@),
            None => before,
        }
    }
}

/// What each address of a list renders to, in order.
pub open spec fn address_views(list: Seq<Address>) -> Seq<Option<Seq<char>>> {
    Seq::new(list.len(), |i: int| opt_view(list[i].text))
}

/// An address list as one line: the renderings joined with a comma and a
/// space.
pub open spec fn address_line(list: Seq<Address>) -> Seq<char> {
    joined(address_texts(list), ", "@)
}

/// The addresses of an optional header.
pub open spec fn list_of(list: Option<Vec<Address>>) -> Seq<Address> {
    match list {
        Some(addresses) => addresses@,
        None => Seq::empty(),
    }
}

/// All recipients: To, then Cc, then Bcc.
pub open spec fn recipients(message: MimeMessage) -> Seq<Address> {
    list_of(message.to) + list_of(message.cc) + list_of(message.bcc)
}

/// The date field: the formatted date, the decoder's complaint where the
/// header is no date, and the empty text where there is no header.
pub open spec fn date_text(date: MimeDate) -> Seq<char> {
    match date {
        MimeDate::Missing => Seq::empty(),
        MimeDate::Parsed(date_time) => formatted(date_time@),
        MimeDate::Invalid(complaint) => complaint@,
    }
}

/// First index at or after `i` of an attachment with this content id.
pub open spec fn find_from(attachments: Seq<AttachmentView>, cid: Seq<char>, i: int) -> Option<int>
    decreases attachments.len() - i,
{
    if i < 0 || i >= attachments.len() {
        None
    } else if attachments[i].content_id == cid {
        Some(i)
    } else {
        find_from(attachments, cid, i + 1)
    }
}

/// The `data:` address that carries `body` as base64.
pub open spec fn data_uri(mime_type: Seq<char>, body: Seq<u8>) -> Seq<char> {
    "data:"@ + mime_type + ";base64,"@ + base64_standard(body)
}

/// What a `cid:` reference resolves to: the data of the first attachment
/// with that content id, if it has a known type, can be encoded, and gives
/// an address that the HTML engine can hold.
pub open spec fn resolved_source(src: Seq<char>, attachments: Seq<AttachmentView>) -> Option<
    Seq<char>,
> {
    if starts_with(src, "cid:"@) {
        match find_from(attachments, src.skip(4), 0) {
            Some(i) => match attachments[i].mime_type {
                Some(mime_type) => if attachments[i].body.len() <= base64_input_limit() && fits(
                    data_uri(mime_type, attachments[i].body),
                ) {
                    Some(data_uri(mime_type, attachments[i].body))
                } else {
                    None
                },
                None => None,
            },
            None => None,
        }
    } else {
        None
    }
}

/// The attributes of an image after its `cid:` reference, if it has one that
/// resolves, is replaced by the data itself.
pub open spec fn inlined_attrs(
    attrs: Seq<(Seq<char>, Seq<char>)>,
    attachments: Seq<AttachmentView>,
) -> Seq<(Seq<char>, Seq<char>)> {
    match first_value(attrs, "src"@) {
        Some(src) => match resolved_source(src, attachments) {
            Some(uri) => with_value(attrs, "src"@, uri),
            None => attrs,
        },
        None => attrs,
    }
}

/// A node after inlining: only `img` elements change.
pub open spec fn inlined_node(node: DomNode, attachments: Seq<AttachmentView>) -> DomNode {
    if node.name == Some("img"@) {
        DomNode { attrs: inlined_attrs(node.attrs, attachments), ..node }
    } else {
        node
    }
}

/// A document with every resolvable `cid:` image reference replaced.
pub open spec fn inlined(nodes: Seq<DomNode>, attachments: Seq<AttachmentView>) -> Seq<DomNode> {
    Seq::new(nodes.len(), |k: int| inlined_node(nodes[k], attachments))
}

/// `output` is the serialisation of the parse of `input` with the images
/// folded in.
pub open spec fn is_inlined_html(
    input: Seq<char>,
    attachments: Seq<AttachmentView>,
    output: Seq<char>,
) -> bool {
    exists|doc: nipper::Document|
        #[trigger] document_nodes(doc) == inlined(parsed_nodes(input), attachments)
            && document_html(doc) == output
}

/// What `integrate_cid` answers for a body: the body with the images folded
/// in, and the body itself where it is beyond the engine's limit and is not
/// parsed.
pub open spec fn is_integrated(
    input: Seq<char>,
    attachments: Seq<AttachmentView>,
    output: Seq<char>,
) -> bool {
    if fits(input) {
        is_inlined_html(input, attachments, output)
    } else {
        output == input
    }
}

/// The fields of a normalised message.
pub struct MailFields {
    pub from: String,
    pub to: String,
    pub subject: String,
    pub date: String,
    pub body_text: Option<String>,
    pub body_html: Option<String>,
    pub attachments: Vec<Attachment>,
}

/// The sender line of a message: empty without a From header.
pub open spec fn from_line(message: MimeMessage) -> Seq<char> {
    match message.from {
        Some(list) => address_line(list@),
        None => Seq::empty(),
    }
}

/// The subject of a message: empty without a Subject header.
pub open spec fn subject_text(message: MimeMessage) -> Seq<char> {
    match message.subject {
        Some(subject) => subject@,
        None => Seq::empty(),
    }
}

/// Whether `fields` is what the message normalises to.
pub open spec fn is_normal_form(message: MimeMessage, fields: MailFields) -> bool {
    &&& fields.from@ == from_line(message)
    &&& fields.to@ == address_line(recipients(message))
    &&& fields.subject@ == subject_text(message)
    &&& fields.date@ == date_text(message.date)
    &&& opt_view(fields.body_text) == text_of(message.parts@)
    &&& attachment_views(fields.attachments@) == attachments_of(message.parts@)
    &&& match raw_html_of(message.parts@) {
        None => fields.body_html is None,
        Some(raw) => fields.body_html is Some && is_integrated(
            raw,
            attachments_of(message.parts@),
            fields.body_html->0@,
        ),
    }
}

/// What walking the parts gives: both bodies as found, and the attachments.
pub struct Bodies {
    pub html: Option<String>,
    pub text: Option<String>,
    pub attachments: Vec<Attachment>,
}

/// Classifies a leaf of the part tree.
pub fn classify(part: &MimePart) -> (kind: PartKind)
    ensures
        kind == kind_of(*part),
{
    if part.is_attachment {
        PartKind::Attachment
    } else {
        match &part.content_type {
            None => PartKind::Skipped,
            Some(content_type) => {
                if content_type.is_type("text", "html") {
                    PartKind::Html
                } else if content_type.is_type("text", "plain") {
                    PartKind::Text
                } else {
                    PartKind::Attachment
                }
            },
        }
    }
}

/// Tests a charset parameter for ISO-8859-1.
pub fn is_latin1(charset: &Option<String>) -> (r: bool)
    ensures
        r == is_latin1_charset(*charset),
{
    match charset {
        Some(name) => eq_ignore_ascii_case(name.as_str(), "iso-8859-1"),
        None => false,
    }
}

/// Reads the text of a body part in its charset.
pub fn get_content(part: &MimePart) -> (text: String)
    ensures
        text@ == content_text(*part),
{
    let latin = match &part.content_type {
        Some(content_type) => is_latin1(&content_type.charset),
        None => false,
    };
    match &part.content {
        Some(bytes) => {
            if latin {
                latin1_to_string(bytes.as_slice())
            } else {
                match utf8_to_string(bytes.clone()) {
                    Some(body) => body,
                    None => String::new(),
                }
            }
        },
        None => String::new(),
    }
}

/// Makes an attachment of a part, if it has a file name, a content type and
/// content.
pub fn get_attachment(part: &MimePart) -> (attachment: Option<Attachment>)
    ensures
        attachment is Some <==> attachment_of(*part) is Some,
        attachment is Some ==> attachment->0@ == attachment_of(*part)->0,
{
    let content_id = match &part.content_id {
        Some(id) => id.clone(),
        None => "none".to_owned(),
    };
    match &part.filename {
        Some(file) => match &part.content_type {
            Some(content_type) => match &part.content {
                Some(content) => Some(
                    Attachment {
                        filename: file.clone(),
                        content_id,
                        body: content.clone(),
                        mime_type: Some(content_type.mime_type()),
                    },
                ),
                None => None,
            },
            None => None,
        },
        None => None,
    }
}

/// Walks the leaves in order: the first HTML part and the first plain-text
/// part become the bodies, attachments are collected in the order met, and a
/// part that cannot become an attachment is passed over.
pub fn parse_body(parts: &Vec<MimePart>) -> (bodies: Bodies)
    ensures
        opt_view(bodies.html) == raw_html_of(parts@),
        opt_view(bodies.text) == text_of(parts@),
        attachment_views(bodies.attachments@) == attachments_of(parts@),
{
    let mut html: Option<String> = None;
    let mut text: Option<String> = None;
    let mut attachments: Vec<Attachment> = Vec::new();
    let mut i: usize = 0;
    while i < parts.len()
        invariant
            i <= parts.len(),
            opt_view(html) == first_body_upto(parts@, PartKind::Html, i as int),
            opt_view(text) == first_body_upto(parts@, PartKind::Text, i as int),
            attachment_views(attachments@) == attachments_upto(parts@, i as int),
        decreases parts.len() - i,
    {
        let part = &parts[i];
        let ghost before = attachment_views(attachments@);
        match classify(part) {
            PartKind::Attachment => {
                match get_attachment(part) {
                    Some(attachment) => {
                        attachments.push(attachment);
                        assert(attachment_views(attachments@) =~= before.push(
                            attachment_of(*part)->0,
                        ));
                    },
                    None => {},
                }
            },
            PartKind::Html => {
                if html.is_none() {
                    html = Some(get_content(part));
                }
            },
            PartKind::Text => {
                if text.is_none() {
                    text = Some(get_content(part));
                }
            },
            PartKind::Skipped => {},
        }
        i += 1;
    }
    Bodies { html, text, attachments }
}

/// A copy of an address.
pub fn clone_address(address: &Address) -> (copy: Address)
    ensures
        opt_view(copy.text) == opt_view(address.text),
{
    match &address.text {
        Some(text) => Address { text: Some(text.clone()) },
        None => Address { text: None },
    }
}

fn extend_addresses(list: &mut Vec<Address>, more: &Option<Vec<Address>>)
    ensures
        address_views(final(list)@) == address_views(old(list)@) + address_views(list_of(*more)),
{
    match more {
        Some(addresses) => {
            let mut i: usize = 0;
            while i < addresses.len()
                invariant
                    i <= addresses.len(),
                    address_views(list@) == address_views(old(list)@) + address_views(
                        addresses@.subrange(0, i as int),
                    ),
                decreases addresses.len() - i,
            {
                let ghost before = list@;
                list.push(clone_address(&addresses[i]));
                assert(address_views(list@) =~= address_views(before).push(
                    opt_view(addresses@[i as int].text),
                ));
                assert(address_views(addresses@.subrange(0, i + 1)) =~= address_views(
                    addresses@.subrange(0, i as int),
                ).push(opt_view(addresses@[i as int].text)));
                i += 1;
            }
            assert(addresses@.subrange(0, addresses@.len() as int) =~= addresses@);
        },
        None => {
            assert(address_views(list@) + address_views(Seq::<Address>::empty()) =~= address_views(
                list@,
            ));
        },
    }
}

/// Gathers the recipients of a message: the To list, then Cc, then Bcc, each
/// in its own order.
pub fn merge_to(message: &MimeMessage) -> (list: Vec<Address>)
    ensures
        address_views(list@) == address_views(recipients(*message)),
{
    let mut list: Vec<Address> = Vec::new();
    extend_addresses(&mut list, &message.to);
    extend_addresses(&mut list, &message.cc);
    extend_addresses(&mut list, &message.bcc);
    assert(address_views(list@) =~= address_views(recipients(*message)));
    list
}

/// Writes an address list as one line.
pub fn internet_list(list: &Vec<Address>) -> (line: String)
    ensures
        line@ == address_line(list@),
{
    let mut addresses: Vec<String> = Vec::new();
    let mut i: usize = 0;
    while i < list.len()
        invariant
            i <= list.len(),
            views(addresses@) == address_texts(list@.subrange(0, i as int)),
        decreases list.len() - i,
    {
        let ghost before = views(addresses@);
        proof {
            assert(list@.subrange(0, i + 1).drop_last() =~= list@.subrange(0, i as int));
        }
        match &list[i].text {
            Some(text) => {
                addresses.push(text.clone());
                assert(views(addresses@) =~= before.push(text@));
            },
            None => {},
        }
        i += 1;
    }
    assert(list@.subrange(0, list@.len() as int) =~= list@);
    join(&addresses, ", ")
}

/// Writes the date field of a message.
pub fn date_field(date: &MimeDate) -> (text: String)
    ensures
        text@ == date_text(*date),
{
    match date {
        MimeDate::Missing => String::new(),
        MimeDate::Parsed(date_time) => date_time.format(),
        MimeDate::Invalid(complaint) => complaint.clone(),
    }
}

/// Finds the first attachment with the given content id.
pub fn find_attachment(attachments: &Vec<Attachment>, cid: &str) -> (found: Option<usize>)
    ensures
        found is Some <==> find_from(attachment_views(attachments@), cid@, 0) is Some,
        found is Some ==> find_from(attachment_views(attachments@), cid@, 0)->0 == found->0,
        found is Some ==> found->0 < attachments@.len(),
{
    let ghost all = attachment_views(attachments@);
    let mut i: usize = 0;
    while i < attachments.len()
        invariant
            i <= attachments.len(),
            all == attachment_views(attachments@),
            find_from(all, cid@, 0) == find_from(all, cid@, i as int),
        decreases attachments.len() - i,
    {
        assert(all[i as int] == attachments@[i as int]@);
        if str_eq(attachments[i].content_id.as_str(), cid) {
            return Some(i);
        }
        i += 1;
    }
    None
}

/// Resolves the source of an image: a `cid:` reference to an attachment of
/// known type becomes a `data:` address with the attachment's bytes.
pub fn resolve_source(src: &str, attachments: &Vec<Attachment>) -> (uri: Option<String>)
    ensures
        opt_view(uri) == resolved_source(src@, attachment_views(attachments@)),
        uri is Some ==> fits(uri->0@),
{
    proof {
        reveal_strlit("cid:");
    }
    if !has_prefix(src, "cid:") {
        return None;
    }
    let cid = skip_chars(src, 4);
    match find_attachment(attachments, cid.as_str()) {
        Some(index) => {
            let attachment = &attachments[index];
            assert(attachment_views(attachments@)[index as int] == attachment@);
            match &attachment.mime_type {
                Some(mime_type) => {
                    if attachment.body.len() <= usize::MAX / 4 {
                        let encoded = base64_encode(attachment.body.as_slice());
                        let mut uri = "data:".to_owned();
                        uri.append(mime_type.as_str());
                        uri.append(";base64,");
                        uri.append(encoded.as_str());
                        if is_within_limit(uri.as_str()) {
                            Some(uri)
                        } else {
                            None
                        }
                    } else {
                        None
                    }
                },
                None => None,
            }
        },
        None => None,
    }
}

/// Replaces the `cid:` reference of the image at node `i`, if it has one
/// that resolves.
pub fn inline_image(document: &mut nipper::Document, i: usize, attachments: &Vec<Attachment>)
    requires
        i < document_nodes(*old(document)).len(),
        document_nodes(*old(document))[i as int].name == Some("img"@),
    ensures
        document_nodes(*final(document)) == document_nodes(*old(document)).update(
            i as int,
            inlined_node(document_nodes(*old(document))[i as int], attachment_views(attachments@)),
        ),
{
    let ghost nodes = document_nodes(*document);
    let ghost node = nodes[i as int];
    proof {
        assert(nodes.update(i as int, node) =~= nodes);
        assert(node == DomNode { attrs: node.attrs, ..node });
    }
    match attribute_value(document, i, "src") {
        Some(src) => {
            match resolve_source(src.as_str(), attachments) {
                Some(uri) => {
                    set_attribute(document, i, "src", uri.as_str());
                },
                None => {},
            }
        },
        None => {},
    }
}

/// Replaces every `cid:` image reference that resolves.
pub fn inline_images(document: &mut nipper::Document, attachments: &Vec<Attachment>)
    ensures
        document_nodes(*final(document)) == inlined(
            document_nodes(*old(document)),
            attachment_views(attachments@),
        ),
{
    let ghost orig = document_nodes(*document);
    let ghost all = attachment_views(attachments@);
    let names = node_names(document);
    let n = names.len();
    let mut i: usize = 0;
    while i < n
        invariant
            n == orig.len(),
            n == names@.len(),
            forall|t: int| 0 <= t < n ==> opt_view(#[trigger] names@[t]) == orig[t].name,
            0 <= i <= n,
            all == attachment_views(attachments@),
            document_nodes(*document).len() == n,
            forall|t: int|
                0 <= t < i ==> #[trigger] document_nodes(*document)[t] == inlined_node(
                    orig[t],
                    all,
                ),
            forall|t: int| i <= t < n ==> #[trigger] document_nodes(*document)[t] == orig[t],
        decreases n - i,
    {
        let ghost before = document_nodes(*document);
        assert(before[i as int] == orig[i as int]);
        let is_image = match &names[i] {
            Some(name) => str_eq(name.as_str(), "img"),
            None => false,
        };
        if is_image {
            inline_image(document, i, attachments);
        } else {
            assert(inlined_node(orig[i as int], all) == orig[i as int]);
        }
        i += 1;
    }
    assert(document_nodes(*document) =~= inlined(orig, all));
}

/// Folds the images that an HTML body refers to by content id into the
/// body itself. A body too long for the HTML engine is handed back as it
/// is.
pub fn integrate_cid(body: &str, attachments: &Vec<Attachment>) -> (html: String)
    ensures
        is_integrated(body@, attachment_views(attachments@), html@),
{
    if !is_within_limit(body) {
        return body.to_owned();
    }
    let mut document = parse_document(body);
    inline_images(&mut document, attachments);
    let html = serialize(&document);
    assert(document_nodes(document) == inlined(parsed_nodes(body@), attachment_views(attachments@)));
    html
}

/// Normalises a decoded message.
pub fn normalize(message: &MimeMessage) -> (fields: MailFields)
    ensures
        is_normal_form(*message, fields),
{
    let from = match &message.from {
        Some(list) => internet_list(list),
        None => String::new(),
    };
    let merged = merge_to(message);
    let to = internet_list(&merged);
    proof {
        lemma_texts_follow_views(merged@, recipients(*message));
    }
    let subject = match &message.subject {
        Some(subject) => subject.clone(),
        None => String::new(),
    };
    let date = date_field(&message.date);
    let bodies = parse_body(&message.parts);
    let body_html = match &bodies.html {
        Some(raw) => Some(integrate_cid(raw.as_str(), &bodies.attachments)),
        None => None,
    };
    MailFields {
        from,
        to,
        subject,
        date,
        body_text: bodies.text,
        body_html,
        attachments: bodies.attachments,
    }
}

/// The line of a list depends only on what its addresses render to.
pub proof fn lemma_texts_follow_views(a: Seq<Address>, b: Seq<Address>)
    requires
        address_views(a) == address_views(b),
    ensures
        address_texts(a) == address_texts(b),
    decreases a.len(),
{
    assert(address_views(a).len() == a.len());
    assert(address_views(b).len() == b.len());
    if a.len() > 0 {
        assert(address_views(a).last() == opt_view(a.last().text));
        assert(address_views(b).last() == opt_view(b.last().text));
        assert(address_views(a.drop_last()) =~= address_views(a).drop_last());
        assert(address_views(b.drop_last()) =~= address_views(b).drop_last());
        lemma_texts_follow_views(a.drop_last(), b.drop_last());
    }
}

/// Taking the renderings of two lists one after the other is taking the
/// renderings of the lists put together: no address changes place.
pub proof fn lemma_address_texts_concat(a: Seq<Address>, b: Seq<Address>)
    ensures
        address_texts(a + b) == address_texts(a) + address_texts(b),
    decreases b.len(),
{
    if b.len() == 0 {
        assert(a + b =~= a);
        assert(address_texts(a) + address_texts(b) =~= address_texts(a));
    } else {
        lemma_address_texts_concat(a, b.drop_last());
        assert((a + b).drop_last() =~= a + b.drop_last());
        assert((a + b).last() == b.last());
        assert(address_texts(a + b) =~= address_texts(a) + address_texts(b));
    }
}

/// Recipient order: the recipient line holds the renderings of the To list,
/// then those of the Cc list, then those of the Bcc list, each in the order
/// of its header.
pub proof fn lemma_recipients_in_order(message: MimeMessage)
    ensures
        address_line(recipients(message)) == joined(
            address_texts(list_of(message.to)) + address_texts(list_of(message.cc))
                + address_texts(list_of(message.bcc)),
            ", "@,
        ),
{
    lemma_address_texts_concat(list_of(message.to), list_of(message.cc));
    lemma_address_texts_concat(list_of(message.to) + list_of(message.cc), list_of(message.bcc));
}

/// Decoder for RFC-822 messages. It is given what the MIME decoder made of
/// the bytes and holds the normalised fields once parsed.
pub struct ElectronicMail {
    /// The decoded message this was made for; `None` where the MIME decoder
    /// found no message in the bytes.
    pub source: Option<MimeMessage>,
    pub from: String,
    pub to: String,
    pub date: String,
    pub subject: String,
    pub body_html: Option<String>,
    pub body_text: Option<String>,
    pub attachments: Vec<Attachment>,
}

impl ElectronicMail {
    /// The fields as one value.
    pub open spec fn fields(&self) -> MailFields {
        MailFields {
            from: self.from,
            to: self.to,
            subject: self.subject,
            date: self.date,
            body_text: self.body_text,
            body_html: self.body_html,
            attachments: self.attachments,
        }
    }

    /// Whether there is a decoded message to normalise.
    pub open spec fn can_parse(&self) -> bool {
        self.source is Some
    }

    /// What a call of `parse` leaves behind and answers.
    pub open spec fn parse_outcome(
        before: Self,
        after: Self,
        cancelled: bool,
        r: Result<(), ParseError>,
    ) -> bool {
        &&& after.source == before.source
        &&& r is Ok <==> !cancelled && before.can_parse()
        &&& r is Ok ==> is_normal_form(before.source->0, after.fields())
        &&& r is Err ==> after == before
        &&& r is Err && cancelled ==> r->Err_0 is Cancelled
        &&& r is Err && !cancelled ==> r->Err_0 is DecodeFailed
    }

    /// A decoder for the given decoded message, with nothing parsed yet.
    pub fn new(source: Option<MimeMessage>) -> (mail: Self)
        ensures
            mail.source == source,
            mail.message_view() == empty_message(),
    {
        let mail = ElectronicMail {
            source,
            from: String::new(),
            to: String::new(),
            date: String::new(),
            subject: String::new(),
            body_html: None,
            body_text: None,
            attachments: Vec::new(),
        };
        assert(attachment_views(mail.attachments@) =~= Seq::<AttachmentView>::empty());
        mail
    }
}

impl Message for ElectronicMail {
    open spec fn message_view(&self) -> MessageView {
        MessageView {
            from: self.from@,
            to: self.to@,
            subject: self.subject@,
            date: self.date@,
            body_text: opt_view(self.body_text),
            body_html: opt_view(self.body_html),
            attachments: attachment_views(self.attachments@),
        }
    }

    /// Normalises the decoded message. Fails only where there is no decoded
    /// message; a missing header or an undecodable body is no failure.
    fn parse(&mut self, cancelled: bool) -> (r: Result<(), ParseError>)
        ensures
            ElectronicMail::parse_outcome(*old(self), *final(self), cancelled, r),
    {
        if cancelled {
            return Err(ParseError::Cancelled);
        }
        match &self.source {
            None => Err(ParseError::DecodeFailed("no message could be read from the content".to_owned())),
            Some(message) => {
                let fields = normalize(message);
                self.from = fields.from;
                self.to = fields.to;
                self.subject = fields.subject;
                self.date = fields.date;
                self.body_text = fields.body_text;
                self.body_html = fields.body_html;
                self.attachments = fields.attachments;
                Ok(())
            },
        }
    }

    fn from(&self) -> (r: String) {
        self.from.clone()
    }

    fn to(&self) -> (r: String) {
        self.to.clone()
    }

    fn subject(&self) -> (r: String) {
        self.subject.clone()
    }

    fn date(&self) -> (r: String) {
        self.date.clone()
    }

    fn attachments(&self) -> (r: Vec<Attachment>) {
        clone_attachments(&self.attachments)
    }

    fn body_html(&self) -> (r: Option<String>) {
        clone_opt(&self.body_html)
    }

    fn body_text(&self) -> (r: Option<String>) {
        clone_opt(&self.body_text)
    }
}

} // verus!
