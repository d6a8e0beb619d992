//! Format detection from a content-type hint and the leading bytes.

use crate::text::str_eq;
use vstd::prelude::*;

verus! {

/// The two container formats a message can come in.
#[derive(Clone, Copy, Debug, PartialEq, Eq, Structural)]
pub enum MessageType {
    Eml,
    Msg,
}

/// The eight bytes every OLE compound file starts with.
pub open spec fn ole_magic() -> Seq<u8> {
    seq![0xD0u8, 0xCFu8, 0x11u8, 0xE0u8, 0xA1u8, 0xB1u8, 0x1Au8, 0xE1u8]
}

/// Whether `content` begins with the OLE compound-file magic number.
pub open spec fn has_ole_magic(content: Seq<u8>) -> bool {
    content.len() >= 8 && content.subrange(0, 8) == ole_magic()
}

/// Classifies raw content by its leading bytes alone.
pub fn message_type_from_content(content: &[u8]) -> (kind: MessageType)
    ensures
        kind == (if has_ole_magic(content@) { MessageType::Msg } else { MessageType::Eml }),
{
    if content.len() >= 8 && content[0] == 0xD0 && content[1] == 0xCF && content[2] == 0x11
        && content[3] == 0xE0 && content[4] == 0xA1 && content[5] == 0xB1 && content[6] == 0x1A
        && content[7] == 0xE1 {
        assert(content@.subrange(0, 8) =~= ole_magic());
        MessageType::Msg
    } else {
        proof {
            if content@.len() >= 8 && content@.subrange(0, 8) == ole_magic() {
                let head = content@.subrange(0, 8);
                assert(head[0] == content@[0] && head[1] == content@[1] && head[2] == content@[2]
                    && head[3] == content@[3] && head[4] == content@[4] && head[5] == content@[5]
                    && head[6] == content@[6] && head[7] == content@[7]);
            }
        }
        MessageType::Eml
    }
}

/// Whether a content type names RFC-822 mail.
pub open spec fn is_eml_type(content_type: Seq<char>) -> bool {
    content_type == "message/rfc822"@
}

/// Whether a content type names an Outlook message.
pub open spec fn is_msg_type(content_type: Seq<char>) -> bool {
    content_type == "application/vnd.ms-outlook"@ || content_type == "application/x-ole-storage"@
}

/// The format a content type stands for, if it is one of the known ones.
pub open spec fn type_of_hint(content_type: Seq<char>) -> Option<MessageType> {
    if is_eml_type(content_type) {
        Some(MessageType::Eml)
    } else if is_msg_type(content_type) {
        Some(MessageType::Msg)
    } else {
        None
    }
}

/// The format of a message: a hint that names a known type decides, and
/// otherwise the leading bytes do, with mail as the answer where nothing
/// speaks for an Outlook message.
pub open spec fn sniffed(hint: Option<Seq<char>>, content: Seq<u8>) -> MessageType {
    if hint is Some && type_of_hint(hint->0) is Some {
        type_of_hint(hint->0)->0
    } else if has_ole_magic(content) {
        MessageType::Msg
    } else {
        MessageType::Eml
    }
}

/// Classifies a content type as reported for a file.
pub fn message_type_from_hint(content_type: &str) -> (kind: Option<MessageType>)
    ensures
        kind == type_of_hint(content_type@),
{
    if str_eq(content_type, "message/rfc822") {
        Some(MessageType::Eml)
    } else if str_eq(content_type, "application/vnd.ms-outlook") || str_eq(
        content_type,
        "application/x-ole-storage",
    ) {
        Some(MessageType::Msg)
    } else {
        None
    }
}

/// Decides the format of a message. Never fails.
pub fn sniff(hint: Option<&str>, content: &[u8]) -> (kind: MessageType)
    ensures
        kind == sniffed(
            match hint {
                Some(text) => Some(text@),
                None => None,
            },
            content@,
        ),
{
    let hinted = match hint {
        Some(content_type) => message_type_from_hint(content_type),
        None => None,
    };
    match hinted {
        Some(kind) => kind,
        None => message_type_from_content(content),
    }
}

/// Content that starts with the compound-file magic number is taken for an
/// Outlook message whenever no hint names it mail: with no hint at all, and
/// with a hint of any other type.
pub proof fn lemma_magic_bytes_give_msg(hint: Option<Seq<char>>, content: Seq<u8>)
    requires
        has_ole_magic(content),
        hint is Some ==> !is_eml_type(hint->0),
    ensures
        sniffed(hint, content) == MessageType::Msg,
{
}

/// Without a hint, content that does not start with the magic number is
/// taken for mail, whatever it holds.
pub proof fn lemma_no_signal_gives_eml(content: Seq<u8>)
    requires
        !has_ole_magic(content),
    ensures
        sniffed(None, content) == MessageType::Eml,
{
}

} // verus!
