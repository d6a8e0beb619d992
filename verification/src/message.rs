//! The uniform contract of a decoded message, whatever format it came in.

use crate::attachment::{attachment_views, Attachment, AttachmentView};
use crate::electronicmail::{is_normal_form, ElectronicMail};
use crate::error::ParseError;
use crate::mime::MimeMessage;
use crate::outlook::{normal_record, OutlookMessage, OutlookRecord};
use crate::sniff::{sniff, sniffed, MessageType};
use crate::text::opt_view;
use vstd::prelude::*;

verus! {

/// A normalised message as the contracts see it.
pub struct MessageView {
    pub from: Seq<char>,
    pub to: Seq<char>,
    pub subject: Seq<char>,
    pub date: Seq<char>,
    pub body_text: Option<Seq<char>>,
    pub body_html: Option<Seq<char>>,
    pub attachments: Seq<AttachmentView>,
}

/// The message before anything is parsed: empty fields, no body, no
/// attachment.
pub open spec fn empty_message() -> MessageView {
    MessageView {
        from: Seq::empty(),
        to: Seq::empty(),
        subject: Seq::empty(),
        date: Seq::empty(),
        body_text: None,
        body_html: None,
        attachments: Seq::empty(),
    }
}

/// A message decoder: parses once, then answers for the fields.
pub trait Message {
    /// The fields the decoder holds.
    spec fn message_view(&self) -> MessageView;

    /// Decodes the message. A call that is cancelled from the start reports
    /// just that and leaves the fields as they were.
    fn parse(&mut self, cancelled: bool) -> (r: Result<(), ParseError>)
        ensures
            cancelled ==> r is Err && r->Err_0 is Cancelled,
            cancelled ==> final(self).message_view() == old(self).message_view(),
            !cancelled && r is Err ==> r->Err_0 is DecodeFailed,
    ;

    /// The sender line.
    fn from(&self) -> (r: String)
        ensures
            r@ == self.message_view().from,
    ;

    /// The recipient line.
    fn to(&self) -> (r: String)
        ensures
            r@ == self.message_view().to,
    ;

    /// The subject.
    fn subject(&self) -> (r: String)
        ensures
            r@ == self.message_view().subject,
    ;

    /// The date, as `YYYY-MM-DD HH:MM:SS` where the message has one.
    fn date(&self) -> (r: String)
        ensures
            r@ == self.message_view().date,
    ;

    /// A copy of the attachments, in the order they were met.
    fn attachments(&self) -> (r: Vec<Attachment>)
        ensures
            attachment_views(r@) == self.message_view().attachments,
    ;

    /// The HTML body, where the message has one.
    fn body_html(&self) -> (r: Option<String>)
        ensures
            opt_view(r) == self.message_view().body_html,
    ;

    /// The plain-text body, where the message has one.
    fn body_text(&self) -> (r: Option<String>)
        ensures
            opt_view(r) == self.message_view().body_text,
    ;
}

/// A copy of an optional string.
pub fn clone_opt(text: &Option<String>) -> (copy: Option<String>)
    ensures
        opt_view(copy) == opt_view(*text),
{
    match text {
        Some(s) => Some(s.clone()),
        None => None,
    }
}

/// What the decoder of a format made of the content of a message.
pub enum Decoded {
    /// The MIME decoder's message; `None` where it found none.
    Mail(Option<MimeMessage>),
    /// The compound-file decoder's record, or why it read none.
    Outlook(Result<OutlookRecord, String>),
}

/// The decoder chosen for a message.
pub enum Decoder {
    Eml(ElectronicMail),
    Msg(OutlookMessage),
}

/// Opens a message of either format: picks the decoder once, from the hint
/// and the content, and answers for the decoder from then on.
pub struct MessageParser {
    pub parser: Decoder,
    pub message_type: MessageType,
}

/// The view of an optional hint.
pub open spec fn hint_view(hint: Option<&str>) -> Option<Seq<char>> {
    match hint {
        Some(text) => Some(text@),
        None => None,
    }
}

/// The decoded mail to work on: none where the content was decoded as
/// something else.
pub open spec fn mail_of(decoded: Decoded) -> Option<MimeMessage> {
    match decoded {
        Decoded::Mail(mime) => mime,
        Decoded::Outlook(_) => None,
    }
}

/// Whether the content was decoded as an Outlook message and a record was
/// read.
pub open spec fn has_record(decoded: Decoded) -> bool {
    decoded is Outlook && decoded->Outlook_0 is Ok
}

impl MessageParser {
    /// The content types of the messages that can be opened.
    pub fn supported_mime_types() -> (types: Vec<&'static str>)
        ensures
            types@.len() == 3,
            types@[0]@ == "message/rfc822"@,
            types@[1]@ == "application/vnd.ms-outlook"@,
            types@[2]@ == "application/x-ole-storage"@,
    {
        let mut v: Vec<&'static str> = Vec::new();
        v.push("message/rfc822");
        v.push("application/vnd.ms-outlook");
        v.push("application/x-ole-storage");
        v
    }

    /// Whether the decoder fits the format and was given what the format's
    /// decoder made of the content.
    pub open spec fn is_for(&self, decoded: Decoded) -> bool {
        match self.parser {
            Decoder::Eml(mail) => self.message_type == MessageType::Eml && mail.source == mail_of(
                decoded,
            ) && mail.message_view() == empty_message(),
            Decoder::Msg(message) => self.message_type == MessageType::Msg && (has_record(decoded)
                ==> message.source == decoded->Outlook_0) && (!has_record(decoded)
                ==> message.source is Err) && message.message_view() == empty_message(),
        }
    }

    /// Chooses the decoder for a message from the hint and the content.
    /// `decoded` is what the decoder of that format made of the content; what
    /// a decoder of the other format made of it counts as nothing.
    pub fn new(content: &[u8], hint: Option<&str>, decoded: Decoded) -> (parser: Self)
        ensures
            parser.message_type == sniffed(hint_view(hint), content@),
            parser.is_for(decoded),
    {
        let message_type = sniff(hint, content);
        match message_type {
            MessageType::Msg => {
                let record = match decoded {
                    Decoded::Outlook(record) => record,
                    Decoded::Mail(_) => Err("the content was not read as an Outlook message".to_owned()),
                };
                MessageParser { parser: Decoder::Msg(OutlookMessage::new(record)), message_type }
            },
            MessageType::Eml => {
                let mime = match decoded {
                    Decoded::Mail(mime) => mime,
                    Decoded::Outlook(_) => None,
                };
                MessageParser { parser: Decoder::Eml(ElectronicMail::new(mime)), message_type }
            },
        }
    }

    /// Whether content of this kind can be opened: the decoder of its format
    /// must have made something of it.
    pub open spec fn can_open(content: Seq<u8>, hint: Option<Seq<char>>, decoded: Decoded) -> bool {
        match sniffed(hint, content) {
            MessageType::Eml => mail_of(decoded) is Some,
            MessageType::Msg => has_record(decoded),
        }
    }

    /// Whether `parser` holds the message that the content opens to.
    pub open spec fn is_opened(
        parser: MessageParser,
        content: Seq<u8>,
        hint: Option<Seq<char>>,
        decoded: Decoded,
    ) -> bool {
        &&& parser.message_type == sniffed(hint, content)
        &&& match parser.parser {
            Decoder::Eml(mail) => parser.message_type == MessageType::Eml && mail.source
                == mail_of(decoded) && mail.source is Some && is_normal_form(
                mail.source->0,
                mail.fields(),
            ),
            Decoder::Msg(message) => parser.message_type == MessageType::Msg && has_record(decoded)
                && message.source == decoded->Outlook_0 && message.message_view() == normal_record(
                decoded->Outlook_0->Ok_0,
            ),
        }
    }

    /// Opens a message from what reading its source gave: a read that failed
    /// is an I/O failure, content that its decoder made nothing of a decode
    /// failure, and a call that is cancelled from the start ends as cancelled
    /// whatever the content is.
    pub fn open(
        content: Result<Vec<u8>, String>,
        hint: Option<&str>,
        decoded: Decoded,
        cancelled: bool,
    ) -> (r: Result<MessageParser, ParseError>)
        ensures
            r is Ok <==> !cancelled && content is Ok && Self::can_open(
                content->Ok_0@,
                hint_view(hint),
                decoded,
            ),
            r is Ok ==> Self::is_opened(r->Ok_0, content->Ok_0@, hint_view(hint), decoded),
            r is Err && cancelled ==> r->Err_0 is Cancelled,
            r is Err && !cancelled && content is Err ==> r->Err_0 is IoFailed
                && r->Err_0->IoFailed_0 == content->Err_0,
            r is Err && !cancelled && content is Ok ==> r->Err_0 is DecodeFailed,
    {
        if cancelled {
            return Err(ParseError::Cancelled);
        }
        match content {
            Err(cause) => Err(ParseError::IoFailed(cause)),
            Ok(bytes) => {
                let mut parser = MessageParser::new(bytes.as_slice(), hint, decoded);
                match parser.parse(false) {
                    Ok(()) => Ok(parser),
                    Err(e) => Err(e),
                }
            },
        }
    }

    /// Whether the chosen decoder can decode what it was given.
    pub open spec fn can_parse(&self) -> bool {
        match self.parser {
            Decoder::Eml(mail) => mail.can_parse(),
            Decoder::Msg(message) => message.can_parse(),
        }
    }

    /// What a call of `parse` leaves behind and answers: what the chosen
    /// decoder's own `parse` does, with the choice unchanged.
    pub open spec fn parse_outcome(
        before: Self,
        after: Self,
        cancelled: bool,
        r: Result<(), ParseError>,
    ) -> bool {
        &&& after.message_type == before.message_type
        &&& r is Ok <==> !cancelled && before.can_parse()
        &&& match before.parser {
            Decoder::Eml(mail) => after.parser is Eml && ElectronicMail::parse_outcome(
                mail,
                after.parser->Eml_0,
                cancelled,
                r,
            ),
            Decoder::Msg(message) => after.parser is Msg && OutlookMessage::parse_outcome(
                message,
                after.parser->Msg_0,
                cancelled,
                r,
            ),
        }
    }
}

impl Message for MessageParser {
    open spec fn message_view(&self) -> MessageView {
        match self.parser {
            Decoder::Eml(mail) => mail.message_view(),
            Decoder::Msg(message) => message.message_view(),
        }
    }

    /// Runs the chosen decoder.
    fn parse(&mut self, cancelled: bool) -> (r: Result<(), ParseError>)
        ensures
            MessageParser::parse_outcome(*old(self), *final(self), cancelled, r),
    {
        match &mut self.parser {
            Decoder::Eml(mail) => mail.parse(cancelled),
            Decoder::Msg(message) => message.parse(cancelled),
        }
    }

    fn from(&self) -> (r: String) {
        match &self.parser {
            Decoder::Eml(mail) => mail.from(),
            Decoder::Msg(message) => message.from(),
        }
    }

    fn to(&self) -> (r: String) {
        match &self.parser {
            Decoder::Eml(mail) => mail.to(),
            Decoder::Msg(message) => message.to(),
        }
    }

    fn subject(&self) -> (r: String) {
        match &self.parser {
            Decoder::Eml(mail) => mail.subject(),
            Decoder::Msg(message) => message.subject(),
        }
    }

    fn date(&self) -> (r: String) {
        match &self.parser {
            Decoder::Eml(mail) => mail.date(),
            Decoder::Msg(message) => message.date(),
        }
    }

    fn attachments(&self) -> (r: Vec<Attachment>) {
        match &self.parser {
            Decoder::Eml(mail) => mail.attachments(),
            Decoder::Msg(message) => message.attachments(),
        }
    }

    fn body_html(&self) -> (r: Option<String>) {
        match &self.parser {
            Decoder::Eml(mail) => mail.body_html(),
            Decoder::Msg(message) => message.body_html(),
        }
    }

    fn body_text(&self) -> (r: Option<String>) {
        match &self.parser {
            Decoder::Eml(mail) => mail.body_text(),
            Decoder::Msg(message) => message.body_text(),
        }
    }
}

} // verus!
