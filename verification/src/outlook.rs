//! Decoder for Outlook messages: what the compound-file decoder read from
//! the file is normalised here.

use crate::attachment::{attachment_views, clone_attachments, Attachment, AttachmentView};
use crate::codec::{hex_bytes, hex_decode, is_hex_text};
use crate::error::ParseError;
use crate::message::{clone_opt, empty_message, Message, MessageView};
use crate::text::{join, joined, opt_view, views};
use vstd::prelude::*;

verus! {

/// A sender or recipient as the Outlook decoder records it.
pub struct Person {
    pub name: String,
    pub email: String,
}

/// An attachment as the Outlook decoder records it.
pub struct OutlookAttachment {
    pub file_name: String,
    pub mime_tag: String,
    /// The content, written as hexadecimal text.
    pub payload: String,
}

/// What the Outlook decoder reads from a message file.
pub struct OutlookRecord {
    pub sender: Person,
    pub to: Vec<Person>,
    pub subject: String,
    /// The `Date` transport header as it stands; empty where the message has
    /// none.
    pub date: String,
    pub body: String,
    pub attachments: Vec<OutlookAttachment>,
}

/// A person as `Name <email>`.
pub open spec fn person_text(person: Person) -> Seq<char> {
    person.name@ + " <"@ + person.email@ + ">"@
}

/// The renderings of a list of persons, in order.
pub open spec fn person_texts(persons: Seq<Person>) -> Seq<Seq<char>> {
    Seq::new(persons.len(), |i: int| person_text(persons[i]))
}

/// A list of persons as one line.
pub open spec fn person_line(persons: Seq<Person>) -> Seq<char> {
    joined(person_texts(persons), ", "@)
}

/// The bytes of a payload: what the hexadecimal text spells, and nothing
/// where the text is no hexadecimal.
pub open spec fn payload_bytes(payload: Seq<char>) -> Seq<u8> {
    if is_hex_text(payload) {
        hex_bytes(payload)
    } else {
        Seq::empty()
    }
}

/// The attachment a record's attachment becomes. The file name stands in for
/// the content id, as the format has no other.
pub open spec fn normal_attachment(a: OutlookAttachment) -> AttachmentView {
    AttachmentView {
        filename: a.file_name@,
        content_id: a.file_name@,
        body: payload_bytes(a.payload@),
        mime_type: Some(a.mime_tag@),
    }
}

/// The attachments of a record, in order.
pub open spec fn normal_attachments(list: Seq<OutlookAttachment>) -> Seq<AttachmentView> {
    Seq::new(list.len(), |i: int| normal_attachment(list[i]))
}

/// The message a record normalises to: the body is plain text, and there is
/// no HTML body.
pub open spec fn normal_record(record: OutlookRecord) -> MessageView {
    MessageView {
        from: person_text(record.sender),
        to: person_line(record.to@),
        subject: record.subject@,
        date: record.date@,
        body_text: Some(record.body@),
        body_html: None,
        attachments: normal_attachments(record.attachments@),
    }
}

/// Decoder for Outlook messages. It is given what the compound-file decoder
/// made of the content and holds the normalised fields once parsed.
pub struct OutlookMessage {
    /// What the decoder read, or why it read nothing.
    pub source: Result<OutlookRecord, String>,
    pub from: String,
    pub to: String,
    pub date: String,
    pub subject: String,
    pub body: Option<String>,
    pub attachments: Vec<Attachment>,
}

impl OutlookMessage {
    /// A decoder for the given record, with nothing parsed yet.
    pub fn new(source: Result<OutlookRecord, String>) -> (message: Self)
        ensures
            message.source == source,
            message.message_view() == empty_message(),
    {
        let message = OutlookMessage {
            source,
            from: String::new(),
            to: String::new(),
            date: String::new(),
            subject: String::new(),
            body: None,
            attachments: Vec::new(),
        };
        assert(attachment_views(message.attachments@) =~= Seq::<AttachmentView>::empty());
        message
    }

    /// Writes a person as `Name <email>`.
    pub fn person_to_string(person: &Person) -> (text: String)
        ensures
            text@ == person_text(*person),
    {
        let mut out = person.name.clone();
        out.append(" <");
        out.append(person.email.as_str());
        out.append(">");
        out
    }

    /// Writes a list of persons as one line, a comma and a space between
    /// them.
    pub fn person_list_to_string(persons: &Vec<Person>) -> (line: String)
        ensures
            line@ == person_line(persons@),
    {
        let mut texts: Vec<String> = Vec::new();
        let mut i: usize = 0;
        while i < persons.len()
            invariant
                i <= persons.len(),
                texts@.len() == i,
                forall|k: int| 0 <= k < i ==> (#[trigger] texts@[k])@ == person_text(persons@[k]),
            decreases persons.len() - i,
        {
            texts.push(Self::person_to_string(&persons[i]));
            i += 1;
        }
        assert(views(texts@) =~= person_texts(persons@));
        join(&texts, ", ")
    }

    /// Decodes the payload of an attachment. A payload that does not decode
    /// gives an attachment without content.
    pub fn decode_attachment(a: &OutlookAttachment) -> (attachment: Attachment)
        ensures
            attachment@ == normal_attachment(*a),
    {
        let body = match hex_decode(a.payload.as_str()) {
            Some(bytes) => bytes,
            None => Vec::new(),
        };
        Attachment {
            filename: a.file_name.clone(),
            content_id: a.file_name.clone(),
            body,
            mime_type: Some(a.mime_tag.clone()),
        }
    }

    /// Decodes the attachments of a record, in order.
    pub fn decode_attachments(list: &Vec<OutlookAttachment>) -> (attachments: Vec<Attachment>)
        ensures
            attachment_views(attachments@) == normal_attachments(list@),
    {
        let mut attachments: Vec<Attachment> = Vec::new();
        let mut i: usize = 0;
        while i < list.len()
            invariant
                i <= list.len(),
                attachments@.len() == i,
                forall|k: int|
                    0 <= k < i ==> (#[trigger] attachments@[k])@ == normal_attachment(list@[k]),
            decreases list.len() - i,
        {
            attachments.push(Self::decode_attachment(&list[i]));
            i += 1;
        }
        assert(attachment_views(attachments@) =~= normal_attachments(list@));
        attachments
    }

    /// Whether there is a record to normalise.
    pub open spec fn can_parse(&self) -> bool {
        self.source is Ok
    }

    /// What a call of `parse` leaves behind and answers.
    pub open spec fn parse_outcome(
        before: Self,
        after: Self,
        cancelled: bool,
        r: Result<(), ParseError>,
    ) -> bool {
        &&& after.source == before.source
        &&& r is Ok <==> !cancelled && before.can_parse()
        &&& r is Ok ==> after.message_view() == normal_record(before.source->Ok_0)
        &&& r is Err ==> after == before
        &&& r is Err && cancelled ==> r->Err_0 is Cancelled
        &&& r is Err && !cancelled ==> r->Err_0 is DecodeFailed && r->Err_0->DecodeFailed_0@
            == before.source->Err_0@
    }
}

impl Message for OutlookMessage {
    open spec fn message_view(&self) -> MessageView {
        MessageView {
            from: self.from@,
            to: self.to@,
            subject: self.subject@,
            date: self.date@,
            body_text: opt_view(self.body),
            body_html: None,
            attachments: attachment_views(self.attachments@),
        }
    }

    /// Normalises what the decoder read. Fails where the decoder read
    /// nothing, with the decoder's reason.
    fn parse(&mut self, cancelled: bool) -> (r: Result<(), ParseError>)
        ensures
            OutlookMessage::parse_outcome(*old(self), *final(self), cancelled, r),
    {
        if cancelled {
            return Err(ParseError::Cancelled);
        }
        match &self.source {
            Ok(record) => {
                let from = Self::person_to_string(&record.sender);
                let to = Self::person_list_to_string(&record.to);
                let subject = record.subject.clone();
                let date = record.date.clone();
                let body = Some(record.body.clone());
                let attachments = Self::decode_attachments(&record.attachments);
                self.from = from;
                self.to = to;
                self.subject = subject;
                self.date = date;
                self.body = body;
                self.attachments = attachments;
                Ok(())
            },
            Err(cause) => Err(ParseError::DecodeFailed(cause.clone())),
        }
    }

    fn from(&self) -> (r: String) {
        self.from.clone()
    }

    fn to(&self) -> (r: String) {
        self.to.clone()
    }

    fn subject(&self) -> (r: String) {
        self.subject.clone()
    }

    fn date(&self) -> (r: String) {
        self.date.clone()
    }

    fn attachments(&self) -> (r: Vec<Attachment>) {
        clone_attachments(&self.attachments)
    }

    fn body_html(&self) -> (r: Option<String>) {
        None
    }

    fn body_text(&self) -> (r: Option<String>) {
        clone_opt(&self.body)
    }
}

} // verus!
