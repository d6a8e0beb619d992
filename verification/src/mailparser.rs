//! The mail decoder in its plain form: fields to read after one call.

use crate::attachment::Attachment;
use crate::electronicmail::{is_normal_form, normalize, MailFields};
use crate::error::ParseError;
use crate::mime::MimeMessage;
use vstd::prelude::*;

verus! {

/// Parses one decoded mail and keeps its fields.
pub struct MailParser {
    /// The decoded message; `None` where the MIME decoder found no message.
    pub source: Option<MimeMessage>,
    pub from: String,
    pub to: String,
    pub date: String,
    pub subject: String,
    pub body_html: Option<String>,
    pub body_text: Option<String>,
    pub attachments: Vec<Attachment>,
}

impl MailParser {
    /// The fields as one value.
    pub open spec fn fields(&self) -> MailFields {
        MailFields {
            from: self.from,
            to: self.to,
            subject: self.subject,
            date: self.date,
            body_text: self.body_text,
            body_html: self.body_html,
            attachments: self.attachments,
        }
    }

    /// A parser for the given decoded message, with empty fields.
    pub fn new(source: Option<MimeMessage>) -> (parser: Self)
        ensures
            parser.source == source,
            parser.from@.len() == 0,
            parser.to@.len() == 0,
            parser.date@.len() == 0,
            parser.subject@.len() == 0,
            parser.body_html is None,
            parser.body_text is None,
            parser.attachments@.len() == 0,
    {
        MailParser {
            source,
            from: String::new(),
            to: String::new(),
            date: String::new(),
            subject: String::new(),
            body_html: None,
            body_text: None,
            attachments: Vec::new(),
        }
    }

    /// Normalises the decoded message into the fields. Fails only where
    /// there is no decoded message, and then changes nothing.
    pub fn parse(&mut self) -> (r: Result<(), ParseError>)
        ensures
            final(self).source == old(self).source,
            r is Ok <==> old(self).source is Some,
            r is Ok ==> is_normal_form(old(self).source->0, final(self).fields()),
            r is Err ==> *final(self) == *old(self) && r->Err_0 is DecodeFailed,
    {
        match &self.source {
            None => Err(
                ParseError::DecodeFailed("no message could be read from the content".to_owned()),
            ),
            Some(message) => {
                let fields = normalize(message);
                self.from = fields.from;
                self.to = fields.to;
                self.subject = fields.subject;
                self.date = fields.date;
                self.body_text = fields.body_text;
                self.body_html = fields.body_html;
                self.attachments = fields.attachments;
                Ok(())
            },
        }
    }
}

} // verus!
