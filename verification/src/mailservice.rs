//! The message a window shows: the file it came from, the opened message,
//! and the title that goes with them.

use crate::attachment::{attachment_views, Attachment, AttachmentView};
use crate::config::VERSION;
use crate::error::ParseError;
use crate::message::{empty_message, Message, MessageParser, MessageView};
use crate::text::opt_view;
use vstd::prelude::*;

verus! {

/// The file a message is read from, as the file system names it.
pub struct SourceFile {
    pub path: String,
    /// The last component of the path; `None` where the path has none.
    pub basename: Option<String>,
}

/// The title without a file name.
pub open spec fn default_title() -> Seq<char> {
    "Mail Viewer v"@ + VERSION@
}

/// The title for a file: its name where names are shown and it has one.
pub open spec fn title_for(show_file_name: bool, file: SourceFile) -> Seq<char> {
    if show_file_name && file.basename is Some {
        file.basename->0@
    } else {
        default_title()
    }
}

/// The state behind a window.
pub struct MailService {
    pub parser: Option<MessageParser>,
    pub file: Option<SourceFile>,
    pub show_file_name: bool,
    /// Whether someone asked to be told of title changes.
    pub title_listener: bool,
}

impl MailService {
    /// The view of the opened message, empty where none is open.
    pub open spec fn message(&self) -> MessageView {
        match self.parser {
            Some(parser) => parser.message_view(),
            None => empty_message(),
        }
    }

    /// The title to announce: there is one where someone listens and a file
    /// is set.
    pub open spec fn announced_title(&self) -> Option<Seq<char>> {
        if self.title_listener && self.file is Some {
            Some(title_for(self.show_file_name, self.file->0))
        } else {
            None
        }
    }

    /// A service with no message open.
    pub fn new() -> (service: Self)
        ensures
            service.parser is None,
            service.file is None,
            service.show_file_name,
            !service.title_listener,
    {
        MailService { parser: None, file: None, show_file_name: true, title_listener: false }
    }

    /// Takes over the outcome of opening a file: remembers the file, and
    /// keeps the parser where opening succeeded. A failed or cancelled open
    /// leaves the message that was open before, and its error is handed on.
    /// The answer holds the title to announce.
    pub fn open_message(&mut self, file: SourceFile, opened: Result<MessageParser, ParseError>) -> (r:
        Result<Option<String>, ParseError>)
        ensures
            final(self).file == Some(file),
            final(self).show_file_name == old(self).show_file_name,
            final(self).title_listener == old(self).title_listener,
            r is Ok <==> opened is Ok,
            r is Ok ==> final(self).parser == Some(opened->Ok_0),
            r is Ok ==> opt_view(r->Ok_0) == final(self).announced_title(),
            r is Err ==> final(self).parser == old(self).parser && r->Err_0 == opened->Err_0,
    {
        self.file = Some(file);
        match opened {
            Ok(parser) => {
                self.parser = Some(parser);
                Ok(self.update_title())
            },
            Err(e) => Err(e),
        }
    }

    /// The sender line of the open message; empty where none is open.
    pub fn from(&self) -> (r: String)
        ensures
            r@ == self.message().from,
    {
        match &self.parser {
            Some(parser) => parser.from(),
            None => String::new(),
        }
    }

    /// The recipient line of the open message; empty where none is open.
    pub fn to(&self) -> (r: String)
        ensures
            r@ == self.message().to,
    {
        match &self.parser {
            Some(parser) => parser.to(),
            None => String::new(),
        }
    }

    /// The subject of the open message; empty where none is open.
    pub fn subject(&self) -> (r: String)
        ensures
            r@ == self.message().subject,
    {
        match &self.parser {
            Some(parser) => parser.subject(),
            None => String::new(),
        }
    }

    /// The date of the open message; empty where none is open.
    pub fn date(&self) -> (r: String)
        ensures
            r@ == self.message().date,
    {
        match &self.parser {
            Some(parser) => parser.date(),
            None => String::new(),
        }
    }

    /// The plain-text body of the open message, if it has one.
    pub fn body_text(&self) -> (r: Option<String>)
        ensures
            opt_view(r) == self.message().body_text,
    {
        match &self.parser {
            Some(parser) => parser.body_text(),
            None => None,
        }
    }

    /// The HTML body of the open message, if it has one.
    pub fn body_html(&self) -> (r: Option<String>)
        ensures
            opt_view(r) == self.message().body_html,
    {
        match &self.parser {
            Some(parser) => parser.body_html(),
            None => None,
        }
    }

    /// A copy of the attachments of the open message.
    pub fn attachments(&self) -> (r: Vec<Attachment>)
        ensures
            attachment_views(r@) == self.message().attachments,
    {
        match &self.parser {
            Some(parser) => parser.attachments(),
            None => {
                let empty: Vec<Attachment> = Vec::new();
                assert(attachment_views(empty@) =~= Seq::<AttachmentView>::empty());
                empty
            },
        }
    }

    /// Turns file names in the title on or off. The answer holds the title to
    /// announce.
    pub fn set_show_file_name(&mut self, show_file_name: bool) -> (title: Option<String>)
        ensures
            final(self).show_file_name == show_file_name,
            final(self).parser == old(self).parser,
            final(self).file == old(self).file,
            final(self).title_listener == old(self).title_listener,
            opt_view(title) == final(self).announced_title(),
    {
        self.show_file_name = show_file_name;
        self.update_title()
    }

    /// The path of the file that was opened last.
    pub fn get_file(&self) -> (path: Option<String>)
        ensures
            path is Some <==> self.file is Some,
            path is Some ==> path->0@ == self.file->0.path@,
    {
        match &self.file {
            Some(file) => Some(file.path.clone()),
            None => None,
        }
    }

    /// Records that someone wants to be told of title changes; from now on
    /// the operations that change the title answer with it.
    pub fn connect_title_changed(&mut self)
        ensures
            final(self).title_listener,
            final(self).parser == old(self).parser,
            final(self).file == old(self).file,
            final(self).show_file_name == old(self).show_file_name,
    {
        self.title_listener = true;
    }

    /// The title to announce now, if any.
    pub fn update_title(&self) -> (title: Option<String>)
        ensures
            opt_view(title) == self.announced_title(),
    {
        if self.title_listener {
            match &self.file {
                Some(file) => Some(self.get_title(file)),
                None => None,
            }
        } else {
            None
        }
    }

    /// The title for a file.
    pub fn get_title(&self, file: &SourceFile) -> (title: String)
        ensures
            title@ == title_for(self.show_file_name, *file),
    {
        if self.show_file_name {
            match &file.basename {
                Some(name) => {
                    return name.clone();
                },
                None => {},
            }
        }
        let mut title = "Mail Viewer v".to_owned();
        title.append(VERSION);
        title
    }
}

} // verus!
