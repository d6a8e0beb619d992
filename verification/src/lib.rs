//! Normalised view of an electronic-mail message, with the policy that turns a
//! decoded MIME tree or Outlook record into sender, recipients, subject, date,
//! bodies and attachments, the sanitizer for HTML bodies, and the model of
//! where attachments are staged.

pub mod attachment;
pub mod codec;
pub mod config;
pub mod dom;
pub mod dom_lemmas;
pub mod electronicmail;
pub mod error;
pub mod head_laws;
pub mod html;
pub mod html_laws;
pub mod inline_laws;
pub mod mailparser;
pub mod mailservice;
pub mod message;
pub mod mime;
pub mod outlook;
pub mod reader;
pub mod sniff;
pub mod text;
pub mod view;
pub mod workspace;

pub use attachment::Attachment;
pub use electronicmail::ElectronicMail;
pub use error::ParseError;
pub use html::Html;
pub use mailparser::MailParser;
pub use mailservice::MailService;
pub use message::{Message, MessageParser};
pub use outlook::OutlookMessage;
pub use sniff::MessageType;
pub use workspace::TempWorkspace;
