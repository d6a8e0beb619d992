//! Why opening a message failed.

use vstd::prelude::*;

verus! {

/// The three ways in which opening a message ends without a message.
#[derive(Debug)]
pub enum ParseError {
    /// The source could not be read; the text says why.
    IoFailed(String),
    /// The container is not a message the decoder can take apart.
    DecodeFailed(String),
    /// The caller called the operation off.
    Cancelled,
}

/// The text of an error as shown to a user.
pub open spec fn error_text(e: ParseError) -> Seq<char> {
    match e {
        ParseError::IoFailed(cause) => "Unable to read the message: "@ + cause@,
        ParseError::DecodeFailed(cause) => "Unable to decode the message: "@ + cause@,
        ParseError::Cancelled => "Operation was cancelled"@,
    }
}

impl ParseError {
    /// Whether the error stands for an intended cancellation, which callers
    /// do not report.
    pub fn is_cancelled(&self) -> (r: bool)
        ensures
            r == (*self is Cancelled),
    {
        match self {
            ParseError::Cancelled => true,
            _ => false,
        }
    }

    /// The text of the error.
    pub fn message(&self) -> (text: String)
        ensures
            text@ == error_text(*self),
    {
        match self {
            ParseError::IoFailed(cause) => {
                let mut out = "Unable to read the message: ".to_owned();
                out.append(cause.as_str());
                out
            },
            ParseError::DecodeFailed(cause) => {
                let mut out = "Unable to decode the message: ".to_owned();
                out.append(cause.as_str());
                out
            },
            ParseError::Cancelled => "Operation was cancelled".to_owned(),
        }
    }
}

} // verus!
