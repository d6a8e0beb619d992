//! Reading a source in chunks: what to do next, given what has come so far.
//! The reads themselves are the caller's.

use crate::error::ParseError;
use vstd::prelude::*;

verus! {

/// The number of bytes asked for at a time.
pub const CHUNK_SIZE: usize = 8192;

/// What the caller is to do next.
pub enum ReadAction {
    /// Read up to this many bytes and hand them to `accept`.
    Read(usize),
    /// The source is exhausted: take the content.
    Finish,
    /// Give up with this error.
    Fail(ParseError),
}

/// The content of a source as far as it has been read.
pub struct ContentReader {
    pub content: Vec<u8>,
    /// Whether the end of the source has been seen.
    pub done: bool,
}

impl ContentReader {
    /// A reader that has read nothing yet.
    pub fn new() -> (reader: Self)
        ensures
            reader.content@.len() == 0,
            !reader.done,
    {
        ContentReader { content: Vec::new(), done: false }
    }

    /// Decides the next step. Cancellation is looked at before every read,
    /// and a read that is cancelled ends as cancelled, not as a failure.
    pub fn next(&self, cancelled: bool) -> (action: ReadAction)
        ensures
            self.done ==> action is Finish,
            !self.done && cancelled ==> action is Fail && action->Fail_0 is Cancelled,
            !self.done && !cancelled ==> action is Read && action->Read_0 == CHUNK_SIZE,
    {
        if self.done {
            ReadAction::Finish
        } else if cancelled {
            ReadAction::Fail(ParseError::Cancelled)
        } else {
            ReadAction::Read(CHUNK_SIZE)
        }
    }

    /// Takes a chunk that was read: an empty chunk marks the end of the
    /// source, any other is added to the content.
    pub fn accept(&mut self, chunk: &[u8])
        ensures
            final(self).content@ == old(self).content@ + chunk@,
            final(self).done == (old(self).done || chunk@.len() == 0),
    {
        if chunk.len() == 0 {
            self.done = true;
            assert(self.content@ + chunk@ =~= self.content@);
        } else {
            self.content.extend_from_slice(chunk);
        }
    }

    /// The error for a read that failed.
    pub fn read_failed(cause: String) -> (error: ParseError)
        ensures
            error is IoFailed,
            error->IoFailed_0 == cause,
    {
        ParseError::IoFailed(cause)
    }

    /// The content read.
    pub fn into_content(self) -> (content: Vec<u8>)
        ensures
            content == self.content,
    {
        self.content
    }
}

} // verus!
