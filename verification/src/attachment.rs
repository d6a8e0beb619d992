//! One extracted binary part of a message, and where it is staged on disk.

use crate::text::{decimal, decimal_text, opt_view};
use vstd::prelude::*;

verus! {

/// An attachment as the contracts see it.
pub struct AttachmentView {
    pub filename: Seq<char>,
    pub content_id: Seq<char>,
    pub body: Seq<u8>,
    pub mime_type: Option<Seq<char>>,
}

/// A binary part of a message, held in memory in full.
#[derive(Debug)]
pub struct Attachment {
    pub filename: String,
    /// The part's content id, or `none` where it has none.
    pub content_id: String,
    pub body: Vec<u8>,
    pub mime_type: Option<String>,
}

impl View for Attachment {
    type V = AttachmentView;

    open spec fn view(&self) -> AttachmentView {
        AttachmentView {
            filename: self.filename@,
            content_id: self.content_id@,
            body: self.body@,
            mime_type: opt_view(self.mime_type),
        }
    }
}

/// The views of a sequence of attachments, in order.
pub open spec fn attachment_views(items: Seq<Attachment>) -> Seq<AttachmentView> {
    Seq::new(items.len(), |i: int| items[i]@)
}

/// The one-line description of an attachment.
pub open spec fn description(a: AttachmentView) -> Seq<char> {
    "Attachment(content_id: "@ + a.content_id + ", filename: "@ + a.filename + ", mime_type: "@ + (
    match a.mime_type {
        Some(mime) => mime,
        None => "None"@,
    }) + ")"@
}

/// What is said when only part of an attachment reached its file.
pub open spec fn short_write_text(a: AttachmentView, file: Seq<char>, written: nat) -> Seq<char> {
    "Failed to write "@ + description(a) + " to file "@ + file + ": only "@ + decimal(written)
        + " of "@ + decimal(a.body.len()) + " bytes have been written"@
}

/// The path of `filename` inside `folder`.
pub open spec fn path_in(folder: Seq<char>, filename: Seq<char>) -> Seq<char> {
    folder + "/"@ + filename
}

impl Clone for Attachment {
    fn clone(&self) -> (copy: Self)
        ensures
            copy@ == self@,
    {
        let mime_type = match &self.mime_type {
            Some(mime) => Some(mime.clone()),
            None => None,
        };
        Attachment {
            filename: self.filename.clone(),
            content_id: self.content_id.clone(),
            body: self.body.clone(),
            mime_type,
        }
    }
}

impl Attachment {
    /// A line that names the attachment, for logs and messages.
    pub fn describe(&self) -> (text: String)
        ensures
            text@ == description(self@),
    {
        let mut out = "Attachment(content_id: ".to_owned();
        out.append(self.content_id.as_str());
        out.append(", filename: ");
        out.append(self.filename.as_str());
        out.append(", mime_type: ");
        match &self.mime_type {
            Some(mime) => out.append(mime.as_str()),
            None => out.append("None"),
        }
        out.append(")");
        out
    }

    /// Judges a write of the attachment to `file` that reported `written`
    /// bytes: the write is good when all bytes were written, and otherwise
    /// the answer says how many of how many were.
    pub fn check_written(&self, file: &str, written: usize) -> (r: Result<(), String>)
        ensures
            r is Ok <==> written == self.body@.len(),
            r is Err ==> r->Err_0@ == short_write_text(self@, file@, written as nat),
    {
        if written == self.body.len() {
            return Ok(());
        }
        let mut out = "Failed to write ".to_owned();
        out.append(self.describe().as_str());
        out.append(" to file ");
        out.append(file);
        out.append(": only ");
        out.append(decimal_text(written).as_str());
        out.append(" of ");
        out.append(decimal_text(self.body.len()).as_str());
        out.append(" bytes have been written");
        Err(out)
    }

    /// Where this attachment is staged inside `folder`: the same path every
    /// time it is asked for.
    pub fn tmp_path(&self, folder: &str) -> (path: String)
        ensures
            path@ == path_in(folder@, self.filename@),
    {
        let mut out = folder.to_owned();
        out.append("/");
        out.append(self.filename.as_str());
        out
    }
}

/// A copy of a list of attachments.
pub fn clone_attachments(items: &Vec<Attachment>) -> (copy: Vec<Attachment>)
    ensures
        attachment_views(copy@) == attachment_views(items@),
{
    let mut out: Vec<Attachment> = Vec::new();
    let mut i: usize = 0;
    while i < items.len()
        invariant
            i <= items.len(),
            out@.len() == i,
            forall|k: int| 0 <= k < i ==> (#[trigger] out@[k])@ == items@[k]@,
        decreases items.len() - i,
    {
        out.push(items[i].clone());
        i += 1;
    }
    assert(attachment_views(out@) =~= attachment_views(items@));
    out
}

} // verus!
