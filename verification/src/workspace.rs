//! The staging folder of a session: where it lies, and when it has to be
//! made and removed. Making and removing are the caller's to do.

use crate::attachment::{path_in, Attachment, AttachmentView};
use crate::config::APP_NAME;
use vstd::prelude::*;

verus! {

/// A lower-case hexadecimal digit.
pub open spec fn is_lower_hex(c: char) -> bool {
    ('0' <= c && c <= '9') || ('a' <= c && c <= 'f')
}

/// The shape of a session token: 32 lower-case hexadecimal digits.
pub open spec fn is_session_token(token: Seq<char>) -> bool {
    token.len() == 32 && forall|i: int| 0 <= i < token.len() ==> is_lower_hex(#[trigger] token[i])
}

/// `uuid::Uuid::new_v4` written with `simple`: a fresh random identifier as
/// 32 lower-case hexadecimal digits. Which digits is left open.
#[verifier::external_body]
pub(crate) fn random_token() -> (token: String)
    ensures
        is_session_token(token@),
{
    uuid::Uuid::new_v4().simple().to_string()
}

/// The folder of the session with the given token below a runtime
/// directory.
pub open spec fn workspace_path(runtime_dir: Seq<char>, token: Seq<char>) -> Seq<char> {
    runtime_dir + "/"@ + APP_NAME@ + "/"@ + token
}

/// The staging folder of one session.
pub struct TempWorkspace {
    path: String,
    created: bool,
}

impl TempWorkspace {
    /// Where the folder lies.
    pub closed spec fn path_view(&self) -> Seq<char> {
        self.path@
    }

    /// Whether the folder has been asked for, and so has to be removed in
    /// the end.
    pub closed spec fn is_created(&self) -> bool {
        self.created
    }

    /// The workspace of the session with the given token. Nothing is made on
    /// disk before the folder is needed.
    pub fn with_token(runtime_dir: &str, token: &str) -> (workspace: Self)
        ensures
            workspace.path_view() == workspace_path(runtime_dir@, token@),
            !workspace.is_created(),
    {
        let mut path = runtime_dir.to_owned();
        path.append("/");
        path.append(APP_NAME);
        path.append("/");
        path.append(token);
        TempWorkspace { path, created: false }
    }

    /// The workspace of a new session, under a token of its own.
    pub fn new(runtime_dir: &str) -> (workspace: Self)
        ensures
            exists|token: Seq<char>|
                is_session_token(token) && #[trigger] workspace_path(runtime_dir@, token)
                    == workspace.path_view(),
            !workspace.is_created(),
    {
        let token = random_token();
        Self::with_token(runtime_dir, token.as_str())
    }

    /// Where the folder lies.
    pub fn path(&self) -> (path: String)
        ensures
            path@ == self.path_view(),
    {
        self.path.clone()
    }

    /// Called before a file is staged. Answers whether the folder has to be
    /// made now, which is so the first time only.
    pub fn acquire(&mut self) -> (create: bool)
        ensures
            create == !old(self).is_created(),
            final(self).is_created(),
            final(self).path_view() == old(self).path_view(),
    {
        let create = !self.created;
        self.created = true;
        create
    }

    /// Called when the session ends. Answers whether there is a folder to
    /// remove: never for a workspace that was not asked for.
    pub fn release(&mut self) -> (remove: bool)
        ensures
            remove == old(self).is_created(),
            !final(self).is_created(),
            final(self).path_view() == old(self).path_view(),
    {
        let remove = self.created;
        self.created = false;
        remove
    }

    /// Where an attachment is staged in this workspace.
    pub fn staging_path(&self, attachment: &Attachment) -> (path: String)
        ensures
            path@ == path_in(self.path_view(), attachment.filename@),
    {
        attachment.tmp_path(self.path.as_str())
    }
}

/// Staging is repeatable: within one session an attachment has one
/// destination, however often and in whatever state of the workspace it is
/// asked for.
pub proof fn lemma_same_destination(
    first: TempWorkspace,
    second: TempWorkspace,
    attachment: AttachmentView,
)
    requires
        first.path_view() == second.path_view(),
    ensures
        path_in(first.path_view(), attachment.filename) == path_in(
            second.path_view(),
            attachment.filename,
        ),
{
}

} // verus!
