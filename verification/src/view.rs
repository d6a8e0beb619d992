//! What the display does with a message: the rules, without the widgets.

use crate::attachment::{Attachment, AttachmentView};
use crate::text::{has_prefix, starts_with};
use vstd::prelude::*;

verus! {

/// What to do with a link the reader follows.
#[derive(Clone, Copy, Debug, PartialEq, Eq, Structural)]
pub enum LinkAction {
    /// Let the view load it: the view's own pages.
    Load,
    /// Hand it to the system to open outside, and keep the view where it is.
    OpenOutside,
}

/// Whether an address names one of the view's own pages.
pub open spec fn is_own_page(uri: Seq<char>) -> bool {
    starts_with(uri, "about:"@)
}

/// Decides what happens to a link: nothing but the view's own pages is
/// loaded in the view.
pub fn link_action(uri: &str) -> (action: LinkAction)
    ensures
        action == (if is_own_page(uri@) {
            LinkAction::Load
        } else {
            LinkAction::OpenOutside
        }),
{
    if has_prefix(uri, "about:") {
        LinkAction::Load
    } else {
        LinkAction::OpenOutside
    }
}

/// The type shown for an attachment: its own, or `Unknown`.
pub open spec fn shown_type(attachment: AttachmentView) -> Seq<char> {
    match attachment.mime_type {
        Some(mime) => mime,
        None => "Unknown"@,
    }
}

/// The icon that goes with an attachment: one for images, one for all else.
pub open spec fn icon_of(attachment: AttachmentView) -> Seq<char> {
    if starts_with(shown_type(attachment), "image"@) {
        "image-x-generic-symbolic"@
    } else {
        "document-open"@
    }
}

/// The type to show for an attachment.
pub fn attachment_type(attachment: &Attachment) -> (text: String)
    ensures
        text@ == shown_type(attachment@),
{
    match &attachment.mime_type {
        Some(mime) => mime.clone(),
        None => "Unknown".to_owned(),
    }
}

/// The name of the icon to show for an attachment.
pub fn attachment_icon(attachment: &Attachment) -> (icon: &'static str)
    ensures
        icon@ == icon_of(attachment@),
{
    let shown = attachment_type(attachment);
    if has_prefix(shown.as_str(), "image") {
        "image-x-generic-symbolic"
    } else {
        "document-open"
    }
}

/// Which parts of the window a message calls for.
pub struct DisplayPlan {
    /// Whether the reader can switch between text and HTML.
    pub offer_text_switch: bool,
    /// Whether the text is what is shown first.
    pub show_text: bool,
    /// Whether the list of attachments is shown.
    pub show_attachments: bool,
}

/// Lays out the window for a message: HTML is shown where there is any, the
/// switch is offered where there are both bodies, and the attachment list is
/// shown where it is not empty.
pub fn display_plan(has_text: bool, has_html: bool, attachments: usize) -> (plan: DisplayPlan)
    ensures
        plan.offer_text_switch == (has_text && has_html),
        plan.show_text == !has_html,
        plan.show_attachments == (attachments > 0),
{
    DisplayPlan {
        offer_text_switch: has_text && has_html,
        show_text: !has_html,
        show_attachments: attachments > 0,
    }
}

} // verus!
