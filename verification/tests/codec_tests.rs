use mailviewer::attachment::clone_attachments;
use mailviewer::electronicmail::resolve_source;
use mailviewer::error::ParseError;
use mailviewer::mime::{ContentType, DateTime};
use mailviewer::outlook::{OutlookAttachment, OutlookMessage};
use mailviewer::html::{closes_with, is_clean_node, same_names, same_opt};
use mailviewer::text::{
    eq_ignore_ascii_case, has_prefix, has_suffix, is_within_limit, join, latin1_to_string,
    skip_chars, str_eq,
};
use mailviewer::view::{attachment_icon, attachment_type, display_plan, link_action, LinkAction};
use mailviewer::workspace::TempWorkspace;
use mailviewer::Attachment;

fn attachment(content_id: &str, mime_type: Option<&str>, body: &[u8]) -> Attachment {
    Attachment {
        filename: "picture.png".to_string(),
        content_id: content_id.to_string(),
        body: body.to_vec(),
        mime_type: mime_type.map(|m| m.to_string()),
    }
}

fn encoded(body: &[u8]) -> String {
    let attachments = vec![attachment("x", Some("a/b"), body)];
    let uri = resolve_source("cid:x", &attachments).unwrap();
    uri.strip_prefix("data:a/b;base64,").unwrap().to_string()
}

#[test]
fn base64_pads_to_groups_of_four() {
    assert_eq!(encoded(b""), "");
    assert_eq!(encoded(b"M"), "TQ==");
    assert_eq!(encoded(b"Ma"), "TWE=");
    assert_eq!(encoded(b"Man"), "TWFu");
    assert_eq!(encoded(b"Many"), "TWFueQ==");
    assert_eq!(encoded(&[0xFB, 0xFF, 0xBE]), "+/++");
    assert_eq!(encoded(&[0x00, 0x10, 0x83, 0x10, 0x51, 0x87]), "ABCDEFGH");
    assert_eq!(encoded(&[0xD3, 0x5D, 0xB7, 0xE3, 0x9E, 0xBB, 0xF3, 0xDF, 0xBF]), "0123456789+/");
}

#[test]
fn source_resolves_to_the_first_attachment_with_the_id() {
    let attachments = vec![
        attachment("one", Some("image/png"), b"1"),
        attachment("two", Some("image/gif"), b"2"),
        attachment("two", Some("image/jpeg"), b"3"),
    ];
    assert_eq!(resolve_source("cid:two", &attachments).unwrap(), "data:image/gif;base64,Mg==");
    assert_eq!(resolve_source("cid:one", &attachments).unwrap(), "data:image/png;base64,MQ==");
    assert_eq!(resolve_source("cid:three", &attachments), None);
    assert_eq!(resolve_source("cid:", &attachments), None);
    assert_eq!(resolve_source("two", &attachments), None);
    assert_eq!(resolve_source("CID:two", &attachments), None);
    assert_eq!(resolve_source("http://example.com/two", &attachments), None);
}

fn payload(text: &str) -> Vec<u8> {
    let a = OutlookAttachment {
        file_name: "f".to_string(),
        mime_tag: "m".to_string(),
        payload: text.to_string(),
    };
    OutlookMessage::decode_attachment(&a).body
}

#[test]
fn hexadecimal_payloads_decode_in_either_case() {
    assert_eq!(payload(""), Vec::<u8>::new());
    assert_eq!(payload("00ff"), vec![0x00, 0xFF]);
    assert_eq!(payload("00FF"), vec![0x00, 0xFF]);
    assert_eq!(payload("0aF9b4Ca"), vec![0x0A, 0xF9, 0xB4, 0xCA]);
    assert_eq!(payload("0123456789abcdef"), vec![0x01, 0x23, 0x45, 0x67, 0x89, 0xAB, 0xCD, 0xEF]);
}

#[test]
fn broken_payloads_give_no_content() {
    assert_eq!(payload("abc"), Vec::<u8>::new());
    assert_eq!(payload("zz"), Vec::<u8>::new());
    assert_eq!(payload("0g"), Vec::<u8>::new());
    assert_eq!(payload("\u{e9}"), Vec::<u8>::new());
    assert_eq!(payload("00 ff"), Vec::<u8>::new());
}

#[test]
fn dates_are_written_with_leading_zeros() {
    assert_eq!(DateTime::new(2023, 9, 27, 14, 28, 0).unwrap().format(), "2023-09-27 14:28:00");
    assert_eq!(DateTime::new(2024, 10, 23, 12, 27, 21).unwrap().format(), "2024-10-23 12:27:21");
    assert_eq!(DateTime::new(7, 1, 2, 3, 4, 5).unwrap().format(), "0007-01-02 03:04:05");
    assert_eq!(DateTime::new(9999, 12, 31, 23, 59, 59).unwrap().format(), "9999-12-31 23:59:59");
    assert_eq!(DateTime::new(0, 1, 1, 0, 0, 0).unwrap().format(), "0000-01-01 00:00:00");
}

#[test]
fn dates_out_of_range_are_refused() {
    assert!(DateTime::new(10000, 1, 1, 0, 0, 0).is_none());
    assert!(DateTime::new(2024, 0, 1, 0, 0, 0).is_none());
    assert!(DateTime::new(2024, 13, 1, 0, 0, 0).is_none());
    assert!(DateTime::new(2024, 1, 0, 0, 0, 0).is_none());
    assert!(DateTime::new(2024, 1, 32, 0, 0, 0).is_none());
    assert!(DateTime::new(2024, 1, 1, 24, 0, 0).is_none());
    assert!(DateTime::new(2024, 1, 1, 0, 60, 0).is_none());
    assert!(DateTime::new(2024, 1, 1, 0, 0, 60).is_none());
}

#[test]
fn content_types_match_without_regard_to_case() {
    let html = ContentType {
        media_type: "Text".to_string(),
        subtype: "HTML".to_string(),
        charset: None,
    };
    assert!(html.is_type("text", "html"));
    assert!(html.is_type("TEXT", "Html"));
    assert!(html.is_type("text", "*"));
    assert!(html.is_type("*", "html"));
    assert!(html.is_type("*", "*"));
    assert!(!html.is_type("text", "plain"));
    assert!(!html.is_type("image", "html"));
    assert!(!html.is_type("*", "plain"));
    assert_eq!(html.mime_type(), "Text/HTML");
}

#[test]
fn texts_join_with_the_separator_between() {
    assert_eq!(join(&vec![], ", "), "");
    assert_eq!(join(&vec!["a".to_string()], ", "), "a");
    assert_eq!(join(&vec!["a".to_string(), "b".to_string(), "c".to_string()], ", "), "a, b, c");
    assert_eq!(join(&vec!["".to_string(), "".to_string()], "-"), "-");
}

#[test]
fn text_helpers() {
    assert_eq!(latin1_to_string(&[]), "");
    assert_eq!(latin1_to_string(&[0x41, 0xE9, 0xFF, 0x80]), "A\u{e9}\u{ff}\u{80}");
    assert!(eq_ignore_ascii_case("ISO-8859-1", "iso-8859-1"));
    assert!(!eq_ignore_ascii_case("\u{c9}", "\u{e9}"));
    assert!(!eq_ignore_ascii_case("abc", "abcd"));
    assert!(!eq_ignore_ascii_case("@", "`"));
    assert!(!eq_ignore_ascii_case("[", "{"));
    assert!(str_eq("abc", "abc"));
    assert!(!str_eq("abc", "abd"));
    assert!(has_prefix("cid:x", "cid:"));
    assert!(has_prefix("cid:", "cid:"));
    assert!(!has_prefix("cid", "cid:"));
    assert!(!has_prefix("ci:dx", "cid:"));
    assert!(has_prefix("anything", ""));
    assert_eq!(skip_chars("cid:\u{e9}x", 4), "\u{e9}x");
    assert_eq!(skip_chars("cid:", 4), "");
    assert_eq!(skip_chars("\u{e9}\u{e9}z", 2), "z");
}

#[test]
fn attachments_describe_and_copy_themselves() {
    let a = attachment("id1", Some("image/png"), &[1, 2, 3]);
    assert_eq!(
        a.describe(),
        "Attachment(content_id: id1, filename: picture.png, mime_type: image/png)"
    );
    let b = attachment("id2", None, &[]);
    assert_eq!(b.describe(), "Attachment(content_id: id2, filename: picture.png, mime_type: None)");
    let copy = a.clone();
    assert_eq!(copy.filename, a.filename);
    assert_eq!(copy.content_id, a.content_id);
    assert_eq!(copy.body, a.body);
    assert_eq!(copy.mime_type, a.mime_type);
    let all = clone_attachments(&vec![a, b]);
    assert_eq!(all.len(), 2);
    assert_eq!(all[0].content_id, "id1");
    assert_eq!(all[1].content_id, "id2");
    assert_eq!(all[1].mime_type, None);
}

#[test]
fn workspace_is_made_once_and_removed_once() {
    let mut workspace = TempWorkspace::with_token("/run/user/1000", "0123456789abcdef0123456789abcdef");
    assert_eq!(workspace.path(), "/run/user/1000/mailviewer/0123456789abcdef0123456789abcdef");
    assert!(!workspace.release());
    assert!(workspace.acquire());
    assert!(!workspace.acquire());
    let a = attachment("id", None, b"x");
    assert_eq!(
        workspace.staging_path(&a),
        "/run/user/1000/mailviewer/0123456789abcdef0123456789abcdef/picture.png"
    );
    assert_eq!(workspace.staging_path(&a), workspace.staging_path(&a.clone()));
    assert_eq!(a.tmp_path("/tmp/x"), "/tmp/x/picture.png");
    assert!(workspace.release());
    assert!(!workspace.release());
    assert!(workspace.acquire());
}

#[test]
fn sessions_get_tokens_of_their_own() {
    let first = TempWorkspace::new("/tmp");
    let second = TempWorkspace::new("/tmp");
    assert_ne!(first.path(), second.path());
    let path = first.path();
    let token = path.strip_prefix("/tmp/mailviewer/").unwrap();
    assert_eq!(token.len(), 32);
    assert!(token.chars().all(|c| c.is_ascii_digit() || ('a'..='f').contains(&c)));
}

#[test]
fn errors_have_a_text() {
    assert_eq!(ParseError::Cancelled.message(), "Operation was cancelled");
    assert_eq!(
        ParseError::IoFailed("no such file".to_string()).message(),
        "Unable to read the message: no such file"
    );
    assert_eq!(
        ParseError::DecodeFailed("bad header".to_string()).message(),
        "Unable to decode the message: bad header"
    );
    assert!(ParseError::Cancelled.is_cancelled());
    assert!(!ParseError::IoFailed(String::new()).is_cancelled());
}

#[test]
fn only_the_views_own_pages_load_in_the_view() {
    assert_eq!(link_action("about:blank"), LinkAction::Load);
    assert_eq!(link_action("about:"), LinkAction::Load);
    assert_eq!(link_action("https://example.com/"), LinkAction::OpenOutside);
    assert_eq!(link_action("mailto:someone@example.com"), LinkAction::OpenOutside);
    assert_eq!(link_action("About:blank"), LinkAction::OpenOutside);
    assert_eq!(link_action("abou"), LinkAction::OpenOutside);
    assert_eq!(link_action(""), LinkAction::OpenOutside);
}

#[test]
fn attachments_show_their_type_and_an_icon() {
    let picture = attachment("id", Some("image/png"), b"x");
    assert_eq!(attachment_type(&picture), "image/png");
    assert_eq!(attachment_icon(&picture), "image-x-generic-symbolic");
    let paper = attachment("id", Some("application/pdf"), b"x");
    assert_eq!(attachment_type(&paper), "application/pdf");
    assert_eq!(attachment_icon(&paper), "document-open");
    let untyped = attachment("id", None, b"x");
    assert_eq!(attachment_type(&untyped), "Unknown");
    assert_eq!(attachment_icon(&untyped), "document-open");
    let upper = attachment("id", Some("Image/PNG"), b"x");
    assert_eq!(attachment_icon(&upper), "document-open");
}

#[test]
fn window_shows_what_the_message_has() {
    let both = display_plan(true, true, 2);
    assert!(both.offer_text_switch && !both.show_text && both.show_attachments);
    let text_only = display_plan(true, false, 0);
    assert!(!text_only.offer_text_switch && text_only.show_text && !text_only.show_attachments);
    let html_only = display_plan(false, true, 1);
    assert!(!html_only.offer_text_switch && !html_only.show_text && html_only.show_attachments);
    let neither = display_plan(false, false, 0);
    assert!(!neither.offer_text_switch && neither.show_text && !neither.show_attachments);
}

#[test]
fn texts_end_with_their_tails() {
    assert!(has_suffix("abc\n", "\n"));
    assert!(has_suffix("\n", "\n"));
    assert!(has_suffix("abc", ""));
    assert!(has_suffix("", ""));
    assert!(has_suffix("caf\u{e9}s", "\u{e9}s"));
    assert!(!has_suffix("", "\n"));
    assert!(!has_suffix("abc", "abd"));
    assert!(!has_suffix("bc", "abc"));
    assert!(!has_suffix("\n ", "\n"));
}

#[test]
fn texts_within_the_limit_are_told_by_their_bytes() {
    assert!(is_within_limit(""));
    assert!(is_within_limit("caf\u{e9}"));
    let at_limit = "a".repeat(0x3FFF_FFFF);
    assert!(is_within_limit(&at_limit));
    let beyond = "a".repeat(0x4000_0000);
    assert!(!is_within_limit(&beyond));
}

#[test]
fn described_nodes_are_compared_by_name_attributes_and_text() {
    let style = Some("style".to_string());
    let other = Some("title".to_string());
    assert!(same_opt(&style, &style.clone()));
    assert!(same_opt(&None, &None));
    assert!(!same_opt(&style, &other));
    assert!(!same_opt(&style, &None));
    assert!(!same_opt(&None, &style));
    let a = vec!["id".to_string(), "media".to_string()];
    assert!(same_names(&a, &a.clone()));
    assert!(same_names(&vec![], &vec![]));
    assert!(!same_names(&a, &vec!["id".to_string()]));
    assert!(!same_names(&a, &vec!["media".to_string(), "id".to_string()]));
    assert!(closes_with(&Some("  \n".to_string()), &Some("\n".to_string())));
    assert!(closes_with(&None, &None));
    assert!(!closes_with(&Some("\n  ".to_string()), &Some("\n".to_string())));
    assert!(!closes_with(&None, &Some("\n".to_string())));
    assert!(!closes_with(&Some("\n".to_string()), &None));
    assert!(is_clean_node(&style, &vec!["media".to_string()]));
    assert!(is_clean_node(&None, &vec![]));
    assert!(!is_clean_node(&Some("script".to_string()), &vec![]));
    assert!(!is_clean_node(&style, &vec!["onload".to_string()]));
    assert!(!is_clean_node(&style, &vec!["class".to_string()]));
}
