use base64::{engine::general_purpose, Engine};
use mailviewer::mime::{Address, ContentType, DateTime, MimeDate, MimeMessage, MimePart};
use mailviewer::workspace::TempWorkspace;
use mailviewer::MailParser;

fn address(text: &str) -> Address {
    Address { text: Some(text.to_string()) }
}

fn text_type(subtype: &str) -> ContentType {
    ContentType {
        media_type: "text".to_string(),
        subtype: subtype.to_string(),
        charset: Some("UTF-8".to_string()),
    }
}

fn text_part(subtype: &str, content: &str) -> MimePart {
    MimePart {
        is_attachment: false,
        content_id: None,
        filename: None,
        content_type: Some(text_type(subtype)),
        content: Some(content.as_bytes().to_vec()),
    }
}

fn date() -> MimeDate {
    // Wed, 27 Sep 2023 14:28:00 +0000
    MimeDate::Parsed(DateTime::new(2023, 9, 27, 14, 28, 0).unwrap())
}

#[test]
fn sample() {
    let file: String;
    let mut workspace = TempWorkspace::new("/tmp");
    {
        let mime = MimeMessage {
            from: Some(vec![address("John Doe <john@moon.space>")]),
            to: Some(vec![address("Lucas <lucas@mercure.space>")]),
            cc: None,
            bcc: None,
            subject: Some("Lorem ipsum".to_string()),
            date: MimeDate::Parsed(DateTime::new(2024, 10, 23, 12, 27, 21).unwrap()),
            parts: vec![
                text_part("plain", "Hello Lucas,\n\nLorem ipsum dolor sit amet, consectetur adipiscing elit\n"),
                text_part("html", "<div dir=\"ltr\">Hello Lucas,<img src=\"cid:ii_m2lqbrhv0\"></div>"),
                MimePart {
                    is_attachment: false,
                    content_id: Some("ii_m2lqbrhv0".to_string()),
                    filename: Some("Deus_Gnome.png".to_string()),
                    content_type: Some(ContentType {
                        media_type: "image".to_string(),
                        subtype: "png".to_string(),
                        charset: None,
                    }),
                    content: Some(vec![0x89, 0x50, 0x4E, 0x47]),
                },
            ],
        };
        let mut parser = MailParser::new(Some(mime));
        parser.parse().unwrap();
        assert_eq!(parser.from, "John Doe <john@moon.space>");
        assert_eq!(parser.to, "Lucas <lucas@mercure.space>");
        assert_eq!(parser.subject, "Lorem ipsum");
        assert_eq!(parser.date, "2024-10-23 12:27:21");
        assert_eq!(parser.attachments.len(), 1);
        let attachment = &parser.attachments[0];
        assert_eq!(attachment.filename, "Deus_Gnome.png");
        assert_eq!(attachment.content_id, "ii_m2lqbrhv0");
        assert_eq!(attachment.mime_type.as_ref().unwrap(), "image/png");
        assert!(workspace.acquire());
        file = workspace.staging_path(attachment);
        assert_eq!(file, format!("{}/Deus_Gnome.png", workspace.path()));
        assert!(!workspace.acquire());
        assert_eq!(workspace.staging_path(attachment), file);
    }
    assert!(workspace.release());
    assert!(std::path::Path::new(&file).exists() == false);
    assert!(!workspace.release());
}

#[test]
fn test_parse_simple_email() {
    let mime = MimeMessage {
        from: Some(vec![address("sender@example.com")]),
        to: Some(vec![address("recipient@example.com")]),
        cc: None,
        bcc: None,
        subject: Some("Test Email".to_string()),
        date: date(),
        parts: vec![text_part("plain", "This is a test email body.\n")],
    };
    let mut parser = MailParser::new(Some(mime));
    parser.parse().unwrap();

    assert_eq!(parser.from, "sender@example.com");
    assert_eq!(parser.to, "recipient@example.com");
    assert_eq!(parser.subject, "Test Email");
    assert_eq!(parser.date, "2023-09-27 14:28:00");
    assert_eq!(parser.body_text, Some("This is a test email body.\n".to_string()));
    assert_eq!(parser.body_html, None);
    assert!(parser.attachments.is_empty());
}

#[test]
fn test_parse_email_with_html_and_attachments() {
    let expected_body = general_purpose::STANDARD.decode("iVBORw0KGgoAAAANSUhEUgAAAAUA").unwrap();
    let mime = MimeMessage {
        from: Some(vec![address("sender@example.com")]),
        to: Some(vec![address("recipient@example.com")]),
        cc: None,
        bcc: None,
        subject: Some("Test Email with HTML and Attachment".to_string()),
        date: date(),
        parts: vec![
            text_part(
                "html",
                "<html><body><p>This is a <strong>test</strong> email body.</p><img src=\"cid:image1\"></body></html>",
            ),
            MimePart {
                is_attachment: true,
                content_id: Some("image1".to_string()),
                filename: Some("image.png".to_string()),
                content_type: Some(ContentType {
                    media_type: "image".to_string(),
                    subtype: "png".to_string(),
                    charset: None,
                }),
                content: Some(expected_body.clone()),
            },
        ],
    };
    let mut parser = MailParser::new(Some(mime));
    parser.parse().unwrap();

    assert_eq!(parser.from, "sender@example.com");
    assert_eq!(parser.to, "recipient@example.com");
    assert_eq!(parser.subject, "Test Email with HTML and Attachment");
    assert_eq!(parser.date, "2023-09-27 14:28:00");

    assert!(parser.body_html.is_some());
    let expected_html = r#"<html><head></head><body><p>This is a <strong>test</strong> email body.</p><img src="data:image/png;base64,iVBORw0KGgoAAAANSUhEUgAAAAUA"></body></html>"#;
    assert_eq!(parser.body_html.as_ref().unwrap(), expected_html);

    assert_eq!(parser.attachments.len(), 1);
    let attachment = &parser.attachments[0];
    assert_eq!(attachment.filename, "image.png");
    assert_eq!(attachment.content_id, "image1");
    assert_eq!(attachment.mime_type.as_deref(), Some("image/png"));
    assert_eq!(attachment.body, expected_body);
}

#[test]
fn test_parse_email_with_multiple_recipients() {
    let mime = MimeMessage {
        from: Some(vec![address("sender@example.com")]),
        to: Some(vec![address("recipient1@example.com"), address("recipient2@example.com")]),
        cc: Some(vec![address("cc1@example.com")]),
        bcc: Some(vec![address("bcc1@example.com")]),
        subject: Some("Test Email with Multiple Recipients".to_string()),
        date: date(),
        parts: vec![text_part("plain", "This email has multiple recipients.\n")],
    };
    let mut parser = MailParser::new(Some(mime));
    parser.parse().unwrap();

    assert_eq!(parser.from, "sender@example.com");
    assert_eq!(
        parser.to,
        "recipient1@example.com, recipient2@example.com, cc1@example.com, bcc1@example.com"
    );
    assert_eq!(parser.subject, "Test Email with Multiple Recipients");
    assert_eq!(parser.date, "2023-09-27 14:28:00");
    assert_eq!(parser.body_text, Some("This email has multiple recipients.\n".to_string()));
    assert_eq!(parser.body_html, None);
    assert!(parser.attachments.is_empty());
}

#[test]
fn parser_without_a_message_fails_and_keeps_its_fields() {
    let mut parser = MailParser::new(None);
    assert!(parser.parse().is_err());
    assert_eq!(parser.from, "");
    assert!(parser.attachments.is_empty());
}
