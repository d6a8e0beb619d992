use mailviewer::config::VERSION;
use mailviewer::error::ParseError;
use mailviewer::mailservice::{MailService, SourceFile};
use mailviewer::message::{Decoded, MessageParser};
use mailviewer::mime::{Address, ContentType, DateTime, MimeDate, MimeMessage, MimePart};

const SAMPLE_EML: &str = "From: John Doe <john@moon.space>\r\nTo: Lucas <lucas@mercure.space>\r\nSubject: Lorem ipsum\r\nDate: Wed, 23 Oct 2024 12:27:21 +0200\r\n\r\nHello Lucas,\r\n";

fn sample_mime() -> MimeMessage {
    MimeMessage {
        from: Some(vec![Address { text: Some("John Doe <john@moon.space>".to_string()) }]),
        to: Some(vec![Address { text: Some("Lucas <lucas@mercure.space>".to_string()) }]),
        cc: None,
        bcc: None,
        subject: Some("Lorem ipsum".to_string()),
        date: MimeDate::Parsed(DateTime::new(2024, 10, 23, 12, 27, 21).unwrap()),
        parts: vec![
            MimePart {
                is_attachment: false,
                content_id: None,
                filename: None,
                content_type: Some(ContentType {
                    media_type: "text".to_string(),
                    subtype: "plain".to_string(),
                    charset: Some("UTF-8".to_string()),
                }),
                content: Some(
                    b"Hello Lucas,\n\nLorem ipsum dolor sit amet, consectetur adipiscing elit\n".to_vec(),
                ),
            },
            MimePart {
                is_attachment: false,
                content_id: None,
                filename: None,
                content_type: Some(ContentType {
                    media_type: "text".to_string(),
                    subtype: "html".to_string(),
                    charset: Some("UTF-8".to_string()),
                }),
                content: Some(b"<div dir=\"ltr\">Hello Lucas,<br></div>".to_vec()),
            },
            MimePart {
                is_attachment: false,
                content_id: Some("ii_m2lqbrhv0".to_string()),
                filename: Some("Deus_Gnome.png".to_string()),
                content_type: Some(ContentType {
                    media_type: "image".to_string(),
                    subtype: "png".to_string(),
                    charset: None,
                }),
                content: Some(vec![0x89, 0x50, 0x4E, 0x47]),
            },
        ],
    }
}

fn sample_file(name: &str) -> SourceFile {
    SourceFile { path: name.to_string(), basename: Some(name.to_string()) }
}

fn sample_parser() -> Result<MessageParser, ParseError> {
    let decoded = Decoded::Mail(Some(sample_mime()));
    MessageParser::open(Ok(SAMPLE_EML.as_bytes().to_vec()), None, decoded, false)
}

fn cancelled_parser() -> Result<MessageParser, ParseError> {
    let decoded = Decoded::Mail(Some(sample_mime()));
    MessageParser::open(Ok(SAMPLE_EML.as_bytes().to_vec()), None, decoded, true)
}

#[test]
fn new_mail_service() {
    let service = MailService::new();

    assert!(service.parser.is_none());
    assert!(service.file.is_none());
    assert_eq!(service.show_file_name, true);
}

#[test]
fn open_mail_file_not_found() {
    let mut service = MailService::new();
    let unread = MessageParser::open(
        Err("No such file or directory".to_string()),
        None,
        Decoded::Mail(None),
        false,
    );
    let result = service.open_message(sample_file("path/to/nonexistent.eml"), unread);

    assert!(result.is_err());
    let err = result.unwrap_err();

    if let ParseError::IoFailed(cause) = &err {
        assert_eq!(cause, "No such file or directory");
    } else {
        panic!("Expected an I/O failure, got: {}", err.message());
    }
}

#[test]
fn open_mail_success() {
    let mut service = MailService::new();
    assert!(service.open_message(sample_file("sample.eml"), sample_parser()).is_ok());
    assert_eq!(service.get_file().unwrap(), "sample.eml");
    assert_eq!(service.from(), "John Doe <john@moon.space>");
    assert_eq!(service.to(), "Lucas <lucas@mercure.space>");
    assert_eq!(service.subject(), "Lorem ipsum");
    assert_eq!(service.date(), "2024-10-23 12:27:21");
}

#[test]
fn get_text() {
    let mut service = MailService::new();
    service.open_message(sample_file("sample.eml"), sample_parser()).unwrap();
    let text = service.body_text().unwrap();

    assert!(text.contains("Lorem ipsum dolor sit amet, consectetur adipiscing elit"));
}

#[test]
fn get_html() {
    let mut service = MailService::new();
    service.open_message(sample_file("sample.eml"), sample_parser()).unwrap();
    let html = service.body_html().unwrap();

    assert!(html.contains("Hello Lucas,"));
}

#[test]
fn get_attachments() {
    let mut service = MailService::new();
    service.open_message(sample_file("sample.eml"), sample_parser()).unwrap();
    let attachments = service.attachments();

    assert_eq!(attachments.len(), 1);
    assert_eq!(attachments[0].filename, "Deus_Gnome.png");
}

#[test]
fn update_title_with_show_file_name() {
    let mut service = MailService::new();
    service.open_message(sample_file("sample.eml"), sample_parser()).unwrap();
    service.set_show_file_name(true);

    let file_title = sample_file("sample_title.eml");
    assert_eq!(service.get_title(&file_title), "sample_title.eml");
}

#[test]
fn update_title_without_show_file_name() {
    let mut service = MailService::new();
    service.set_show_file_name(false);
    assert_eq!(
        service.get_title(&sample_file("sample.eml")),
        format!("Mail Viewer v{}", VERSION)
    );
}

#[test]
fn connect_title_changed() {
    let mut service = MailService::new();
    let mut title_changed_called = false;
    service.connect_title_changed();

    if service.open_message(sample_file("sample.eml"), sample_parser()).unwrap().is_some() {
        title_changed_called = true;
    }
    assert!(title_changed_called);
    title_changed_called = false;
    if let Some(title) = service.set_show_file_name(false) {
        assert_eq!(title, format!("Mail Viewer v{}", VERSION));
        title_changed_called = true;
    }
    assert!(title_changed_called);
}

#[test]
fn cancelled_loading() {
    let mut service = MailService::new();
    let result = service.open_message(sample_file("sample.eml"), cancelled_parser());
    assert!(result.is_err());

    let err = result.unwrap_err();
    assert!(err.is_cancelled());
    assert!(matches!(err, ParseError::Cancelled));
    assert!(service.parser.is_none());
    assert_eq!(service.from(), "");
}

#[test]
fn no_title_is_announced_without_a_listener() {
    let mut service = MailService::new();
    assert_eq!(service.open_message(sample_file("a.eml"), sample_parser()).unwrap(), None);
    assert_eq!(service.set_show_file_name(false), None);
    service.connect_title_changed();
    assert_eq!(service.update_title(), Some(format!("Mail Viewer v{}", VERSION)));
    assert_eq!(service.set_show_file_name(true), Some("a.eml".to_string()));
}

#[test]
fn title_falls_back_where_the_file_has_no_name() {
    let service = MailService::new();
    let nameless = SourceFile { path: "/".to_string(), basename: None };
    assert_eq!(service.get_title(&nameless), "Mail Viewer v1.0.0");
}

#[test]
fn empty_service_answers_with_empty_fields() {
    let service = MailService::new();
    assert_eq!(service.from(), "");
    assert_eq!(service.to(), "");
    assert_eq!(service.subject(), "");
    assert_eq!(service.date(), "");
    assert_eq!(service.body_text(), None);
    assert_eq!(service.body_html(), None);
    assert!(service.attachments().is_empty());
    assert_eq!(service.get_file(), None);
    assert_eq!(service.update_title(), None);
}

#[test]
fn failed_open_keeps_the_message_that_was_open() {
    let mut service = MailService::new();
    service.open_message(sample_file("sample.eml"), sample_parser()).unwrap();
    let broken = MessageParser::open(Ok(b"not mail".to_vec()), None, Decoded::Mail(None), false);
    let result = service.open_message(sample_file("broken.eml"), broken);
    assert!(matches!(result, Err(ParseError::DecodeFailed(_))));
    assert_eq!(service.subject(), "Lorem ipsum");
    assert_eq!(service.get_file().unwrap(), "broken.eml");
}
