use mailviewer::error::ParseError;
use mailviewer::message::{Decoded, Message, MessageParser};
use mailviewer::mime::{Address, MimeDate, MimeMessage};
use mailviewer::reader::{ContentReader, ReadAction, CHUNK_SIZE};
use mailviewer::text::decimal_text;
use mailviewer::{Attachment, MessageType};

fn mime(subject: &str) -> MimeMessage {
    MimeMessage {
        from: Some(vec![Address { text: Some("a@example.com".to_string()) }]),
        to: None,
        cc: None,
        bcc: None,
        subject: Some(subject.to_string()),
        date: MimeDate::Missing,
        parts: vec![],
    }
}

#[test]
fn reading_gathers_chunks_until_an_empty_one() {
    let mut reader = ContentReader::new();
    assert!(matches!(reader.next(false), ReadAction::Read(8192)));
    assert_eq!(CHUNK_SIZE, 8192);
    reader.accept(b"From: a\r\n");
    assert!(matches!(reader.next(false), ReadAction::Read(_)));
    reader.accept(b"\r\nbody");
    assert!(!reader.done);
    reader.accept(b"");
    assert!(reader.done);
    assert!(matches!(reader.next(false), ReadAction::Finish));
    assert!(matches!(reader.next(true), ReadAction::Finish));
    assert_eq!(reader.into_content(), b"From: a\r\n\r\nbody".to_vec());
}

#[test]
fn cancelled_read_is_no_failure() {
    let mut reader = ContentReader::new();
    assert!(matches!(reader.next(true), ReadAction::Fail(ParseError::Cancelled)));
    reader.accept(b"abc");
    assert!(matches!(reader.next(true), ReadAction::Fail(ParseError::Cancelled)));
    assert_eq!(reader.content, b"abc".to_vec());
    match ContentReader::read_failed("disk on fire".to_string()) {
        ParseError::IoFailed(cause) => assert_eq!(cause, "disk on fire"),
        other => panic!("unexpected error {:?}", other),
    }
}

#[test]
fn opening_tells_the_three_failures_apart() {
    let unread =
        MessageParser::open(Err("no such file".to_string()), None, Decoded::Mail(None), false);
    match unread {
        Err(ParseError::IoFailed(cause)) => assert_eq!(cause, "no such file"),
        _ => panic!("a failed read is an I/O failure"),
    }
    let undecoded = MessageParser::open(Ok(b"garbage".to_vec()), None, Decoded::Mail(None), false);
    assert!(matches!(undecoded, Err(ParseError::DecodeFailed(_))));
    let called_off =
        MessageParser::open(Ok(b"From: a".to_vec()), None, Decoded::Mail(Some(mime("s"))), true);
    assert!(matches!(called_off, Err(ParseError::Cancelled)));
    let called_off_unread =
        MessageParser::open(Err("gone".to_string()), None, Decoded::Mail(None), true);
    assert!(matches!(called_off_unread, Err(ParseError::Cancelled)));
    let not_outlook = MessageParser::open(
        Ok(b"From: a".to_vec()),
        Some("application/vnd.ms-outlook"),
        Decoded::Mail(Some(mime("s"))),
        false,
    );
    assert!(matches!(not_outlook, Err(ParseError::DecodeFailed(_))));
}

#[test]
fn opening_mail_gives_the_parsed_message() {
    let opened = MessageParser::open(
        Ok(b"From: a".to_vec()),
        None,
        Decoded::Mail(Some(mime("Hello"))),
        false,
    );
    let parser = match opened {
        Ok(parser) => parser,
        Err(e) => panic!("unexpected error {:?}", e),
    };
    assert_eq!(parser.message_type, MessageType::Eml);
    assert_eq!(parser.subject(), "Hello");
    assert_eq!(parser.from(), "a@example.com");
    assert_eq!(parser.to(), "");
    assert_eq!(parser.date(), "");
    assert_eq!(parser.body_text(), None);
    assert_eq!(parser.body_html(), None);
}

#[test]
fn numbers_are_written_in_decimal() {
    assert_eq!(decimal_text(0), "0");
    assert_eq!(decimal_text(7), "7");
    assert_eq!(decimal_text(10), "10");
    assert_eq!(decimal_text(1195), "1195");
    assert_eq!(decimal_text(90210), "90210");
    assert_eq!(decimal_text(usize::MAX), usize::MAX.to_string());
}

#[test]
fn short_write_is_reported_with_both_counts() {
    let a = Attachment {
        filename: "report.pdf".to_string(),
        content_id: "none".to_string(),
        body: vec![0u8; 120],
        mime_type: Some("application/pdf".to_string()),
    };
    assert_eq!(a.check_written("/home/me/report.pdf", 120), Ok(()));
    assert_eq!(
        a.check_written("/home/me/report.pdf", 64),
        Err("Failed to write Attachment(content_id: none, filename: report.pdf, mime_type: application/pdf) to file /home/me/report.pdf: only 64 of 120 bytes have been written".to_string())
    );
    assert!(a.check_written("", 0).is_err());
    assert!(a.check_written("", 121).is_err());
}
