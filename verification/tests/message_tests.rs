use pushkind_emailer::bytes::{bytes_eq, contains_bytes, dec_bytes_i32, replace_bytes};
use pushkind_emailer::message::{build_message, message_id, render_email_body};
use pushkind_emailer::model::{Email, EmailRecipient, Hub};

fn sample_hub(template: Option<&str>) -> Hub {
    Hub {
        id: 3,
        name: b"acme".to_vec(),
        login: Some(b"sender@acme.example".to_vec()),
        password: Some(b"SECRET-REDACTED".to_vec()),
        sender: Some(b"Acme Mailer".to_vec()),
        smtp_server: Some(b"smtp.acme.example".to_vec()),
        smtp_port: Some(465),
        created_at: None,
        updated_at: None,
        imap_server: Some(b"imap.acme.example".to_vec()),
        imap_port: Some(993),
        email_template: template.map(|t| t.as_bytes().to_vec()),
    }
}

fn sample_email(
    attachment: Option<&[u8]>,
    name: Option<&str>,
    mime: Option<&str>,
) -> Email {
    Email {
        id: 7,
        message: b"Hello there".to_vec(),
        created_at: 0,
        is_sent: false,
        subject: Some(b"News".to_vec()),
        attachment: attachment.map(|a| a.to_vec()),
        attachment_name: name.map(|n| n.as_bytes().to_vec()),
        attachment_mime: mime.map(|m| m.as_bytes().to_vec()),
        num_sent: 0,
        num_opened: 0,
        num_replied: 0,
        hub_id: 3,
    }
}

fn sample_recipient(id: i32) -> EmailRecipient {
    EmailRecipient {
        id,
        email_id: 7,
        address: b"to@client.example".to_vec(),
        opened: false,
        updated_at: 0,
        is_sent: false,
        replied: false,
    }
}

#[test]
fn message_id_is_id_at_domain() {
    assert_eq!(message_id(42, b"example.com"), b"42@example.com".to_vec());
    assert_eq!(message_id(101, b"example.com"), b"101@example.com".to_vec());
}

#[test]
fn unsubscribe_url_from_login() {
    let hub = sample_hub(None);
    assert_eq!(
        hub.get_usubscribe_url(),
        b"mailto:sender@acme.example?subject=unsubscribe".to_vec()
    );
    let bare = Hub::new(1);
    assert_eq!(bare.get_usubscribe_url(), Vec::<u8>::new());
}

#[test]
fn body_substitutes_message_placeholder() {
    let hub = sample_hub(Some("<p>{message}</p><a href=\"{unsubscribe_url}\">bye</a>"));
    let email = sample_email(None, None, None);
    let body = render_email_body(&hub, &email, 42, b"example.com");
    let mut expected = Vec::new();
    expected.extend_from_slice(b"<p>Hello there</p>");
    expected.extend_from_slice(b"<a href=\"mailto:sender@acme.example?subject=unsubscribe\">bye</a>");
    expected.extend_from_slice(b"<img height=\"1\" width=\"1\" border=\"0\" src=\"https://example.com/track/42\">");
    assert_eq!(body, expected);
}

#[test]
fn body_appends_template_without_placeholder() {
    let hub = sample_hub(Some("-- footer"));
    let email = sample_email(None, None, None);
    let body = render_email_body(&hub, &email, 9, b"example.com");
    let mut expected = Vec::new();
    expected.extend_from_slice(b"Hello there");
    expected.extend_from_slice(b"-- footer");
    expected.extend_from_slice(b"<img height=\"1\" width=\"1\" border=\"0\" src=\"https://example.com/track/9\">");
    assert_eq!(body, expected);
}

#[test]
fn body_without_template_is_message_and_pixel() {
    let hub = sample_hub(None);
    let email = sample_email(None, None, None);
    let body = render_email_body(&hub, &email, 9, b"example.com");
    let mut expected = Vec::new();
    expected.extend_from_slice(b"Hello there");
    expected.extend_from_slice(b"<img height=\"1\" width=\"1\" border=\"0\" src=\"https://example.com/track/9\">");
    assert_eq!(body, expected);
}

#[test]
fn body_replaces_every_placeholder_occurrence() {
    let hub = sample_hub(Some("{message}|{message}"));
    let email = sample_email(None, None, None);
    let body = render_email_body(&hub, &email, 1, b"d");
    let mut expected = Vec::new();
    expected.extend_from_slice(b"Hello there|Hello there");
    expected.extend_from_slice(b"<img height=\"1\" width=\"1\" border=\"0\" src=\"https://d/track/1\">");
    assert_eq!(body, expected);
}

#[test]
fn outbound_message_fields() {
    let hub = sample_hub(Some("{message}"));
    let email = sample_email(None, None, None);
    let recipient = sample_recipient(42);
    let m = build_message(&hub, &email, &recipient, b"example.com");
    assert_eq!(m.from_name, b"Acme Mailer".to_vec());
    assert_eq!(m.from_address, b"sender@acme.example".to_vec());
    assert_eq!(m.to_address, b"to@client.example".to_vec());
    assert_eq!(m.subject, b"News".to_vec());
    assert_eq!(m.message_id, b"42@example.com".to_vec());
    assert_eq!(
        m.list_unsubscribe,
        b"mailto:sender@acme.example?subject=unsubscribe".to_vec()
    );
    assert_eq!(m.html_body, m.text_body);
    assert!(m.attachment.is_none());
}

#[test]
fn attachment_round_trip_when_complete() {
    let hub = sample_hub(None);
    let email = sample_email(Some(b"\x01\x02\x03"), Some("report.pdf"), Some("application/pdf"));
    let recipient = sample_recipient(42);
    let m = build_message(&hub, &email, &recipient, b"example.com");
    let a = m.attachment.expect("one attachment part expected");
    assert_eq!(a.content, b"\x01\x02\x03".to_vec());
    assert_eq!(a.name, b"report.pdf".to_vec());
    assert_eq!(a.mime, b"application/pdf".to_vec());
}

#[test]
fn no_attachment_when_any_part_is_empty_or_absent() {
    let hub = sample_hub(None);
    let recipient = sample_recipient(42);
    let cases = [
        sample_email(None, Some("report.pdf"), Some("application/pdf")),
        sample_email(Some(b"\x01"), None, Some("application/pdf")),
        sample_email(Some(b"\x01"), Some("report.pdf"), None),
        sample_email(Some(b""), Some("report.pdf"), Some("application/pdf")),
        sample_email(Some(b"\x01"), Some(""), Some("application/pdf")),
        sample_email(Some(b"\x01"), Some("report.pdf"), Some("")),
    ];
    for email in cases {
        let m = build_message(&hub, &email, &recipient, b"example.com");
        assert!(m.attachment.is_none());
    }
}

#[test]
fn byte_utilities() {
    assert!(contains_bytes(b"abcdef", b"cde"));
    assert!(!contains_bytes(b"abcdef", b"xyz"));
    assert!(contains_bytes(b"abc", b""));
    assert_eq!(replace_bytes(b"a{x}b{x}", b"{x}", b"!"), b"a!b!".to_vec());
    assert_eq!(replace_bytes(b"aaa", b"aa", b"b"), b"ba".to_vec());
    assert_eq!(replace_bytes(b"abc", b"zz", b"!"), b"abc".to_vec());
    assert_eq!(dec_bytes_i32(0), b"0".to_vec());
    assert_eq!(dec_bytes_i32(-123), b"-123".to_vec());
    assert_eq!(dec_bytes_i32(i32::MAX), b"2147483647".to_vec());
    assert_eq!(dec_bytes_i32(i32::MIN), b"-2147483648".to_vec());
    assert!(bytes_eq(b"same", b"same"));
    assert!(!bytes_eq(b"same", b"sane"));
}
