use pushkind_emailer::correlator::{
    apply_search_result, in_reply_to_header, search_query, validate_imap_config, CorrelatorError,
};
use pushkind_emailer::model::{Email, Hub};
use pushkind_emailer::store::MailStore;

fn campaign(id: i32, hub_id: i32) -> Email {
    Email {
        id,
        message: b"hello".to_vec(),
        created_at: 0,
        is_sent: false,
        subject: None,
        attachment: None,
        attachment_name: None,
        attachment_mime: None,
        num_sent: 0,
        num_opened: 0,
        num_replied: 0,
        hub_id,
    }
}

fn imap_hub() -> Hub {
    Hub {
        id: 3,
        name: b"acme".to_vec(),
        login: Some(b"sender@acme.example".to_vec()),
        password: Some(b"SECRET-REDACTED".to_vec()),
        sender: None,
        smtp_server: None,
        smtp_port: None,
        created_at: None,
        updated_at: None,
        imap_server: Some(b"imap.acme.example".to_vec()),
        imap_port: Some(993),
        email_template: None,
    }
}

#[test]
fn search_predicate_for_recipient() {
    assert_eq!(in_reply_to_header(42, b"example.com"), b"<42@example.com>".to_vec());
    assert_eq!(
        search_query(42, b"example.com"),
        b"HEADER In-Reply-To <42@example.com>".to_vec()
    );
}

#[test]
fn matched_reply_updates_recipient_and_campaign() {
    let mut s = MailStore::new();
    s.create_email(campaign(7, 3));
    s.create_email_recipient(101, 7, b"a@client.example".to_vec(), 0);
    // inbox held a message with header In-Reply-To: <101@example.com>
    apply_search_result(&mut s, 7, 101, true);
    let r = s.get_email_recipient(101).unwrap();
    assert!(r.replied && r.opened && r.is_sent);
    let e = s.get_email(7).unwrap();
    assert!(e.is_sent);
    assert_eq!(e.num_replied, 1);
}

#[test]
fn empty_search_leaves_recipient_unresolved() {
    let mut s = MailStore::new();
    s.create_email(campaign(7, 3));
    s.create_email_recipient(101, 7, b"a@client.example".to_vec(), 0);
    apply_search_result(&mut s, 7, 101, false);
    let r = s.get_email_recipient(101).unwrap();
    assert!(!r.replied && !r.opened && !r.is_sent);
    let e = s.get_email(7).unwrap();
    assert!(!e.is_sent);
    assert_eq!(e.num_replied, 0);
}

#[test]
fn imap_config_validation() {
    let hub = imap_hub();
    let c = validate_imap_config(&hub).expect("complete config expected");
    assert_eq!(c.server, b"imap.acme.example".to_vec());
    assert_eq!(c.port, 993);
    assert_eq!(c.login, b"sender@acme.example".to_vec());
    assert_eq!(c.password, b"SECRET-REDACTED".to_vec());

    let mut no_server = imap_hub();
    no_server.imap_server = None;
    assert_eq!(validate_imap_config(&no_server), Err(CorrelatorError::MissingImapConfig));

    let mut no_port = imap_hub();
    no_port.imap_port = None;
    assert_eq!(validate_imap_config(&no_port), Err(CorrelatorError::MissingImapConfig));

    let mut no_login = imap_hub();
    no_login.login = None;
    assert_eq!(validate_imap_config(&no_login), Err(CorrelatorError::MissingImapConfig));

    let mut bad_port = imap_hub();
    bad_port.imap_port = Some(100_000);
    assert_eq!(validate_imap_config(&bad_port), Err(CorrelatorError::InvalidImapPort));
}
