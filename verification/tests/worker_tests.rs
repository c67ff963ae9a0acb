use pushkind_emailer::model::{Email, Hub};
use pushkind_emailer::store::MailStore;
use pushkind_emailer::worker::{
    dispatch_step, run_dispatch_pass, validate_smtp_config, DispatchError, DispatchEvent,
    DispatchState,
};

fn campaign(id: i32, hub_id: i32) -> Email {
    Email {
        id,
        message: b"hello".to_vec(),
        created_at: 0,
        is_sent: false,
        subject: None,
        attachment: None,
        attachment_name: None,
        attachment_mime: None,
        num_sent: 0,
        num_opened: 0,
        num_replied: 0,
        hub_id,
    }
}

fn full_hub() -> Hub {
    Hub {
        id: 3,
        name: b"acme".to_vec(),
        login: Some(b"sender@acme.example".to_vec()),
        password: Some(b"SECRET-REDACTED".to_vec()),
        sender: Some(b"Acme".to_vec()),
        smtp_server: Some(b"smtp.acme.example".to_vec()),
        smtp_port: Some(465),
        created_at: None,
        updated_at: None,
        imap_server: None,
        imap_port: None,
        email_template: None,
    }
}

#[test]
fn partial_failure_marks_campaign_attempted() {
    let mut s = MailStore::new();
    s.create_email(campaign(7, 3));
    s.create_email_recipient(101, 7, b"a@client.example".to_vec(), 0);
    s.create_email_recipient(102, 7, b"b@client.example".to_vec(), 0);
    let outcomes = vec![(101, true), (102, false)];
    run_dispatch_pass(&mut s, 7, &outcomes);
    assert!(s.get_email_recipient(101).unwrap().is_sent);
    assert!(!s.get_email_recipient(102).unwrap().is_sent);
    let e = s.get_email(7).unwrap();
    assert!(e.is_sent);
    assert_eq!(e.num_sent, 1);
}

#[test]
fn dispatch_pass_with_no_recipients_still_marks_campaign() {
    let mut s = MailStore::new();
    s.create_email(campaign(7, 3));
    run_dispatch_pass(&mut s, 7, &Vec::new());
    let e = s.get_email(7).unwrap();
    assert!(e.is_sent);
    assert_eq!(e.num_sent, 0);
}

#[test]
fn resend_never_decreases_flags() {
    let mut s = MailStore::new();
    s.create_email(campaign(7, 3));
    s.create_email_recipient(101, 7, b"a@client.example".to_vec(), 0);
    s.create_email_recipient(102, 7, b"b@client.example".to_vec(), 0);
    run_dispatch_pass(&mut s, 7, &vec![(101, true), (102, false)]);
    // second pass where the previously successful recipient now fails
    run_dispatch_pass(&mut s, 7, &vec![(101, false), (102, true)]);
    assert!(s.get_email_recipient(101).unwrap().is_sent);
    assert!(s.get_email_recipient(102).unwrap().is_sent);
    assert_eq!(s.get_email_recipients(7).len(), 2);
    assert_eq!(s.get_email(7).unwrap().num_sent, 2);
}

#[test]
fn smtp_config_validation() {
    let hub = full_hub();
    let c = validate_smtp_config(&hub).expect("complete config expected");
    assert_eq!(c.server, b"smtp.acme.example".to_vec());
    assert_eq!(c.port, 465);
    assert_eq!(c.login, b"sender@acme.example".to_vec());
    assert_eq!(c.password, b"SECRET-REDACTED".to_vec());
    assert_eq!(c.sender, b"Acme".to_vec());

    let mut no_server = full_hub();
    no_server.smtp_server = None;
    assert_eq!(validate_smtp_config(&no_server), Err(DispatchError::MissingSmtpServer));

    let mut no_port = full_hub();
    no_port.smtp_port = None;
    assert_eq!(validate_smtp_config(&no_port), Err(DispatchError::MissingSmtpPort));

    let mut bad_port = full_hub();
    bad_port.smtp_port = Some(70_000);
    assert_eq!(validate_smtp_config(&bad_port), Err(DispatchError::InvalidSmtpPort));
    bad_port.smtp_port = Some(-1);
    assert_eq!(validate_smtp_config(&bad_port), Err(DispatchError::InvalidSmtpPort));

    let mut no_login = full_hub();
    no_login.login = None;
    assert_eq!(validate_smtp_config(&no_login), Err(DispatchError::MissingLogin));

    let mut no_password = full_hub();
    no_password.password = None;
    assert_eq!(validate_smtp_config(&no_password), Err(DispatchError::MissingPassword));
}

#[test]
fn dispatch_state_machine_walk() {
    let s0 = DispatchState::Received { email_id: 5 };
    let s1 = dispatch_step(s0, DispatchEvent::JobAccepted);
    assert_eq!(s1, DispatchState::Loading { email_id: 5 });
    let s2 = dispatch_step(s1, DispatchEvent::Loaded { total: 2 });
    assert_eq!(s2, DispatchState::Sending { email_id: 5, next: 0, total: 2 });
    let s3 = dispatch_step(s2, DispatchEvent::SendCompleted);
    assert_eq!(s3, DispatchState::Sending { email_id: 5, next: 1, total: 2 });
    let s4 = dispatch_step(s3, DispatchEvent::SendCompleted);
    assert_eq!(s4, DispatchState::Finalizing { email_id: 5 });
    let s5 = dispatch_step(s4, DispatchEvent::Finalized);
    assert_eq!(s5, DispatchState::Done { email_id: 5 });

    let empty = dispatch_step(s1, DispatchEvent::Loaded { total: 0 });
    assert_eq!(empty, DispatchState::Finalizing { email_id: 5 });
    let failed = dispatch_step(s1, DispatchEvent::LoadFailed);
    assert_eq!(failed, DispatchState::Aborted { email_id: 5 });
    // an event that does not fit the phase changes nothing
    assert_eq!(dispatch_step(s4, DispatchEvent::JobAccepted), s4);
}
