use pushkind_emailer::model::Email;
use pushkind_emailer::recipients::{upsert_recipient_action, RecipientUpsert};
use pushkind_emailer::store::{MailStore, StoreError};

fn campaign(id: i32, hub_id: i32) -> Email {
    Email {
        id,
        message: b"hello".to_vec(),
        created_at: 0,
        is_sent: false,
        subject: None,
        attachment: None,
        attachment_name: None,
        attachment_mime: None,
        num_sent: 0,
        num_opened: 0,
        num_replied: 0,
        hub_id,
    }
}

#[test]
fn pixel_fetch_marks_opened_and_recomputes_counter() {
    let mut s = MailStore::new();
    s.create_email(campaign(7, 3));
    s.create_email_recipient(101, 7, b"a@client.example".to_vec(), 0);
    s.create_email_recipient(102, 7, b"b@client.example".to_vec(), 0);
    let email_id = s.track_email_open(101).expect("known recipient expected");
    assert_eq!(email_id, 7);
    assert!(s.get_email_recipient(101).unwrap().opened);
    assert!(!s.get_email_recipient(102).unwrap().opened);
    assert_eq!(s.get_email(7).unwrap().num_opened, 1);
    // fetching the pixel again changes nothing
    s.track_email_open(101).unwrap();
    assert_eq!(s.get_email(7).unwrap().num_opened, 1);
}

#[test]
fn pixel_fetch_for_unknown_recipient_changes_nothing() {
    let mut s = MailStore::new();
    s.create_email(campaign(7, 3));
    s.create_email_recipient(101, 7, b"a@client.example".to_vec(), 0);
    assert!(matches!(s.track_email_open(999), Err(StoreError::NotFound)));
    assert!(!s.get_email_recipient(101).unwrap().opened);
    assert_eq!(s.get_email(7).unwrap().num_opened, 0);
}

#[test]
fn csv_upsert_decisions() {
    assert_eq!(
        upsert_recipient_action(&Some((5, b"Alice".to_vec())), b"Alice"),
        RecipientUpsert::Keep { recipient_id: 5 }
    );
    assert_eq!(
        upsert_recipient_action(&Some((5, b"Alice".to_vec())), b"Alicia"),
        RecipientUpsert::UpdateName { recipient_id: 5 }
    );
    assert_eq!(upsert_recipient_action(&None, b"Alice"), RecipientUpsert::Insert);
}
