use pushkind_emailer::model::{Email, EmailRecipient};
use pushkind_emailer::store::{MailStore, StoreError};

fn campaign(id: i32, hub_id: i32) -> Email {
    Email {
        id,
        message: b"hello".to_vec(),
        created_at: 0,
        is_sent: false,
        subject: None,
        attachment: None,
        attachment_name: None,
        attachment_mime: None,
        num_sent: 0,
        num_opened: 0,
        num_replied: 0,
        hub_id,
    }
}

fn store_with_two_recipients() -> MailStore {
    let mut s = MailStore::new();
    s.create_email(campaign(7, 3));
    s.create_email_recipient(101, 7, b"a@client.example".to_vec(), 0);
    s.create_email_recipient(102, 7, b"b@client.example".to_vec(), 0);
    s
}

fn recipient_by_id(s: &MailStore, id: i32) -> EmailRecipient {
    let r = s.get_email_recipient(id).expect("recipient expected");
    EmailRecipient {
        id: r.id,
        email_id: r.email_id,
        address: r.address.clone(),
        opened: r.opened,
        updated_at: r.updated_at,
        is_sent: r.is_sent,
        replied: r.replied,
    }
}

#[test]
fn mark_sent_is_idempotent() {
    let mut s = store_with_two_recipients();
    assert_eq!(s.set_email_recipient_sent_status(101, true), 1);
    assert!(recipient_by_id(&s, 101).is_sent);
    assert_eq!(s.set_email_recipient_sent_status(101, true), 1);
    assert!(recipient_by_id(&s, 101).is_sent);
    assert!(!recipient_by_id(&s, 102).is_sent);
}

#[test]
fn mark_opened_then_recompute_sent_counter() {
    let mut s = store_with_two_recipients();
    s.set_email_recipient_sent_status(101, true);
    s.set_email_recipient_opened_status(102, true);
    s.update_email_num_sent(7);
    assert_eq!(s.get_email(7).unwrap().num_sent, 1);
    s.set_email_recipient_opened_status(102, true);
    s.update_email_num_sent(7);
    assert_eq!(s.get_email(7).unwrap().num_sent, 1);
}

#[test]
fn counters_go_to_their_own_fields() {
    let mut s = store_with_two_recipients();
    s.set_email_recipient_sent_status(101, true);
    s.set_email_recipient_sent_status(102, true);
    s.set_email_recipient_opened_status(101, true);
    s.update_email_num_sent(7);
    s.update_email_num_opened(7);
    s.update_email_num_replied(7);
    let e = s.get_email(7).unwrap();
    assert_eq!(e.num_sent, 2);
    assert_eq!(e.num_opened, 1);
    assert_eq!(e.num_replied, 0);
}

#[test]
fn replied_forces_opened_and_sent() {
    let mut s = store_with_two_recipients();
    assert_eq!(s.set_email_recipient_replied_status(7, 101), 1);
    let r = recipient_by_id(&s, 101);
    assert!(r.replied && r.opened && r.is_sent);
    assert!(s.get_email(7).unwrap().is_sent);
    // a second observation is a no-op: the state already satisfies all three
    s.set_email_recipient_replied_status(7, 101);
    let again = recipient_by_id(&s, 101);
    assert!(again.replied && again.opened && again.is_sent);
    let other = recipient_by_id(&s, 102);
    assert!(!other.replied && !other.opened && !other.is_sent);
}

#[test]
fn reset_clears_sent_and_opened_but_not_replied() {
    let mut s = store_with_two_recipients();
    s.set_email_recipient_replied_status(7, 101);
    s.set_email_recipient_sent_status(102, true);
    s.reset_email_sent_and_opened_status(7);
    let r1 = recipient_by_id(&s, 101);
    assert!(r1.replied && !r1.opened && !r1.is_sent);
    let r2 = recipient_by_id(&s, 102);
    assert!(!r2.is_sent);
    assert!(!s.get_email(7).unwrap().is_sent);
}

#[test]
fn recipient_rows_are_unique_per_campaign_and_address() {
    let mut s = store_with_two_recipients();
    let rid = s.create_email_recipient(103, 7, b"a@client.example".to_vec(), 5);
    assert_eq!(rid, 101);
    assert_eq!(s.get_email_recipients(7).len(), 2);
    let rid2 = s.create_email_recipient(103, 7, b"c@client.example".to_vec(), 5);
    assert_eq!(rid2, 103);
    assert_eq!(s.get_email_recipients(7).len(), 3);
}

#[test]
fn lookups_report_not_found() {
    let s = store_with_two_recipients();
    assert!(matches!(s.get_email(8), Err(StoreError::NotFound)));
    assert!(matches!(s.get_email_recipient(999), Err(StoreError::NotFound)));
    assert_eq!(s.get_email(7).unwrap().id, 7);
    assert_eq!(s.get_email_recipient(101).unwrap().address, b"a@client.example".to_vec());
}

#[test]
fn pending_recipients_of_a_tenant() {
    let mut s = store_with_two_recipients();
    s.create_email(campaign(8, 4));
    s.create_email_recipient(201, 8, b"other@client.example".to_vec(), 0);
    s.set_email_recipient_replied_status(7, 101);
    let pending = s.get_hub_email_recipients_not_replied(3);
    assert_eq!(pending.len(), 1);
    assert_eq!(pending[0].id, 102);
    let other_hub = s.get_hub_email_recipients_not_replied(4);
    assert_eq!(other_hub.len(), 1);
    assert_eq!(other_hub[0].id, 201);
}

#[test]
fn campaigns_listed_with_their_recipients() {
    let mut s = store_with_two_recipients();
    s.create_email(campaign(8, 3));
    s.create_email_recipient(201, 8, b"c@client.example".to_vec(), 0);
    s.create_email(campaign(9, 4));
    let listed = s.get_hub_all_emails_with_recipients(3);
    assert_eq!(listed.len(), 2);
    assert_eq!(listed[0].0.id, 7);
    assert_eq!(listed[0].1.len(), 2);
    assert_eq!(listed[0].1[0].id, 101);
    assert_eq!(listed[1].0.id, 8);
    assert_eq!(listed[1].1.len(), 1);
    assert_eq!(listed[1].1[0].address, b"c@client.example".to_vec());
    assert!(s.get_hub_all_emails_with_recipients(5).is_empty());
}

#[test]
fn remove_email_drops_campaign_and_recipients() {
    let mut s = store_with_two_recipients();
    s.create_email(campaign(8, 3));
    s.create_email_recipient(201, 8, b"other@client.example".to_vec(), 0);
    let removed = s.remove_email(7);
    assert_eq!(removed, 2);
    assert!(matches!(s.get_email(7), Err(StoreError::NotFound)));
    assert!(s.get_email_recipients(7).is_empty());
    assert_eq!(s.get_email_recipients(8).len(), 1);
}
