//! Data model of the delivery engine.
//!
//! A campaign (`Email`) owns a flat list of per-recipient rows
//! (`EmailRecipient`); a tenant (`Hub`) holds the SMTP/IMAP endpoint,
//! credentials, sender identity and the body template. All text is carried
//! as UTF-8 bytes, timestamps as seconds, so that every field is a plain
//! value that contracts can speak about directly.

use vstd::prelude::*;

verus! {

/// A campaign: subject, body template, optional attachment, and the
/// aggregate counters that are re-derived from the recipient rows.
#[derive(Clone, Debug)]
pub struct Email {
    pub id: i32,
    pub message: Vec<u8>,
    pub created_at: i64,
    pub is_sent: bool,
    pub subject: Option<Vec<u8>>,
    pub attachment: Option<Vec<u8>>,
    pub attachment_name: Option<Vec<u8>>,
    pub attachment_mime: Option<Vec<u8>>,
    pub num_sent: i32,
    pub num_opened: i32,
    pub num_replied: i32,
    pub hub_id: i32,
}

/// One recipient row of a campaign, with the three independent status
/// booleans that the tracker mutates in place.
#[derive(Clone, Debug)]
pub struct EmailRecipient {
    pub id: i32,
    pub email_id: i32,
    pub address: Vec<u8>,
    pub opened: bool,
    pub updated_at: i64,
    pub is_sent: bool,
    pub replied: bool,
}

/// A tenant: SMTP/IMAP endpoint, credentials, sender identity and the
/// optional body template with its placeholders.
#[derive(Clone, Debug)]
pub struct Hub {
    pub id: i32,
    pub name: Vec<u8>,
    pub login: Option<Vec<u8>>,
    pub password: Option<Vec<u8>>,
    pub sender: Option<Vec<u8>>,
    pub smtp_server: Option<Vec<u8>>,
    pub smtp_port: Option<i32>,
    pub created_at: Option<i64>,
    pub updated_at: Option<i64>,
    pub imap_server: Option<Vec<u8>>,
    pub imap_port: Option<i32>,
    pub email_template: Option<Vec<u8>>,
}

/// One address-book recipient of a tenant, independent of any campaign.
#[derive(Clone, Debug)]
pub struct Recipient {
    pub id: i32,
    pub name: Vec<u8>,
    pub email: Vec<u8>,
    pub hub_id: i32,
    pub created_at: Option<i64>,
    pub updated_at: Option<i64>,
}

/// A named group of address-book recipients.
#[derive(Clone, Debug)]
pub struct Group {
    pub id: i32,
    pub name: Vec<u8>,
    pub hub_id: i32,
    pub created_at: Option<i64>,
    pub updated_at: Option<i64>,
}

/// Membership of one recipient in one group.
#[derive(Clone, Copy, Debug, PartialEq, Eq, Structural)]
pub struct GroupRecipient {
    pub group_id: i32,
    pub recipient_id: i32,
}

/// One custom field of an address-book recipient.
#[derive(Clone, Debug)]
pub struct RecipientField {
    pub recipient_id: i32,
    pub field: Vec<u8>,
    pub value: Vec<u8>,
}

/// The byte view of an optional text field, empty when the field is absent.
pub open spec fn opt_bytes(o: Option<Vec<u8>>) -> Seq<u8> {
    match o {
        Some(v) => v@,
        None => Seq::<u8>::empty(),
    }
}

impl Hub {
    /// A tenant with only its id set, as the settings page falls back to
    /// when the tenant row cannot be read.
    pub fn new(id: i32) -> (h: Hub)
        ensures
            h.id == id,
            h.name@ == Seq::<u8>::empty(),
            h.login is None,
            h.password is None,
            h.sender is None,
            h.smtp_server is None,
            h.smtp_port is None,
            h.created_at is None,
            h.updated_at is None,
            h.imap_server is None,
            h.imap_port is None,
            h.email_template is None,
    {
        Hub {
            id,
            name: Vec::new(),
            login: None,
            password: None,
            sender: None,
            smtp_server: None,
            smtp_port: None,
            created_at: None,
            updated_at: None,
            imap_server: None,
            imap_port: None,
            email_template: None,
        }
    }
}

} // verus!
