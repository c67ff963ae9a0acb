//! The reply correlator's decision core.
//!
//! One sweep runs per tenant: for every recipient whose replied flag is
//! still false it searches the tenant's inbox for an `In-Reply-To` header
//! carrying that recipient's deterministic `Message-ID`. The IMAP session
//! itself runs outside; the search outcome is handed back to
//! `apply_search_result`, which drives the status tracker for matches.

use vstd::prelude::*;
use vstd::string::StringSliceAdditionalSpecFns;

use crate::message::spec_message_id;
use crate::model::Hub;
use crate::model::opt_bytes;
use crate::store::MailStore;
use crate::store::count_matching;
use crate::store::emails_set_num_replied;
use crate::store::emails_set_sent;
use crate::store::recips_set_replied;
use crate::store::replied_in;
use crate::bytes::copy_opt_bytes;
use crate::bytes::push_dec_i32;

verus! {

/// The validated IMAP endpoint and credentials of one tenant.
#[derive(Debug, PartialEq, Eq)]
pub struct ImapConfig {
    pub server: Vec<u8>,
    pub port: u16,
    pub login: Vec<u8>,
    pub password: Vec<u8>,
}

/// Why a tenant is skipped by one correlator sweep.
#[derive(Clone, Copy, Debug, PartialEq, Eq, Structural)]
pub enum CorrelatorError {
    MissingImapConfig,
    InvalidImapPort,
}

/// The tenant's IMAP configuration is complete: host, a port that fits
/// 16 bits, login and password are all present.
pub open spec fn spec_valid_imap(h: Hub) -> bool {
    &&& h.imap_server is Some
    &&& match h.imap_port {
        Some(p) => 0 <= p <= u16::MAX,
        None => false,
    }
    &&& h.login is Some
    &&& h.password is Some
}

/// Checks the tenant's IMAP configuration before a sweep; a tenant with
/// an incomplete configuration is skipped.
pub fn validate_imap_config(hub: &Hub) -> (r: Result<ImapConfig, CorrelatorError>)
    ensures
        r is Ok <==> spec_valid_imap(*hub),
        match r {
            Ok(c) => {
                &&& c.server@ == opt_bytes(hub.imap_server)
                &&& Some(c.port as i32) == hub.imap_port
                &&& c.login@ == opt_bytes(hub.login)
                &&& c.password@ == opt_bytes(hub.password)
            },
            Err(CorrelatorError::InvalidImapPort) => hub.imap_server is Some && (match hub
                .imap_port {
                Some(p) => !(0 <= p <= u16::MAX),
                None => false,
            }) && hub.login is Some && hub.password is Some,
            Err(CorrelatorError::MissingImapConfig) => hub.imap_server is None || hub.imap_port
                is None || hub.login is None || hub.password is None,
        },
{
    let port_value: i32 = match (&hub.imap_server, hub.imap_port, &hub.login, &hub.password) {
        (Some(_), Some(p), Some(_), Some(_)) => p,
        _ => {
            return Err(CorrelatorError::MissingImapConfig);
        },
    };
    if port_value < 0 || port_value > 65535 {
        return Err(CorrelatorError::InvalidImapPort);
    }
    Ok(
        ImapConfig {
            server: copy_opt_bytes(&hub.imap_server),
            port: port_value as u16,
            login: copy_opt_bytes(&hub.login),
            password: copy_opt_bytes(&hub.password),
        },
    )
}

/// The `In-Reply-To` value the correlator looks for: the recipient's
/// deterministic `Message-ID` in angle brackets.
pub open spec fn spec_in_reply_to(recipient_id: int, domain: Seq<u8>) -> Seq<u8> {
    "<".spec_bytes() + spec_message_id(recipient_id, domain) + ">".spec_bytes()
}

/// The IMAP header search issued for one recipient.
pub open spec fn spec_search_query(recipient_id: int, domain: Seq<u8>) -> Seq<u8> {
    "HEADER In-Reply-To ".spec_bytes() + spec_in_reply_to(recipient_id, domain)
}

/// The `In-Reply-To` value searched for one recipient.
pub fn in_reply_to_header(recipient_id: i32, domain: &[u8]) -> (r: Vec<u8>)
    ensures
        r@ == spec_in_reply_to(recipient_id as int, domain@),
{
    let mut r: Vec<u8> = Vec::new();
    r.extend_from_slice("<".as_bytes());
    push_dec_i32(&mut r, recipient_id);
    r.extend_from_slice("@".as_bytes());
    r.extend_from_slice(domain);
    r.extend_from_slice(">".as_bytes());
    proof {
        assert(r@ =~= spec_in_reply_to(recipient_id as int, domain@));
    }
    r
}

/// The IMAP header search issued for one recipient.
pub fn search_query(recipient_id: i32, domain: &[u8]) -> (r: Vec<u8>)
    ensures
        r@ == spec_search_query(recipient_id as int, domain@),
{
    let mut r: Vec<u8> = Vec::new();
    r.extend_from_slice("HEADER In-Reply-To ".as_bytes());
    let header = in_reply_to_header(recipient_id, domain);
    r.extend_from_slice(header.as_slice());
    proof {
        assert(r@ =~= spec_search_query(recipient_id as int, domain@));
    }
    r
}

/// Applies one recipient's search outcome: a non-empty search result
/// means the recipient replied, so the tracker marks it replied (which
/// also forces sent and opened), marks the campaign as sent and
/// re-derives the campaign's replied counter; an empty result leaves the
/// recipient unresolved for the next sweep.
pub fn apply_search_result(store: &mut MailStore, email_id: i32, recipient_id: i32, found: bool)
    requires
        old(store).recs_v().len() <= i32::MAX as int,
    ensures
        !found ==> *final(store) == *old(store),
        found ==> final(store).recs_v() == recips_set_replied(
            old(store).recs_v(),
            recipient_id as int,
        ),
        found ==> final(store).emails_v() == {
            let recs = recips_set_replied(old(store).recs_v(), recipient_id as int);
            let eid = email_id as int;
            emails_set_num_replied(
                emails_set_sent(old(store).emails_v(), eid, true),
                eid,
                count_matching(recs, replied_in(eid)) as int,
            )
        },
        old(store).wf() ==> final(store).wf(),
{
    if found {
        store.set_email_recipient_replied_status(email_id, recipient_id);
        store.update_email_num_replied(email_id);
    }
}

} // verus!
