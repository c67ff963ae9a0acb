//! The dispatch worker's decision core.
//!
//! A queue job runs through `Received -> Loading -> Sending x N ->
//! Finalizing -> Done`; loading aborts the job when the tenant's SMTP
//! configuration is incomplete. The network sends happen outside; their
//! per-recipient outcomes are handed back to `run_dispatch_pass`, which
//! applies the status updates, marks the campaign as attempted and
//! re-derives all three counters.

use vstd::prelude::*;

use crate::model::Hub;
use crate::model::opt_bytes;
use crate::queue::job_id_of_bytes;
use crate::store::MailStore;
use crate::store::RecipientView;
use crate::store::count_matching;
use crate::store::emails_set_num_opened;
use crate::store::emails_set_num_replied;
use crate::store::emails_set_num_sent;
use crate::store::emails_set_sent;
use crate::store::opened_in;
use crate::store::recips_set_sent;
use crate::store::replied_in;
use crate::store::sent_in;
use crate::bytes::copy_opt_bytes;

verus! {

/// The validated SMTP endpoint and credentials of one tenant.
#[derive(Debug, PartialEq, Eq)]
pub struct SmtpConfig {
    pub server: Vec<u8>,
    pub port: u16,
    pub login: Vec<u8>,
    pub password: Vec<u8>,
    pub sender: Vec<u8>,
}

/// Why a dispatch job is fatal before any send is attempted.
#[derive(Clone, Copy, Debug, PartialEq, Eq, Structural)]
pub enum DispatchError {
    MissingSmtpServer,
    MissingSmtpPort,
    InvalidSmtpPort,
    MissingLogin,
    MissingPassword,
}

/// The tenant's SMTP configuration is complete: host, a port that fits
/// 16 bits, login and password are all present.
pub open spec fn spec_valid_smtp(h: Hub) -> bool {
    &&& h.smtp_server is Some
    &&& match h.smtp_port {
        Some(p) => 0 <= p <= u16::MAX,
        None => false,
    }
    &&& h.login is Some
    &&& h.password is Some
}

/// Checks the tenant's SMTP configuration before a job's sends begin; an
/// incomplete configuration aborts the job. Fields are tested in the
/// order host, port, login, password.
pub fn validate_smtp_config(hub: &Hub) -> (r: Result<SmtpConfig, DispatchError>)
    ensures
        r is Ok <==> spec_valid_smtp(*hub),
        match r {
            Ok(c) => {
                &&& c.server@ == opt_bytes(hub.smtp_server)
                &&& Some(c.port as i32) == hub.smtp_port
                &&& c.login@ == opt_bytes(hub.login)
                &&& c.password@ == opt_bytes(hub.password)
                &&& c.sender@ == opt_bytes(hub.sender)
            },
            Err(DispatchError::MissingSmtpServer) => hub.smtp_server is None,
            Err(DispatchError::MissingSmtpPort) => hub.smtp_server is Some && hub.smtp_port is None,
            Err(DispatchError::InvalidSmtpPort) => hub.smtp_server is Some && match hub.smtp_port {
                Some(p) => !(0 <= p <= u16::MAX),
                None => false,
            },
            Err(DispatchError::MissingLogin) => hub.smtp_server is Some && (match hub.smtp_port {
                Some(p) => 0 <= p <= u16::MAX,
                None => false,
            }) && hub.login is None,
            Err(DispatchError::MissingPassword) => hub.smtp_server is Some && (match hub.smtp_port {
                Some(p) => 0 <= p <= u16::MAX,
                None => false,
            }) && hub.login is Some && hub.password is None,
        },
{
    let server = match &hub.smtp_server {
        Some(_) => copy_opt_bytes(&hub.smtp_server),
        None => {
            return Err(DispatchError::MissingSmtpServer);
        },
    };
    let port: u16 = match hub.smtp_port {
        Some(p) => {
            if p < 0 || p > 65535 {
                return Err(DispatchError::InvalidSmtpPort);
            }
            p as u16
        },
        None => {
            return Err(DispatchError::MissingSmtpPort);
        },
    };
    let login = match &hub.login {
        Some(_) => copy_opt_bytes(&hub.login),
        None => {
            return Err(DispatchError::MissingLogin);
        },
    };
    let password = match &hub.password {
        Some(_) => copy_opt_bytes(&hub.password),
        None => {
            return Err(DispatchError::MissingPassword);
        },
    };
    Ok(
        SmtpConfig {
            server,
            port,
            login,
            password,
            sender: copy_opt_bytes(&hub.sender),
        },
    )
}

/// The phase a dispatch job is in.
#[derive(Clone, Copy, Debug, PartialEq, Eq, Structural)]
pub enum DispatchState {
    Received { email_id: i32 },
    Loading { email_id: i32 },
    Sending { email_id: i32, next: usize, total: usize },
    Finalizing { email_id: i32 },
    Done { email_id: i32 },
    Aborted { email_id: i32 },
}

/// What happened since the last phase transition.
#[derive(Clone, Copy, Debug, PartialEq, Eq, Structural)]
pub enum DispatchEvent {
    JobAccepted,
    Loaded { total: usize },
    LoadFailed,
    SendCompleted,
    Finalized,
}

/// The transition table of one dispatch job. An event that does not fit
/// the current phase leaves the state unchanged.
pub open spec fn spec_dispatch_step(s: DispatchState, e: DispatchEvent) -> DispatchState {
    match (s, e) {
        (DispatchState::Received { email_id }, DispatchEvent::JobAccepted) => DispatchState::Loading {
            email_id,
        },
        (DispatchState::Loading { email_id }, DispatchEvent::Loaded { total }) => {
            if total == 0 {
                DispatchState::Finalizing { email_id }
            } else {
                DispatchState::Sending { email_id, next: 0, total }
            }
        },
        (DispatchState::Loading { email_id }, DispatchEvent::LoadFailed) => DispatchState::Aborted {
            email_id,
        },
        (DispatchState::Sending { email_id, next, total }, DispatchEvent::SendCompleted) => {
            if next + 1 < total {
                DispatchState::Sending { email_id, next: (next + 1) as usize, total }
            } else {
                DispatchState::Finalizing { email_id }
            }
        },
        (DispatchState::Finalizing { email_id }, DispatchEvent::Finalized) => DispatchState::Done {
            email_id,
        },
        _ => s,
    }
}

/// Advances one dispatch job by one event.
pub fn dispatch_step(s: DispatchState, e: DispatchEvent) -> (t: DispatchState)
    ensures
        t == spec_dispatch_step(s, e),
{
    match (s, e) {
        (DispatchState::Received { email_id }, DispatchEvent::JobAccepted) => DispatchState::Loading {
            email_id,
        },
        (DispatchState::Loading { email_id }, DispatchEvent::Loaded { total }) => {
            if total == 0 {
                DispatchState::Finalizing { email_id }
            } else {
                DispatchState::Sending { email_id, next: 0, total }
            }
        },
        (DispatchState::Loading { email_id }, DispatchEvent::LoadFailed) => DispatchState::Aborted {
            email_id,
        },
        (DispatchState::Sending { email_id, next, total }, DispatchEvent::SendCompleted) => {
            if next < usize::MAX && next + 1 < total {
                DispatchState::Sending { email_id, next: next + 1, total }
            } else {
                DispatchState::Finalizing { email_id }
            }
        },
        (DispatchState::Finalizing { email_id }, DispatchEvent::Finalized) => DispatchState::Done {
            email_id,
        },
        (other, _) => other,
    }
}

/// Decodes one 4-byte queue message and enters the Loading phase for the
/// campaign id it carries.
pub fn begin_job(buf: &[u8; 4]) -> (s: DispatchState)
    ensures
        s == (DispatchState::Loading { email_id: job_id_of_bytes(buf@) }),
{
    let email_id = crate::queue::decode_job_id(buf);
    dispatch_step(DispatchState::Received { email_id }, DispatchEvent::JobAccepted)
}

/// Recipient rows after the send outcomes of one dispatch pass were
/// applied in order: a successful send sets the recipient's sent flag, a
/// failed one changes nothing.
pub open spec fn spec_apply_outcomes(s: Seq<RecipientView>, outcomes: Seq<(i32, bool)>) -> Seq<
    RecipientView,
>
    decreases outcomes.len(),
{
    if outcomes.len() == 0 {
        s
    } else {
        let rest = spec_apply_outcomes(s, outcomes.drop_last());
        if outcomes.last().1 {
            recips_set_sent(rest, outcomes.last().0 as int, true)
        } else {
            rest
        }
    }
}

/// Applies one dispatch pass to the store: per-recipient send outcomes in
/// order, then the campaign is marked as attempted regardless of
/// individual failures, then all three counters are re-derived.
pub fn run_dispatch_pass(store: &mut MailStore, email_id: i32, outcomes: &Vec<(i32, bool)>)
    requires
        old(store).recs_v().len() <= i32::MAX as int,
    ensures
        final(store).recs_v() == spec_apply_outcomes(old(store).recs_v(), outcomes@),
        final(store).emails_v() == {
            let recs = spec_apply_outcomes(old(store).recs_v(), outcomes@);
            let eid = email_id as int;
            emails_set_num_replied(
                emails_set_num_opened(
                    emails_set_num_sent(
                        emails_set_sent(old(store).emails_v(), eid, true),
                        eid,
                        count_matching(recs, sent_in(eid)) as int,
                    ),
                    eid,
                    count_matching(recs, opened_in(eid)) as int,
                ),
                eid,
                count_matching(recs, replied_in(eid)) as int,
            )
        },
        old(store).wf() ==> final(store).wf(),
{
    let n = outcomes.len();
    let mut i: usize = 0;
    proof {
        assert(outcomes@.take(0) =~= Seq::<(i32, bool)>::empty());
    }
    while i < n
        invariant
            0 <= i <= n,
            n == outcomes@.len(),
            store.recs_v() == spec_apply_outcomes(old(store).recs_v(), outcomes@.take(i as int)),
            store.recs_v().len() == old(store).recs_v().len(),
            store.emails_v() == old(store).emails_v(),
            old(store).wf() ==> store.wf(),
        decreases n - i,
    {
        let (recipient_id, ok) = outcomes[i];
        let ghost prefix = outcomes@.take(i as int);
        proof {
            assert(outcomes@.take(i + 1).drop_last() =~= prefix);
            assert(outcomes@.take(i + 1).last() == outcomes@[i as int]);
        }
        if ok {
            store.set_email_recipient_sent_status(recipient_id, true);
        }
        i = i + 1;
    }
    proof {
        assert(outcomes@.take(n as int) =~= outcomes@);
    }
    store.set_email_sent_status(email_id, true);
    store.update_email_num_sent(email_id);
    store.update_email_num_opened(email_id);
    store.update_email_num_replied(email_id);
}

} // verus!

