//! The delivery status tracker.
//!
//! Campaign and recipient rows live in a `MailStore`; every tracker
//! operation is an idempotent in-place state setter, and the aggregate
//! counters are always re-derived from the recipient booleans, never
//! incremented, so that partial failures and reruns cannot make them
//! drift.

use vstd::prelude::*;

use crate::bytes::copy_bytes;
use crate::model::Email;
use crate::model::EmailRecipient;

verus! {

/// The mathematical value of one recipient row.
#[verifier::ext_equal]
pub ghost struct RecipientView {
    pub id: int,
    pub email_id: int,
    pub address: Seq<u8>,
    pub opened: bool,
    pub updated_at: int,
    pub is_sent: bool,
    pub replied: bool,
}

/// The mathematical value of one campaign row.
#[verifier::ext_equal]
pub ghost struct EmailView {
    pub id: int,
    pub message: Seq<u8>,
    pub created_at: int,
    pub is_sent: bool,
    pub subject: Option<Seq<u8>>,
    pub attachment: Option<Seq<u8>>,
    pub attachment_name: Option<Seq<u8>>,
    pub attachment_mime: Option<Seq<u8>>,
    pub num_sent: int,
    pub num_opened: int,
    pub num_replied: int,
    pub hub_id: int,
}

/// The view of an optional byte field, kept optional.
pub open spec fn opt_view(o: Option<Vec<u8>>) -> Option<Seq<u8>> {
    match o {
        Some(v) => Some(v@),
        None => None,
    }
}

impl View for EmailRecipient {
    type V = RecipientView;

    open spec fn view(&self) -> RecipientView {
        RecipientView {
            id: self.id as int,
            email_id: self.email_id as int,
            address: self.address@,
            opened: self.opened,
            updated_at: self.updated_at as int,
            is_sent: self.is_sent,
            replied: self.replied,
        }
    }
}

impl View for Email {
    type V = EmailView;

    open spec fn view(&self) -> EmailView {
        EmailView {
            id: self.id as int,
            message: self.message@,
            created_at: self.created_at as int,
            is_sent: self.is_sent,
            subject: opt_view(self.subject),
            attachment: opt_view(self.attachment),
            attachment_name: opt_view(self.attachment_name),
            attachment_mime: opt_view(self.attachment_mime),
            num_sent: self.num_sent as int,
            num_opened: self.num_opened as int,
            num_replied: self.num_replied as int,
            hub_id: self.hub_id as int,
        }
    }
}

/// Error of a store operation: the addressed row does not exist.
#[derive(Clone, Copy, Debug, PartialEq, Eq, Structural)]
pub enum StoreError {
    NotFound,
}

/// The campaign and recipient rows of the system, the only state the
/// delivery engine mutates.
pub struct MailStore {
    pub emails: Vec<Email>,
    pub recipients: Vec<EmailRecipient>,
}

/// How many recipient views from position `i` on satisfy `p`.
pub open spec fn count_from(s: Seq<RecipientView>, p: spec_fn(RecipientView) -> bool, i: nat) -> nat
    decreases s.len() - i,
{
    if i >= s.len() {
        0
    } else {
        (if p(s[i as int]) {
            1nat
        } else {
            0nat
        }) + count_from(s, p, (i + 1) as nat)
    }
}

/// How many recipient views satisfy `p`.
pub open spec fn count_matching(s: Seq<RecipientView>, p: spec_fn(RecipientView) -> bool) -> nat {
    count_from(s, p, 0)
}

/// A count over a suffix never exceeds the suffix length.
pub proof fn lemma_count_from_le(s: Seq<RecipientView>, p: spec_fn(RecipientView) -> bool, i: nat)
    ensures
        count_from(s, p, i) <= s.len() - i || i >= s.len(),
        count_from(s, p, i) <= s.len(),
    decreases s.len() - i,
{
    if i < s.len() {
        lemma_count_from_le(s, p, (i + 1) as nat);
    }
}

/// The elements from position `i` on that satisfy `p`, in order.
pub open spec fn select_from<T>(s: Seq<T>, p: spec_fn(T) -> bool, i: nat) -> Seq<T>
    decreases s.len() - i,
{
    if i >= s.len() {
        Seq::<T>::empty()
    } else if p(s[i as int]) {
        seq![s[i as int]] + select_from(s, p, (i + 1) as nat)
    } else {
        select_from(s, p, (i + 1) as nat)
    }
}

/// The elements that satisfy `p`, in order.
pub open spec fn select_matching<T>(s: Seq<T>, p: spec_fn(T) -> bool) -> Seq<T> {
    select_from(s, p, 0)
}

/// Every element of a selection is an element of the suffix it was
/// selected from.
pub proof fn lemma_select_from_elements<T>(s: Seq<T>, p: spec_fn(T) -> bool, i: nat)
    ensures
        forall|k: int|
            0 <= k < select_from(s, p, i).len() ==> exists|j: int|
                i <= j < s.len() && #[trigger] select_from(s, p, i)[k] == s[j],
    decreases s.len() - i,
{
    if i >= s.len() {
    } else {
        lemma_select_from_elements(s, p, (i + 1) as nat);
        assert forall|k: int| 0 <= k < select_from(s, p, i).len() implies exists|j: int|
            i <= j < s.len() && #[trigger] select_from(s, p, i)[k] == s[j] by {
            if p(s[i as int]) {
                if k == 0 {
                    assert(select_from(s, p, i)[0] == s[i as int]);
                } else {
                    assert(select_from(s, p, i)[k] == select_from(s, p, (i + 1) as nat)[k - 1]);
                }
            } else {
                assert(select_from(s, p, i)[k] == select_from(s, p, (i + 1) as nat)[k]);
            }
        }
    }
}

/// A pairwise relation that holds across a suffix holds across what is
/// selected from it.
pub proof fn lemma_select_from_pairwise<T>(
    s: Seq<T>,
    p: spec_fn(T) -> bool,
    i: nat,
    r: spec_fn(T, T) -> bool,
)
    requires
        forall|a: int, b: int| i <= a < b < s.len() ==> #[trigger] r(s[a], s[b]),
    ensures
        forall|a: int, b: int|
            0 <= a < b < select_from(s, p, i).len() ==> #[trigger] r(
                select_from(s, p, i)[a],
                select_from(s, p, i)[b],
            ),
    decreases s.len() - i,
{
    if i >= s.len() {
    } else {
        lemma_select_from_pairwise(s, p, (i + 1) as nat, r);
        lemma_select_from_elements(s, p, (i + 1) as nat);
        let sel = select_from(s, p, i);
        let rest = select_from(s, p, (i + 1) as nat);
        assert forall|a: int, b: int| 0 <= a < b < sel.len() implies #[trigger] r(
            sel[a],
            sel[b],
        ) by {
            if p(s[i as int]) {
                if a == 0 {
                    assert(sel[b] == rest[b - 1]);
                    let j = choose|j: int| i + 1 <= j < s.len() && rest[b - 1] == s[j];
                    assert(r(s[i as int], s[j]));
                } else {
                    assert(sel[a] == rest[a - 1] && sel[b] == rest[b - 1]);
                }
            } else {
                assert(sel[a] == rest[a] && sel[b] == rest[b]);
            }
        }
    }
}

/// Which aggregate counter a recompute re-derives.
#[derive(Clone, Copy, Debug, PartialEq, Eq, Structural)]
pub enum CounterKind {
    Sent,
    Opened,
    Replied,
}

/// The recipient rows that the counter of this kind counts for campaign
/// `eid`.
pub open spec fn counter_pred(kind: CounterKind, eid: int) -> spec_fn(RecipientView) -> bool {
    match kind {
        CounterKind::Sent => sent_in(eid),
        CounterKind::Opened => opened_in(eid),
        CounterKind::Replied => replied_in(eid),
    }
}

/// The recipient belongs to campaign `eid` and was sent.
pub open spec fn sent_in(eid: int) -> spec_fn(RecipientView) -> bool {
    |v: RecipientView| v.email_id == eid && v.is_sent
}

/// The recipient belongs to campaign `eid` and was opened.
pub open spec fn opened_in(eid: int) -> spec_fn(RecipientView) -> bool {
    |v: RecipientView| v.email_id == eid && v.opened
}

/// The recipient belongs to campaign `eid` and replied.
pub open spec fn replied_in(eid: int) -> spec_fn(RecipientView) -> bool {
    |v: RecipientView| v.email_id == eid && v.replied
}

/// The recipient belongs to campaign `eid`.
pub open spec fn in_email(eid: int) -> spec_fn(RecipientView) -> bool {
    |v: RecipientView| v.email_id == eid
}

/// The recipient does not belong to campaign `eid`.
pub open spec fn not_in_email(eid: int) -> spec_fn(RecipientView) -> bool {
    |v: RecipientView| v.email_id != eid
}

/// The campaign row is not the one with id `eid`.
pub open spec fn not_email(eid: int) -> spec_fn(EmailView) -> bool {
    |e: EmailView| e.id != eid
}

/// Some campaign row with id `eid` belongs to tenant `hid`.
pub open spec fn hub_owns(es: Seq<EmailView>, eid: int, hid: int) -> bool {
    exists|i: int| 0 <= i < es.len() && es[i].id == eid && es[i].hub_id == hid
}

/// The recipient has not replied yet and its campaign belongs to tenant
/// `hid`: the rows one correlator sweep still has to resolve.
pub open spec fn pending_for_hub(es: Seq<EmailView>, hid: int) -> spec_fn(RecipientView) -> bool {
    |v: RecipientView| hub_owns(es, v.email_id, hid) && !v.replied
}

/// The mathematical value of a sequence of recipient rows.
pub open spec fn recs_view_of(s: Seq<EmailRecipient>) -> Seq<RecipientView> {
    s.map_values(|r: EmailRecipient| r@)
}

/// The mathematical value of a sequence of campaign rows.
pub open spec fn emails_view_of(s: Seq<Email>) -> Seq<EmailView> {
    s.map_values(|e: Email| e@)
}

/// The campaign belongs to tenant `hid`.
pub open spec fn of_hub(hid: int) -> spec_fn(EmailView) -> bool {
    |e: EmailView| e.hub_id == hid
}

/// The mathematical value of campaign rows paired with recipient rows.
pub open spec fn pairs_views(s: Seq<(Email, Vec<EmailRecipient>)>) -> Seq<
    (EmailView, Seq<RecipientView>),
> {
    s.map_values(|p: (Email, Vec<EmailRecipient>)| (p.0@, recs_view_of(p.1@)))
}

/// Each campaign from position `i` on, paired with its recipient rows.
pub open spec fn emails_with_recipients_from(
    emails: Seq<EmailView>,
    recs: Seq<RecipientView>,
    i: nat,
) -> Seq<(EmailView, Seq<RecipientView>)>
    decreases emails.len() - i,
{
    if i >= emails.len() {
        Seq::<(EmailView, Seq<RecipientView>)>::empty()
    } else {
        seq![(emails[i as int], select_matching(recs, in_email(emails[i as int].id)))]
            + emails_with_recipients_from(emails, recs, (i + 1) as nat)
    }
}

/// Recipient rows with the sent flag of row `rid` set to `status`.
pub open spec fn recips_set_sent(s: Seq<RecipientView>, rid: int, status: bool) -> Seq<
    RecipientView,
> {
    s.map_values(
        |v: RecipientView|
            if v.id == rid {
                RecipientView { is_sent: status, ..v }
            } else {
                v
            },
    )
}

/// Recipient rows with the opened flag of row `rid` set to `status`.
pub open spec fn recips_set_opened(s: Seq<RecipientView>, rid: int, status: bool) -> Seq<
    RecipientView,
> {
    s.map_values(
        |v: RecipientView|
            if v.id == rid {
                RecipientView { opened: status, ..v }
            } else {
                v
            },
    )
}

/// Recipient rows after a reply of row `rid` was observed: replied, and as
/// a forced side effect also sent and opened.
pub open spec fn recips_set_replied(s: Seq<RecipientView>, rid: int) -> Seq<RecipientView> {
    s.map_values(
        |v: RecipientView|
            if v.id == rid {
                RecipientView { replied: true, is_sent: true, opened: true, ..v }
            } else {
                v
            },
    )
}

/// Recipient rows of campaign `eid` with sent and opened cleared, as the
/// manual retry action does.
pub open spec fn recips_reset(s: Seq<RecipientView>, eid: int) -> Seq<RecipientView> {
    s.map_values(
        |v: RecipientView|
            if v.email_id == eid {
                RecipientView { opened: false, is_sent: false, ..v }
            } else {
                v
            },
    )
}

/// Campaign rows with the sent flag of campaign `eid` set to `status`.
pub open spec fn emails_set_sent(s: Seq<EmailView>, eid: int, status: bool) -> Seq<EmailView> {
    s.map_values(
        |e: EmailView|
            if e.id == eid {
                EmailView { is_sent: status, ..e }
            } else {
                e
            },
    )
}

/// Campaign rows with the sent counter of campaign `eid` set to `c`.
pub open spec fn emails_set_num_sent(s: Seq<EmailView>, eid: int, c: int) -> Seq<EmailView> {
    s.map_values(
        |e: EmailView|
            if e.id == eid {
                EmailView { num_sent: c, ..e }
            } else {
                e
            },
    )
}

/// Campaign rows with the opened counter of campaign `eid` set to `c`.
pub open spec fn emails_set_num_opened(s: Seq<EmailView>, eid: int, c: int) -> Seq<EmailView> {
    s.map_values(
        |e: EmailView|
            if e.id == eid {
                EmailView { num_opened: c, ..e }
            } else {
                e
            },
    )
}

/// Campaign rows with the replied counter of campaign `eid` set to `c`.
pub open spec fn emails_set_num_replied(s: Seq<EmailView>, eid: int, c: int) -> Seq<EmailView> {
    s.map_values(
        |e: EmailView|
            if e.id == eid {
                EmailView { num_replied: c, ..e }
            } else {
                e
            },
    )
}

/// A fresh copy of an optional byte field.
pub fn clone_opt_bytes(o: &Option<Vec<u8>>) -> (r: Option<Vec<u8>>)
    ensures
        opt_view(r) == opt_view(*o),
{
    match o {
        Some(v) => Some(copy_bytes(v)),
        None => None,
    }
}

/// A fresh copy of one recipient row with the same value.
pub fn clone_recipient(x: &EmailRecipient) -> (r: EmailRecipient)
    ensures
        r@ == x@,
{
    EmailRecipient {
        id: x.id,
        email_id: x.email_id,
        address: copy_bytes(&x.address),
        opened: x.opened,
        updated_at: x.updated_at,
        is_sent: x.is_sent,
        replied: x.replied,
    }
}

/// A fresh copy of one campaign row with the same value.
pub fn clone_email(x: &Email) -> (r: Email)
    ensures
        r@ == x@,
{
    Email {
        id: x.id,
        message: copy_bytes(&x.message),
        created_at: x.created_at,
        is_sent: x.is_sent,
        subject: clone_opt_bytes(&x.subject),
        attachment: clone_opt_bytes(&x.attachment),
        attachment_name: clone_opt_bytes(&x.attachment_name),
        attachment_mime: clone_opt_bytes(&x.attachment_mime),
        num_sent: x.num_sent,
        num_opened: x.num_opened,
        num_replied: x.num_replied,
        hub_id: x.hub_id,
    }
}

impl MailStore {
    /// The mathematical value of the campaign rows.
    pub open spec fn emails_v(self) -> Seq<EmailView> {
        emails_view_of(self.emails@)
    }

    /// The mathematical value of the recipient rows.
    pub open spec fn recs_v(self) -> Seq<RecipientView> {
        recs_view_of(self.recipients@)
    }

    /// Well-formedness: campaign ids are unique, recipient ids are unique,
    /// and a campaign has at most one row per destination address.
    pub open spec fn wf(self) -> bool {
        &&& forall|i: int, j: int|
            0 <= i < j < self.emails_v().len() ==> self.emails_v()[i].id != self.emails_v()[j].id
        &&& forall|i: int, j: int|
            0 <= i < j < self.recs_v().len() ==> self.recs_v()[i].id != self.recs_v()[j].id
        &&& forall|i: int, j: int|
            0 <= i < j < self.recs_v().len() ==> !(self.recs_v()[i].email_id
                == self.recs_v()[j].email_id && self.recs_v()[i].address
                == self.recs_v()[j].address)
    }

    /// A campaign row with this id exists.
    pub open spec fn has_email(self, eid: int) -> bool {
        exists|i: int| 0 <= i < self.emails_v().len() && self.emails_v()[i].id == eid
    }

    /// A recipient row with this id exists.
    pub open spec fn has_recipient(self, rid: int) -> bool {
        exists|i: int| 0 <= i < self.recs_v().len() && self.recs_v()[i].id == rid
    }

    /// The position of the campaign row with this id.
    pub open spec fn email_index(self, eid: int) -> int {
        choose|i: int| 0 <= i < self.emails_v().len() && self.emails_v()[i].id == eid
    }

    /// The value of the campaign row with this id.
    pub open spec fn spec_email(self, eid: int) -> EmailView {
        self.emails_v()[self.email_index(eid)]
    }

    /// The position of the recipient row with this id.
    pub open spec fn recipient_index(self, rid: int) -> int {
        choose|i: int| 0 <= i < self.recs_v().len() && self.recs_v()[i].id == rid
    }

    /// The value of the recipient row with this id.
    pub open spec fn spec_recipient(self, rid: int) -> RecipientView {
        self.recs_v()[self.recipient_index(rid)]
    }

    /// An empty store.
    pub fn new() -> (s: MailStore)
        ensures
            s.emails_v() == Seq::<EmailView>::empty(),
            s.recs_v() == Seq::<RecipientView>::empty(),
            s.wf(),
    {
        let s = MailStore { emails: Vec::new(), recipients: Vec::new() };
        proof {
            assert(s.emails_v() =~= Seq::<EmailView>::empty());
            assert(s.recs_v() =~= Seq::<RecipientView>::empty());
        }
        s
    }

    /// Sets the sent flag of one recipient row, returning how many rows
    /// were updated.
    pub fn set_email_recipient_sent_status(&mut self, recipient_id: i32, status: bool) -> (updated:
        usize)
        ensures
            final(self).emails_v() == old(self).emails_v(),
            final(self).recs_v() == recips_set_sent(
                old(self).recs_v(),
                recipient_id as int,
                status,
            ),
            old(self).wf() ==> final(self).wf(),
            updated as int == count_matching(
                old(self).recs_v(),
                |v: RecipientView| v.id == recipient_id as int,
            ),
    {
        let ghost p: spec_fn(RecipientView) -> bool = |v: RecipientView|
            v.id == recipient_id as int;
        let ghost target = recips_set_sent(old(self).recs_v(), recipient_id as int, status);
        let n = self.recipients.len();
        let mut i: usize = 0;
        let mut updated: usize = 0;
        while i < n
            invariant
                0 <= i <= n,
                n == self.recipients@.len(),
                target.len() == n,
                target == recips_set_sent(old(self).recs_v(), recipient_id as int, status),
                p == (|v: RecipientView| v.id == recipient_id as int),
                self.emails@ == old(self).emails@,
                self.recipients@.len() == old(self).recipients@.len(),
                forall|j: int| i <= j < n ==> self.recipients@[j] == old(self).recipients@[j],
                forall|j: int| 0 <= j < i ==> (#[trigger] self.recipients@[j])@ == target[j],
                updated <= i,
                updated as int + count_from(old(self).recs_v(), p, i as nat) == count_matching(
                    old(self).recs_v(),
                    p,
                ),
            decreases n - i,
        {
            proof {
                lemma_count_from_le(old(self).recs_v(), p, (i + 1) as nat);
                assert(count_from(old(self).recs_v(), p, i as nat) == (if p(
                    old(self).recs_v()[i as int],
                ) {
                    1nat
                } else {
                    0nat
                }) + count_from(old(self).recs_v(), p, (i + 1) as nat));
                assert(old(self).recs_v()[i as int] == old(self).recipients@[i as int]@);
            }
            if self.recipients[i].id == recipient_id {
                self.recipients[i].is_sent = status;
                updated = updated + 1;
                proof {
                    assert(self.recs_v()[i as int] == target[i as int]);
                }
            } else {
                proof {
                    assert(self.recs_v()[i as int] == target[i as int]);
                }
            }
            i = i + 1;
        }
        proof {
            assert(final(self).recs_v() =~= target);
        }
        updated
    }

    /// Sets the opened flag of one recipient row, as the tracking-pixel
    /// endpoint does, returning how many rows were updated.
    pub fn set_email_recipient_opened_status(&mut self, recipient_id: i32, status: bool) -> (updated:
        usize)
        ensures
            final(self).emails_v() == old(self).emails_v(),
            final(self).recs_v() == recips_set_opened(
                old(self).recs_v(),
                recipient_id as int,
                status,
            ),
            old(self).wf() ==> final(self).wf(),
            updated as int == count_matching(
                old(self).recs_v(),
                |v: RecipientView| v.id == recipient_id as int,
            ),
    {
        let ghost p: spec_fn(RecipientView) -> bool = |v: RecipientView|
            v.id == recipient_id as int;
        let ghost target = recips_set_opened(old(self).recs_v(), recipient_id as int, status);
        let n = self.recipients.len();
        let mut i: usize = 0;
        let mut updated: usize = 0;
        while i < n
            invariant
                0 <= i <= n,
                n == self.recipients@.len(),
                target.len() == n,
                target == recips_set_opened(old(self).recs_v(), recipient_id as int, status),
                p == (|v: RecipientView| v.id == recipient_id as int),
                self.emails@ == old(self).emails@,
                self.recipients@.len() == old(self).recipients@.len(),
                forall|j: int| i <= j < n ==> self.recipients@[j] == old(self).recipients@[j],
                forall|j: int| 0 <= j < i ==> (#[trigger] self.recipients@[j])@ == target[j],
                updated <= i,
                updated as int + count_from(old(self).recs_v(), p, i as nat) == count_matching(
                    old(self).recs_v(),
                    p,
                ),
            decreases n - i,
        {
            proof {
                lemma_count_from_le(old(self).recs_v(), p, (i + 1) as nat);
                assert(old(self).recs_v()[i as int] == old(self).recipients@[i as int]@);
            }
            if self.recipients[i].id == recipient_id {
                self.recipients[i].opened = status;
                updated = updated + 1;
                proof {
                    assert(self.recipients@[i as int]@ == target[i as int]);
                }
            } else {
                proof {
                    assert(self.recipients@[i as int]@ == target[i as int]);
                }
            }
            i = i + 1;
        }
        proof {
            assert(final(self).recs_v() =~= target);
        }
        updated
    }

    /// Sets the sent flag of one campaign row, returning how many rows
    /// were updated.
    pub fn set_email_sent_status(&mut self, email_id: i32, status: bool) -> (updated: usize)
        ensures
            final(self).recs_v() == old(self).recs_v(),
            final(self).emails_v() == emails_set_sent(old(self).emails_v(), email_id as int, status),
            old(self).wf() ==> final(self).wf(),
            updated <= old(self).emails_v().len(),
    {
        let ghost target = emails_set_sent(old(self).emails_v(), email_id as int, status);
        let n = self.emails.len();
        let mut i: usize = 0;
        let mut updated: usize = 0;
        while i < n
            invariant
                0 <= i <= n,
                n == self.emails@.len(),
                target.len() == n,
                target == emails_set_sent(old(self).emails_v(), email_id as int, status),
                self.recipients@ == old(self).recipients@,
                self.emails@.len() == old(self).emails@.len(),
                forall|j: int| i <= j < n ==> self.emails@[j] == old(self).emails@[j],
                forall|j: int| 0 <= j < i ==> (#[trigger] self.emails@[j])@ == target[j],
                updated <= i,
            decreases n - i,
        {
            proof {
                assert(old(self).emails_v()[i as int] == old(self).emails@[i as int]@);
            }
            if self.emails[i].id == email_id {
                self.emails[i].is_sent = status;
                updated = updated + 1;
                proof {
                    assert(self.emails@[i as int]@ == target[i as int]);
                }
            } else {
                proof {
                    assert(self.emails@[i as int]@ == target[i as int]);
                }
            }
            i = i + 1;
        }
        proof {
            assert(final(self).emails_v() =~= target);
            if old(self).wf() {
                assert forall|x: int, y: int|
                    0 <= x < y < self.emails_v().len() implies self.emails_v()[x].id
                    != self.emails_v()[y].id by {
                    assert(self.emails_v()[x] == target[x] && self.emails_v()[y] == target[y]);
                    assert(target[x].id == old(self).emails_v()[x].id);
                    assert(target[y].id == old(self).emails_v()[y].id);
                }
                assert(self.recs_v() =~= old(self).recs_v());
                assert forall|x: int, y: int|
                    0 <= x < y < self.recs_v().len() implies self.recs_v()[x].id
                    != self.recs_v()[y].id by {
                    assert(self.recs_v()[x] == old(self).recs_v()[x]);
                    assert(self.recs_v()[y] == old(self).recs_v()[y]);
                }
                assert forall|x: int, y: int|
                    0 <= x < y < self.recs_v().len() implies !(self.recs_v()[x].email_id
                    == self.recs_v()[y].email_id && self.recs_v()[x].address
                    == self.recs_v()[y].address) by {
                    assert(self.recs_v()[x] == old(self).recs_v()[x]);
                    assert(self.recs_v()[y] == old(self).recs_v()[y]);
                }
                assert(self.wf());
            }
        }
        updated
    }

    /// Marks one recipient as replied. Per current behaviour this also
    /// forces the recipient's sent and opened flags and the owning
    /// campaign's sent flag to true. Returns how many recipient rows were
    /// updated.
    pub fn set_email_recipient_replied_status(&mut self, email_id: i32, recipient_id: i32) -> (updated:
        usize)
        ensures
            final(self).recs_v() == recips_set_replied(old(self).recs_v(), recipient_id as int),
            final(self).emails_v() == emails_set_sent(old(self).emails_v(), email_id as int, true),
            old(self).wf() ==> final(self).wf(),
            updated as int == count_matching(
                old(self).recs_v(),
                |v: RecipientView| v.id == recipient_id as int,
            ),
    {
        let ghost p: spec_fn(RecipientView) -> bool = |v: RecipientView|
            v.id == recipient_id as int;
        let ghost target = recips_set_replied(old(self).recs_v(), recipient_id as int);
        let n = self.recipients.len();
        let mut i: usize = 0;
        let mut updated: usize = 0;
        while i < n
            invariant
                0 <= i <= n,
                n == self.recipients@.len(),
                target.len() == n,
                target == recips_set_replied(old(self).recs_v(), recipient_id as int),
                p == (|v: RecipientView| v.id == recipient_id as int),
                self.emails@ == old(self).emails@,
                self.recipients@.len() == old(self).recipients@.len(),
                forall|j: int| i <= j < n ==> self.recipients@[j] == old(self).recipients@[j],
                forall|j: int| 0 <= j < i ==> (#[trigger] self.recipients@[j])@ == target[j],
                updated <= i,
                updated as int + count_from(old(self).recs_v(), p, i as nat) == count_matching(
                    old(self).recs_v(),
                    p,
                ),
            decreases n - i,
        {
            proof {
                lemma_count_from_le(old(self).recs_v(), p, (i + 1) as nat);
                assert(old(self).recs_v()[i as int] == old(self).recipients@[i as int]@);
            }
            if self.recipients[i].id == recipient_id {
                self.recipients[i].replied = true;
                self.recipients[i].is_sent = true;
                self.recipients[i].opened = true;
                updated = updated + 1;
                proof {
                    assert(self.recipients@[i as int]@ == target[i as int]);
                }
            } else {
                proof {
                    assert(self.recipients@[i as int]@ == target[i as int]);
                }
            }
            i = i + 1;
        }
        proof {
            assert(self.recs_v() =~= target);
        }
        self.set_email_sent_status(email_id, true);
        updated
    }

    /// Clears the campaign's sent flag and every one of its recipients'
    /// sent and opened flags, as the manual retry action does before
    /// re-enqueueing. Returns how many recipient rows were updated.
    pub fn reset_email_sent_and_opened_status(&mut self, email_id: i32) -> (updated: usize)
        ensures
            final(self).emails_v() == emails_set_sent(old(self).emails_v(), email_id as int, false),
            final(self).recs_v() == recips_reset(old(self).recs_v(), email_id as int),
            old(self).wf() ==> final(self).wf(),
    {
        self.set_email_sent_status(email_id, false);
        let ghost target = recips_reset(old(self).recs_v(), email_id as int);
        let n = self.recipients.len();
        let mut i: usize = 0;
        let mut updated: usize = 0;
        while i < n
            invariant
                0 <= i <= n,
                n == self.recipients@.len(),
                target.len() == n,
                target == recips_reset(old(self).recs_v(), email_id as int),
                self.emails_v() == emails_set_sent(old(self).emails_v(), email_id as int, false),
                self.recipients@.len() == old(self).recipients@.len(),
                forall|j: int| i <= j < n ==> (#[trigger] self.recipients@[j])@ == old(
                    self,
                ).recs_v()[j],
                forall|j: int| 0 <= j < i ==> (#[trigger] self.recipients@[j])@ == target[j],
                updated <= i,
            decreases n - i,
        {
            if self.recipients[i].email_id == email_id {
                self.recipients[i].opened = false;
                self.recipients[i].is_sent = false;
                updated = updated + 1;
                proof {
                    assert(self.recipients@[i as int]@ == target[i as int]);
                }
            } else {
                proof {
                    assert(self.recipients@[i as int]@ == target[i as int]);
                }
            }
            i = i + 1;
        }
        proof {
            assert(final(self).recs_v() =~= target);
        }
        updated
    }

    /// How many recipients of campaign `email_id` have the flag that
    /// `kind` names.
    fn count_recipients(&self, kind: CounterKind, email_id: i32) -> (c: usize)
        ensures
            c as int == count_matching(self.recs_v(), counter_pred(kind, email_id as int)),
            c <= self.recs_v().len(),
    {
        let ghost p: spec_fn(RecipientView) -> bool = counter_pred(kind, email_id as int);
        let n = self.recipients.len();
        let mut i: usize = 0;
        let mut c: usize = 0;
        while i < n
            invariant
                0 <= i <= n,
                n == self.recipients@.len(),
                p == counter_pred(kind, email_id as int),
                c <= i,
                c as int + count_from(self.recs_v(), p, i as nat) == count_matching(
                    self.recs_v(),
                    p,
                ),
            decreases n - i,
        {
            proof {
                lemma_count_from_le(self.recs_v(), p, (i + 1) as nat);
                assert(self.recs_v()[i as int] == self.recipients@[i as int]@);
            }
            let r = &self.recipients[i];
            let hit = if r.email_id == email_id {
                match kind {
                    CounterKind::Sent => r.is_sent,
                    CounterKind::Opened => r.opened,
                    CounterKind::Replied => r.replied,
                }
            } else {
                false
            };
            if hit {
                c = c + 1;
            }
            i = i + 1;
        }
        proof {
            lemma_count_from_le(self.recs_v(), p, 0);
        }
        c
    }

    /// Re-derives the campaign's sent counter from the recipient rows and
    /// writes it, returning how many campaign rows were updated.
    pub fn update_email_num_sent(&mut self, email_id: i32) -> (updated: usize)
        requires
            old(self).recs_v().len() <= i32::MAX as int,
        ensures
            final(self).recs_v() == old(self).recs_v(),
            final(self).emails_v() == emails_set_num_sent(
                old(self).emails_v(),
                email_id as int,
                count_matching(old(self).recs_v(), sent_in(email_id as int)) as int,
            ),
            old(self).wf() ==> final(self).wf(),
    {
        let c = self.count_recipients(CounterKind::Sent, email_id);
        let cnt: i32 = c as i32;
        let ghost target = emails_set_num_sent(
            old(self).emails_v(),
            email_id as int,
            count_matching(old(self).recs_v(), sent_in(email_id as int)) as int,
        );
        let n = self.emails.len();
        let mut i: usize = 0;
        let mut updated: usize = 0;
        while i < n
            invariant
                0 <= i <= n,
                n == self.emails@.len(),
                target.len() == n,
                cnt as int == count_matching(old(self).recs_v(), sent_in(email_id as int)),
                target == emails_set_num_sent(old(self).emails_v(), email_id as int, cnt as int),
                self.recipients@ == old(self).recipients@,
                self.emails@.len() == old(self).emails@.len(),
                forall|j: int| i <= j < n ==> self.emails@[j] == old(self).emails@[j],
                forall|j: int| 0 <= j < i ==> (#[trigger] self.emails@[j])@ == target[j],
                updated <= i,
            decreases n - i,
        {
            proof {
                assert(old(self).emails_v()[i as int] == old(self).emails@[i as int]@);
            }
            if self.emails[i].id == email_id {
                self.emails[i].num_sent = cnt;
                updated = updated + 1;
                proof {
                    assert(self.emails@[i as int]@ == target[i as int]);
                }
            } else {
                proof {
                    assert(self.emails@[i as int]@ == target[i as int]);
                }
            }
            i = i + 1;
        }
        proof {
            assert(final(self).emails_v() =~= target);
        }
        updated
    }

    /// Re-derives the campaign's opened counter from the recipient rows
    /// and writes it, returning how many campaign rows were updated.
    pub fn update_email_num_opened(&mut self, email_id: i32) -> (updated: usize)
        requires
            old(self).recs_v().len() <= i32::MAX as int,
        ensures
            final(self).recs_v() == old(self).recs_v(),
            final(self).emails_v() == emails_set_num_opened(
                old(self).emails_v(),
                email_id as int,
                count_matching(old(self).recs_v(), opened_in(email_id as int)) as int,
            ),
            old(self).wf() ==> final(self).wf(),
    {
        let c = self.count_recipients(CounterKind::Opened, email_id);
        let cnt: i32 = c as i32;
        let ghost target = emails_set_num_opened(
            old(self).emails_v(),
            email_id as int,
            count_matching(old(self).recs_v(), opened_in(email_id as int)) as int,
        );
        let n = self.emails.len();
        let mut i: usize = 0;
        let mut updated: usize = 0;
        while i < n
            invariant
                0 <= i <= n,
                n == self.emails@.len(),
                target.len() == n,
                cnt as int == count_matching(old(self).recs_v(), opened_in(email_id as int)),
                target == emails_set_num_opened(old(self).emails_v(), email_id as int, cnt as int),
                self.recipients@ == old(self).recipients@,
                self.emails@.len() == old(self).emails@.len(),
                forall|j: int| i <= j < n ==> self.emails@[j] == old(self).emails@[j],
                forall|j: int| 0 <= j < i ==> (#[trigger] self.emails@[j])@ == target[j],
                updated <= i,
            decreases n - i,
        {
            proof {
                assert(old(self).emails_v()[i as int] == old(self).emails@[i as int]@);
            }
            if self.emails[i].id == email_id {
                self.emails[i].num_opened = cnt;
                updated = updated + 1;
                proof {
                    assert(self.emails@[i as int]@ == target[i as int]);
                }
            } else {
                proof {
                    assert(self.emails@[i as int]@ == target[i as int]);
                }
            }
            i = i + 1;
        }
        proof {
            assert(final(self).emails_v() =~= target);
        }
        updated
    }

    /// Re-derives the campaign's replied counter from the recipient rows
    /// and writes it, returning how many campaign rows were updated.
    pub fn update_email_num_replied(&mut self, email_id: i32) -> (updated: usize)
        requires
            old(self).recs_v().len() <= i32::MAX as int,
        ensures
            final(self).recs_v() == old(self).recs_v(),
            final(self).emails_v() == emails_set_num_replied(
                old(self).emails_v(),
                email_id as int,
                count_matching(old(self).recs_v(), replied_in(email_id as int)) as int,
            ),
            old(self).wf() ==> final(self).wf(),
    {
        let c = self.count_recipients(CounterKind::Replied, email_id);
        let cnt: i32 = c as i32;
        let ghost target = emails_set_num_replied(
            old(self).emails_v(),
            email_id as int,
            count_matching(old(self).recs_v(), replied_in(email_id as int)) as int,
        );
        let n = self.emails.len();
        let mut i: usize = 0;
        let mut updated: usize = 0;
        while i < n
            invariant
                0 <= i <= n,
                n == self.emails@.len(),
                target.len() == n,
                cnt as int == count_matching(old(self).recs_v(), replied_in(email_id as int)),
                target == emails_set_num_replied(old(self).emails_v(), email_id as int, cnt as int),
                self.recipients@ == old(self).recipients@,
                self.emails@.len() == old(self).emails@.len(),
                forall|j: int| i <= j < n ==> self.emails@[j] == old(self).emails@[j],
                forall|j: int| 0 <= j < i ==> (#[trigger] self.emails@[j])@ == target[j],
                updated <= i,
            decreases n - i,
        {
            proof {
                assert(old(self).emails_v()[i as int] == old(self).emails@[i as int]@);
            }
            if self.emails[i].id == email_id {
                self.emails[i].num_replied = cnt;
                updated = updated + 1;
                proof {
                    assert(self.emails@[i as int]@ == target[i as int]);
                }
            } else {
                proof {
                    assert(self.emails@[i as int]@ == target[i as int]);
                }
            }
            i = i + 1;
        }
        proof {
            assert(final(self).emails_v() =~= target);
        }
        updated
    }

    /// The campaign row with this id.
    pub fn get_email(&self, email_id: i32) -> (r: Result<&Email, StoreError>)
        ensures
            match r {
                Ok(e) => self.has_email(email_id as int) && e@.id == email_id as int
                    && self.emails_v().contains(e@),
                Err(_) => !self.has_email(email_id as int),
            },
    {
        let n = self.emails.len();
        let mut i: usize = 0;
        while i < n
            invariant
                0 <= i <= n,
                n == self.emails@.len(),
                forall|j: int| 0 <= j < i ==> (#[trigger] self.emails@[j])@.id != email_id as int,
            decreases n - i,
        {
            if self.emails[i].id == email_id {
                proof {
                    assert(self.emails_v()[i as int] == self.emails@[i as int]@);
                }
                return Ok(&self.emails[i]);
            }
            i = i + 1;
        }
        proof {
            assert forall|j: int| 0 <= j < self.emails_v().len() implies self.emails_v()[j].id
                != email_id as int by {
                assert(self.emails_v()[j] == self.emails@[j]@);
            }
        }
        Err(StoreError::NotFound)
    }

    /// The recipient row with this id.
    pub fn get_email_recipient(&self, recipient_id: i32) -> (r: Result<&EmailRecipient, StoreError>)
        ensures
            match r {
                Ok(x) => self.has_recipient(recipient_id as int) && x@.id == recipient_id as int
                    && self.recs_v().contains(x@),
                Err(_) => !self.has_recipient(recipient_id as int),
            },
    {
        let n = self.recipients.len();
        let mut i: usize = 0;
        while i < n
            invariant
                0 <= i <= n,
                n == self.recipients@.len(),
                forall|j: int|
                    0 <= j < i ==> (#[trigger] self.recipients@[j])@.id != recipient_id as int,
            decreases n - i,
        {
            if self.recipients[i].id == recipient_id {
                proof {
                    assert(self.recs_v()[i as int] == self.recipients@[i as int]@);
                }
                return Ok(&self.recipients[i]);
            }
            i = i + 1;
        }
        proof {
            assert forall|j: int| 0 <= j < self.recs_v().len() implies self.recs_v()[j].id
                != recipient_id as int by {
                assert(self.recs_v()[j] == self.recipients@[j]@);
            }
        }
        Err(StoreError::NotFound)
    }

    /// Fresh copies of all recipient rows of one campaign, in store order.
    pub fn get_email_recipients(&self, email_id: i32) -> (r: Vec<EmailRecipient>)
        ensures
            recs_view_of(r@) == select_matching(self.recs_v(), in_email(email_id as int)),
    {
        let ghost p = in_email(email_id as int);
        let n = self.recipients.len();
        let mut out: Vec<EmailRecipient> = Vec::new();
        let mut i: usize = 0;
        proof {
            assert(recs_view_of(out@) + select_from(self.recs_v(), p, 0) =~= select_matching(
                self.recs_v(),
                p,
            ));
        }
        while i < n
            invariant
                0 <= i <= n,
                n == self.recipients@.len(),
                p == in_email(email_id as int),
                select_matching(self.recs_v(), p) == recs_view_of(out@) + select_from(
                    self.recs_v(),
                    p,
                    i as nat,
                ),
            decreases n - i,
        {
            proof {
                assert(self.recs_v()[i as int] == self.recipients@[i as int]@);
            }
            if self.recipients[i].email_id == email_id {
                let ghost prev = recs_view_of(out@);
                out.push(clone_recipient(&self.recipients[i]));
                proof {
                    assert(recs_view_of(out@) =~= prev.push(self.recs_v()[i as int]));
                    assert(recs_view_of(out@) + select_from(self.recs_v(), p, (i + 1) as nat) =~= prev
                        + select_from(self.recs_v(), p, i as nat));
                }
            }
            i = i + 1;
        }
        proof {
            assert(recs_view_of(out@) + select_from(self.recs_v(), p, i as nat) =~= recs_view_of(
                out@,
            ));
        }
        out
    }

    /// Whether the campaign with id `email_id` belongs to tenant `hub_id`.
    fn email_belongs_to_hub(&self, email_id: i32, hub_id: i32) -> (b: bool)
        ensures
            b == hub_owns(self.emails_v(), email_id as int, hub_id as int),
    {
        let n = self.emails.len();
        let mut i: usize = 0;
        while i < n
            invariant
                0 <= i <= n,
                n == self.emails@.len(),
                forall|j: int|
                    0 <= j < i ==> !((#[trigger] self.emails@[j])@.id == email_id as int
                        && self.emails@[j]@.hub_id == hub_id as int),
            decreases n - i,
        {
            if self.emails[i].id == email_id && self.emails[i].hub_id == hub_id {
                proof {
                    assert(self.emails_v()[i as int] == self.emails@[i as int]@);
                }
                return true;
            }
            i = i + 1;
        }
        proof {
            assert forall|j: int|
                0 <= j < self.emails_v().len() implies !(self.emails_v()[j].id == email_id as int
                && self.emails_v()[j].hub_id == hub_id as int) by {
                assert(self.emails_v()[j] == self.emails@[j]@);
            }
        }
        false
    }

    /// Fresh copies of every recipient row of tenant `hub_id` whose
    /// replied flag is still false: what one correlator sweep scans.
    pub fn get_hub_email_recipients_not_replied(&self, hub_id: i32) -> (r: Vec<EmailRecipient>)
        ensures
            recs_view_of(r@) == select_matching(
                self.recs_v(),
                pending_for_hub(self.emails_v(), hub_id as int),
            ),
    {
        let ghost p = pending_for_hub(self.emails_v(), hub_id as int);
        let n = self.recipients.len();
        let mut out: Vec<EmailRecipient> = Vec::new();
        let mut i: usize = 0;
        proof {
            assert(recs_view_of(out@) + select_from(self.recs_v(), p, 0) =~= select_matching(
                self.recs_v(),
                p,
            ));
        }
        while i < n
            invariant
                0 <= i <= n,
                n == self.recipients@.len(),
                p == pending_for_hub(self.emails_v(), hub_id as int),
                select_matching(self.recs_v(), p) == recs_view_of(out@) + select_from(
                    self.recs_v(),
                    p,
                    i as nat,
                ),
            decreases n - i,
        {
            proof {
                assert(self.recs_v()[i as int] == self.recipients@[i as int]@);
            }
            let hit = if self.recipients[i].replied {
                false
            } else {
                self.email_belongs_to_hub(self.recipients[i].email_id, hub_id)
            };
            if hit {
                let ghost prev = recs_view_of(out@);
                out.push(clone_recipient(&self.recipients[i]));
                proof {
                    assert(recs_view_of(out@) =~= prev.push(self.recs_v()[i as int]));
                    assert(recs_view_of(out@) + select_from(self.recs_v(), p, (i + 1) as nat) =~= prev
                        + select_from(self.recs_v(), p, i as nat));
                }
            }
            i = i + 1;
        }
        proof {
            assert(recs_view_of(out@) + select_from(self.recs_v(), p, i as nat) =~= recs_view_of(
                out@,
            ));
        }
        out
    }

    /// Adds a new campaign row. The caller supplies a fresh id; the web
    /// tier takes it from its row allocator.
    pub fn create_email(&mut self, email: Email)
        ensures
            final(self).emails_v() == old(self).emails_v().push(email@),
            final(self).recs_v() == old(self).recs_v(),
            old(self).wf() && !old(self).has_email(email@.id) ==> final(self).wf(),
    {
        let ghost ev = email@;
        let ghost olds = *old(self);
        self.emails.push(email);
        proof {
            assert(final(self).emails_v() =~= old(self).emails_v().push(ev));
            if olds.wf() && !olds.has_email(ev.id) {
                let newv = final(self).emails_v();
                assert forall|i: int, j: int| 0 <= i < j < newv.len() implies newv[i].id
                    != newv[j].id by {
                    if j == newv.len() - 1 {
                        assert(newv[i] == olds.emails_v()[i]);
                    }
                }
            }
        }
    }

    /// Adds one recipient row for a campaign unless the campaign already
    /// has a row for that destination address, and returns the id of the
    /// row that now stands for the pair: one row per campaign and address.
    pub fn create_email_recipient(
        &mut self,
        id: i32,
        email_id: i32,
        address: Vec<u8>,
        updated_at: i64,
    ) -> (rid: i32)
        requires
            !old(self).has_recipient(id as int),
        ensures
            final(self).emails_v() == old(self).emails_v(),
            old(self).has_pair(email_id as int, address@) ==> final(self).recs_v() == old(
                self,
            ).recs_v() && exists|i: int|
                0 <= i < old(self).recs_v().len() && old(self).recs_v()[i].email_id
                    == email_id as int && old(self).recs_v()[i].address == address@ && rid == old(
                    self,
                ).recs_v()[i].id,
            !old(self).has_pair(email_id as int, address@) ==> final(self).recs_v() == old(
                self,
            ).recs_v().push(
                RecipientView {
                    id: id as int,
                    email_id: email_id as int,
                    address: address@,
                    opened: false,
                    updated_at: updated_at as int,
                    is_sent: false,
                    replied: false,
                },
            ) && rid == id,
            old(self).wf() ==> final(self).wf(),
    {
        let ghost a = address@;
        let ghost olds = *old(self);
        let n = self.recipients.len();
        let mut i: usize = 0;
        while i < n
            invariant
                0 <= i <= n,
                n == self.recipients@.len(),
                *self == *old(self),
                a == address@,
                forall|j: int|
                    0 <= j < i ==> !((#[trigger] self.recipients@[j])@.email_id == email_id as int
                        && self.recipients@[j]@.address == a),
            decreases n - i,
        {
            let row_ref = &self.recipients[i];
            let email_match = row_ref.email_id == email_id;
            let addr_match = crate::bytes::bytes_eq(row_ref.address.as_slice(), address.as_slice());
            proof {
                assert(*row_ref == self.recipients@[i as int]);
                assert(email_match == (self.recipients@[i as int]@.email_id == email_id as int));
                assert(addr_match == (self.recipients@[i as int]@.address == a));
            }
            if email_match && addr_match {
                proof {
                    assert(self.recs_v()[i as int] == self.recipients@[i as int]@);
                }
                return self.recipients[i].id;
            }
            i = i + 1;
        }
        proof {
            assert forall|j: int|
                0 <= j < self.recs_v().len() implies !(self.recs_v()[j].email_id == email_id as int
                && self.recs_v()[j].address == a) by {
                assert(self.recs_v()[j] == self.recipients@[j]@);
            }
            assert(!olds.has_pair(email_id as int, a));
        }
        let row = EmailRecipient {
            id,
            email_id,
            address,
            opened: false,
            updated_at,
            is_sent: false,
            replied: false,
        };
        let ghost rv = row@;
        self.recipients.push(row);
        proof {
            assert(final(self).recs_v() =~= old(self).recs_v().push(rv));
            if olds.wf() {
                let newv = final(self).recs_v();
                assert forall|x: int, y: int| 0 <= x < y < newv.len() implies newv[x].id
                    != newv[y].id by {
                    if y == newv.len() - 1 {
                        assert(newv[x] == olds.recs_v()[x]);
                    }
                }
                assert forall|x: int, y: int| 0 <= x < y < newv.len() implies !(newv[x].email_id
                    == newv[y].email_id && newv[x].address == newv[y].address) by {
                    if y == newv.len() - 1 {
                        assert(newv[x] == olds.recs_v()[x]);
                    }
                }
            }
        }
        id
    }

    /// Fresh copies of every campaign of one tenant, each with its
    /// recipient rows, in store order.
    pub fn get_hub_all_emails_with_recipients(&self, hub_id: i32) -> (out: Vec<
        (Email, Vec<EmailRecipient>),
    >)
        ensures
            pairs_views(out@) == emails_with_recipients_from(
                select_matching(self.emails_v(), of_hub(hub_id as int)),
                self.recs_v(),
                0,
            ),
    {
        let ghost hub_emails = select_matching(self.emails_v(), of_hub(hub_id as int));
        let ghost p = of_hub(hub_id as int);
        let n = self.emails.len();
        let mut hub_rows: Vec<Email> = Vec::new();
        let mut i: usize = 0;
        proof {
            assert(emails_view_of(hub_rows@) + select_from(self.emails_v(), p, 0) =~= select_from(
                self.emails_v(),
                p,
                0,
            ));
        }
        while i < n
            invariant
                0 <= i <= n,
                n == self.emails@.len(),
                p == of_hub(hub_id as int),
                select_matching(self.emails_v(), p) == emails_view_of(hub_rows@) + select_from(
                    self.emails_v(),
                    p,
                    i as nat,
                ),
            decreases n - i,
        {
            proof {
                assert(self.emails_v()[i as int] == self.emails@[i as int]@);
            }
            if self.emails[i].hub_id == hub_id {
                let ghost prev = emails_view_of(hub_rows@);
                hub_rows.push(clone_email(&self.emails[i]));
                proof {
                    assert(emails_view_of(hub_rows@) =~= prev.push(self.emails_v()[i as int]));
                    assert(emails_view_of(hub_rows@) + select_from(self.emails_v(), p, (i + 1) as nat)
                        =~= prev + select_from(self.emails_v(), p, i as nat));
                }
            }
            i = i + 1;
        }
        proof {
            assert(emails_view_of(hub_rows@) + select_from(self.emails_v(), p, i as nat)
                =~= emails_view_of(hub_rows@));
            assert(emails_view_of(hub_rows@) == hub_emails);
        }
        let m = hub_rows.len();
        let mut out: Vec<(Email, Vec<EmailRecipient>)> = Vec::new();
        let mut k: usize = 0;
        proof {
            assert(pairs_views(out@) + emails_with_recipients_from(hub_emails, self.recs_v(), 0)
                =~= emails_with_recipients_from(hub_emails, self.recs_v(), 0));
        }
        while k < m
            invariant
                0 <= k <= m,
                m == hub_rows@.len(),
                hub_emails == emails_view_of(hub_rows@),
                emails_with_recipients_from(hub_emails, self.recs_v(), 0) == pairs_views(out@)
                    + emails_with_recipients_from(hub_emails, self.recs_v(), k as nat),
            decreases m - k,
        {
            proof {
                assert(hub_emails[k as int] == hub_rows@[k as int]@);
            }
            let email_id = hub_rows[k].id;
            let recs = self.get_email_recipients(email_id);
            let ghost prev = pairs_views(out@);
            out.push((clone_email(&hub_rows[k]), recs));
            proof {
                assert(pairs_views(out@) =~= prev.push(
                    (hub_emails[k as int], select_matching(
                        self.recs_v(),
                        crate::store::in_email(hub_emails[k as int].id),
                    )),
                ));
                assert(prev + emails_with_recipients_from(hub_emails, self.recs_v(), k as nat)
                    =~= pairs_views(out@) + emails_with_recipients_from(
                    hub_emails,
                    self.recs_v(),
                    (k + 1) as nat,
                ));
            }
            k = k + 1;
        }
        proof {
            assert(pairs_views(out@) + emails_with_recipients_from(hub_emails, self.recs_v(), k as nat)
                =~= pairs_views(out@));
        }
        out
    }

    /// What the tracking endpoint does when the pixel for one recipient
    /// is fetched: looks the recipient up, marks it opened and re-derives
    /// its campaign's opened counter, returning the campaign id. An
    /// unknown recipient changes nothing.
    pub fn track_email_open(&mut self, recipient_id: i32) -> (r: Result<i32, StoreError>)
        requires
            old(self).recs_v().len() <= i32::MAX as int,
        ensures
            match r {
                Ok(eid) => old(self).has_recipient(recipient_id as int) && (exists|i: int|
                    0 <= i < old(self).recs_v().len() && old(self).recs_v()[i].id
                        == recipient_id as int && old(self).recs_v()[i].email_id == eid as int)
                    && final(self).recs_v() == recips_set_opened(
                    old(self).recs_v(),
                    recipient_id as int,
                    true,
                ) && final(self).emails_v() == emails_set_num_opened(
                    old(self).emails_v(),
                    eid as int,
                    count_matching(
                        recips_set_opened(old(self).recs_v(), recipient_id as int, true),
                        opened_in(eid as int),
                    ) as int,
                ),
                Err(_) => !old(self).has_recipient(recipient_id as int) && *final(self) == *old(
                    self,
                ),
            },
            old(self).wf() ==> final(self).wf(),
    {
        let email_id = match self.get_email_recipient(recipient_id) {
            Ok(row) => row.email_id,
            Err(e) => {
                return Err(e);
            },
        };
        self.set_email_recipient_opened_status(recipient_id, true);
        self.update_email_num_opened(email_id);
        Ok(email_id)
    }

    /// A campaign already has a row for this destination address.
    pub open spec fn has_pair(self, eid: int, addr: Seq<u8>) -> bool {
        exists|i: int|
            0 <= i < self.recs_v().len() && self.recs_v()[i].email_id == eid
                && self.recs_v()[i].address == addr
    }

    /// Deletes a campaign row and all its recipient rows, returning how
    /// many recipient rows were removed.
    pub fn remove_email(&mut self, email_id: i32) -> (removed: usize)
        ensures
            final(self).emails_v() == select_matching(
                old(self).emails_v(),
                not_email(email_id as int),
            ),
            final(self).recs_v() == select_matching(
                old(self).recs_v(),
                not_in_email(email_id as int),
            ),
            removed as int == old(self).recs_v().len() - final(self).recs_v().len(),
            old(self).wf() ==> final(self).wf(),
    {
        let ghost olds = *old(self);
        let ghost pe = not_email(email_id as int);
        let ghost pr = not_in_email(email_id as int);
        let n = self.emails.len();
        let mut kept_emails: Vec<Email> = Vec::new();
        let mut i: usize = 0;
        proof {
            assert(emails_view_of(kept_emails@) + select_from(olds.emails_v(), pe, 0)
                =~= select_matching(olds.emails_v(), pe));
        }
        while i < n
            invariant
                0 <= i <= n,
                n == self.emails@.len(),
                *self == *old(self),
                pe == not_email(email_id as int),
                select_matching(olds.emails_v(), pe) == emails_view_of(kept_emails@) + select_from(
                    olds.emails_v(),
                    pe,
                    i as nat,
                ),
                olds == *old(self),
            decreases n - i,
        {
            proof {
                assert(olds.emails_v()[i as int] == self.emails@[i as int]@);
            }
            if self.emails[i].id != email_id {
                let ghost prev = emails_view_of(kept_emails@);
                kept_emails.push(clone_email(&self.emails[i]));
                proof {
                    assert(emails_view_of(kept_emails@) =~= prev.push(olds.emails_v()[i as int]));
                    assert(emails_view_of(kept_emails@) + select_from(
                        olds.emails_v(),
                        pe,
                        (i + 1) as nat,
                    ) =~= prev + select_from(olds.emails_v(), pe, i as nat));
                }
            }
            i = i + 1;
        }
        proof {
            assert(emails_view_of(kept_emails@) + select_from(olds.emails_v(), pe, i as nat)
                =~= emails_view_of(kept_emails@));
        }
        let m = self.recipients.len();
        let mut kept_recs: Vec<EmailRecipient> = Vec::new();
        let mut k: usize = 0;
        proof {
            assert(recs_view_of(kept_recs@) + select_from(olds.recs_v(), pr, 0) =~= select_matching(
                olds.recs_v(),
                pr,
            ));
        }
        while k < m
            invariant
                0 <= k <= m,
                m == self.recipients@.len(),
                *self == *old(self),
                pr == not_in_email(email_id as int),
                select_matching(olds.recs_v(), pr) == recs_view_of(kept_recs@) + select_from(
                    olds.recs_v(),
                    pr,
                    k as nat,
                ),
                kept_recs@.len() <= k,
                olds == *old(self),
            decreases m - k,
        {
            proof {
                assert(olds.recs_v()[k as int] == self.recipients@[k as int]@);
            }
            if self.recipients[k].email_id != email_id {
                let ghost prev = recs_view_of(kept_recs@);
                kept_recs.push(clone_recipient(&self.recipients[k]));
                proof {
                    assert(recs_view_of(kept_recs@) =~= prev.push(olds.recs_v()[k as int]));
                    assert(recs_view_of(kept_recs@) + select_from(olds.recs_v(), pr, (k + 1) as nat)
                        =~= prev + select_from(olds.recs_v(), pr, k as nat));
                }
            }
            k = k + 1;
        }
        proof {
            assert(recs_view_of(kept_recs@) + select_from(olds.recs_v(), pr, k as nat)
                =~= recs_view_of(kept_recs@));
        }
        let removed = self.recipients.len() - kept_recs.len();
        self.emails = kept_emails;
        self.recipients = kept_recs;
        proof {
            if olds.wf() {
                let eids = |x: EmailView, y: EmailView| x.id != y.id;
                let rids = |x: RecipientView, y: RecipientView| x.id != y.id;
                let rpairs = |x: RecipientView, y: RecipientView|
                    !(x.email_id == y.email_id && x.address == y.address);
                lemma_select_from_pairwise(olds.emails_v(), pe, 0, eids);
                lemma_select_from_pairwise(olds.recs_v(), pr, 0, rids);
                lemma_select_from_pairwise(olds.recs_v(), pr, 0, rpairs);
                let se = select_matching(olds.emails_v(), pe);
                let sr = select_matching(olds.recs_v(), pr);
                assert forall|x: int, y: int| 0 <= x < y < se.len() implies se[x].id
                    != se[y].id by {
                    assert(eids(se[x], se[y]));
                }
                assert forall|x: int, y: int| 0 <= x < y < sr.len() implies sr[x].id
                    != sr[y].id by {
                    assert(rids(sr[x], sr[y]));
                }
                assert forall|x: int, y: int| 0 <= x < y < sr.len() implies !(sr[x].email_id
                    == sr[y].email_id && sr[x].address == sr[y].address) by {
                    assert(rpairs(sr[x], sr[y]));
                }
            }
        }
        removed
    }
}

} // verus!
