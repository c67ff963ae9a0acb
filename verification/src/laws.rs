//! Laws of the status tracker and the dispatch pass, proved over the
//! mathematical transitions that the executable operations are specified
//! against.

use vstd::prelude::*;

use crate::store::RecipientView;
use crate::store::count_from;
use crate::store::count_matching;
use crate::store::emails_set_num_sent;
use crate::store::EmailView;
use crate::store::recips_set_opened;
use crate::store::recips_set_replied;
use crate::store::sent_in;
use crate::worker::spec_apply_outcomes;

verus! {

/// Two row sequences that `p` cannot tell apart have the same count.
pub proof fn lemma_count_from_pointwise(
    s: Seq<RecipientView>,
    t: Seq<RecipientView>,
    p: spec_fn(RecipientView) -> bool,
    i: nat,
)
    requires
        t.len() == s.len(),
        forall|j: int| 0 <= j < s.len() ==> #[trigger] p(t[j]) == p(s[j]),
    ensures
        count_from(t, p, i) == count_from(s, p, i),
    decreases s.len() - i,
{
    if i < s.len() {
        lemma_count_from_pointwise(s, t, p, (i + 1) as nat);
    }
}

/// Law: for every recipient, marking it opened and then re-deriving the
/// sent counter writes exactly the number of recipients whose sent flag
/// is true — the opened mark does not disturb the sent count — and
/// repeating the opened mark does not change the state at all.
pub proof fn lemma_opened_then_recompute_sent(
    recs: Seq<RecipientView>,
    emails: Seq<EmailView>,
    rid: int,
    eid: int,
)
    ensures
        count_matching(recips_set_opened(recs, rid, true), sent_in(eid)) == count_matching(
            recs,
            sent_in(eid),
        ),
        forall|k: int|
            0 <= k < emails.len() && emails[k].id == eid ==> #[trigger] emails_set_num_sent(
                emails,
                eid,
                count_matching(recips_set_opened(recs, rid, true), sent_in(eid)) as int,
            )[k].num_sent == count_matching(recs, sent_in(eid)),
        recips_set_opened(recips_set_opened(recs, rid, true), rid, true) == recips_set_opened(
            recs,
            rid,
            true,
        ),
{
    let marked = recips_set_opened(recs, rid, true);
    assert forall|j: int| 0 <= j < recs.len() implies #[trigger] sent_in(eid)(marked[j]) == sent_in(
        eid,
    )(recs[j]) by {
        assert(marked[j].is_sent == recs[j].is_sent && marked[j].email_id == recs[j].email_id);
    }
    lemma_count_from_pointwise(recs, marked, sent_in(eid), 0);
    assert(recips_set_opened(marked, rid, true) =~= marked);
}

/// Law: marking a recipient replied is a monotonic one-way transition:
/// it leaves the recipient with replied, opened and sent all true, and a
/// later repetition of the mark changes nothing.
pub proof fn lemma_replied_one_way(recs: Seq<RecipientView>, rid: int)
    ensures
        forall|j: int|
            0 <= j < recs.len() && recs[j].id == rid ==> (#[trigger] recips_set_replied(
                recs,
                rid,
            )[j]).replied && recips_set_replied(recs, rid)[j].opened && recips_set_replied(
                recs,
                rid,
            )[j].is_sent,
        recips_set_replied(recips_set_replied(recs, rid), rid) == recips_set_replied(recs, rid),
{
    assert(recips_set_replied(recips_set_replied(recs, rid), rid) =~= recips_set_replied(
        recs,
        rid,
    ));
}

/// Law: one dispatch pass never adds, removes or re-keys a recipient row,
/// and never clears a status flag: re-enqueueing the same campaign never
/// duplicates recipient rows and never decreases any status boolean.
pub proof fn lemma_resend_monotone(recs: Seq<RecipientView>, outcomes: Seq<(i32, bool)>)
    ensures
        spec_apply_outcomes(recs, outcomes).len() == recs.len(),
        forall|j: int|
            0 <= j < recs.len() ==> {
                &&& (#[trigger] spec_apply_outcomes(recs, outcomes)[j]).id == recs[j].id
                &&& spec_apply_outcomes(recs, outcomes)[j].email_id == recs[j].email_id
                &&& spec_apply_outcomes(recs, outcomes)[j].address == recs[j].address
                &&& (recs[j].is_sent ==> spec_apply_outcomes(recs, outcomes)[j].is_sent)
                &&& spec_apply_outcomes(recs, outcomes)[j].opened == recs[j].opened
                &&& spec_apply_outcomes(recs, outcomes)[j].replied == recs[j].replied
            },
    decreases outcomes.len(),
{
    if outcomes.len() > 0 {
        lemma_resend_monotone(recs, outcomes.drop_last());
    }
}

} // verus!
