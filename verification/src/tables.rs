//! The three tables of the session store (sessions, receipts, outbox) as
//! maps, and what one event and one acknowledgement do to them. The store
//! writes the three tables in one transaction from the decisions of
//! `store::receipt_key`, `store::replay` and `store::plan`; this model
//! composes those decisions and states what the tables hold afterwards.
use crate::charging::{spec_transition, SessionModel};
use crate::json::json_pair;
use crate::store::{
    envelope_id, lemma_envelope_ids_distinct, spec_envelopes, spec_plan, spec_replay,
    valid_event_id, Counts, EnvelopeModel, InputModel, ReceiptModel, StoreError,
};
use vstd::prelude::*;

verus! {

/// The contents of the store: sessions by session id, receipts by
/// deduplication key, pending envelopes by envelope id.
pub struct TablesModel {
    pub sessions: Map<Seq<char>, SessionModel>,
    pub receipts: Map<Seq<char>, ReceiptModel>,
    pub outbox: Map<Seq<char>, EnvelopeModel>,
}

/// The table sizes the store reads in its write transaction.
pub open spec fn table_counts(t: TablesModel) -> Counts {
    Counts {
        sessions: t.sessions.len() as u64,
        outbox: t.outbox.len() as u64,
        receipts: t.receipts.len() as u64,
    }
}

/// The stored session of `session_id`, if any.
pub open spec fn stored_session(t: TablesModel, session_id: Seq<char>) -> Option<SessionModel> {
    if t.sessions.contains_key(session_id) {
        Some(t.sessions[session_id])
    } else {
        None
    }
}

/// The outbox after writing each envelope under its id, in order.
pub open spec fn enqueue(outbox: Map<Seq<char>, EnvelopeModel>, envs: Seq<EnvelopeModel>) -> Map<
    Seq<char>,
    EnvelopeModel,
>
    decreases envs.len(),
{
    if envs.len() == 0 {
        outbox
    } else {
        enqueue(outbox, envs.drop_last()).insert(envs.last().id, envs.last())
    }
}

/// One event applied to the store: the tables afterwards and the answer.
/// A bad event id, a replay and a refusal leave every table as it was; an
/// accepted event writes its session, its receipt and its envelopes.
pub open spec fn spec_apply(t: TablesModel, input: InputModel, quota: u32, capacity: u64) -> (
    TablesModel,
    Result<Seq<EnvelopeModel>, StoreError>,
) {
    if !valid_event_id(input.event_id) {
        (t, Err(StoreError::InvalidEventId))
    } else {
        let key = json_pair(input.session_id, input.event_id);
        if t.receipts.contains_key(key) {
            (t, spec_replay(input, t.receipts[key]))
        } else {
            match spec_plan(
                input,
                key,
                stored_session(t, input.session_id),
                table_counts(t),
                quota,
                capacity,
            ) {
                Err(e) => (t, Err(e)),
                Ok((next, receipt)) => (
                    TablesModel {
                        sessions: t.sessions.insert(input.session_id, next),
                        receipts: t.receipts.insert(key, receipt),
                        outbox: enqueue(t.outbox, receipt.actions),
                    },
                    Ok(receipt.actions),
                ),
            }
        }
    }
}

/// Acknowledging an envelope id removes it from the outbox.
pub open spec fn spec_ack(t: TablesModel, id: Seq<char>) -> TablesModel {
    TablesModel { outbox: t.outbox.remove(id), ..t }
}

/// Acknowledging several envelope ids, in order.
pub open spec fn spec_ack_all(t: TablesModel, ids: Seq<Seq<char>>) -> TablesModel
    decreases ids.len(),
{
    if ids.len() == 0 {
        t
    } else {
        spec_ack(spec_ack_all(t, ids.drop_last()), ids.last())
    }
}

/// Acknowledgements touch the outbox only.
proof fn lemma_ack_all_keeps(t: TablesModel, ids: Seq<Seq<char>>)
    ensures
        spec_ack_all(t, ids).sessions == t.sessions,
        spec_ack_all(t, ids).receipts == t.receipts,
    decreases ids.len(),
{
    if ids.len() > 0 {
        lemma_ack_all_keeps(t, ids.drop_last());
    }
}

/// Writing envelopes with pairwise distinct ids puts each under its id and
/// leaves every other row of the outbox as it was.
proof fn lemma_enqueue(outbox: Map<Seq<char>, EnvelopeModel>, envs: Seq<EnvelopeModel>)
    requires
        forall|i: int, j: int|
            0 <= i < envs.len() && 0 <= j < envs.len() && i != j ==> #[trigger] envs[i].id
                != #[trigger] envs[j].id,
    ensures
        forall|n: int|
            0 <= n < envs.len() ==> #[trigger] enqueue(outbox, envs).contains_key(envs[n].id)
                && enqueue(outbox, envs)[envs[n].id] == envs[n],
        forall|id: Seq<char>|
            (forall|n: int| 0 <= n < envs.len() ==> #[trigger] envs[n].id != id) ==> (
            #[trigger] enqueue(outbox, envs).contains_key(id) == outbox.contains_key(id) && (
            outbox.contains_key(id) ==> enqueue(outbox, envs)[id] == outbox[id])),
        forall|id: Seq<char>|
            #[trigger] enqueue(outbox, envs).contains_key(id) ==> outbox.contains_key(id) || exists|
                n: int,
            |
                0 <= n < envs.len() && #[trigger] envs[n].id == id,
    decreases envs.len(),
{
    if envs.len() > 0 {
        let init = envs.drop_last();
        assert forall|i: int, j: int|
            0 <= i < init.len() && 0 <= j < init.len() && i != j implies #[trigger] init[i].id
            != #[trigger] init[j].id by {
            assert(init[i] == envs[i]);
            assert(init[j] == envs[j]);
        }
        lemma_enqueue(outbox, init);
        let last = envs.last();
        let m = enqueue(outbox, envs);
        assert(m == enqueue(outbox, init).insert(last.id, last));
        assert forall|n: int| 0 <= n < envs.len() implies #[trigger] m.contains_key(envs[n].id)
            && m[envs[n].id] == envs[n] by {
            if n < envs.len() - 1 {
                assert(envs[n] == init[n]);
                assert(envs[n].id != envs[envs.len() - 1].id);
            }
        }
        assert forall|id: Seq<char>|
            (forall|n: int| 0 <= n < envs.len() ==> #[trigger] envs[n].id != id) implies (
            #[trigger] m.contains_key(id) == outbox.contains_key(id) && (outbox.contains_key(id)
                ==> m[id] == outbox[id])) by {
            assert(envs[envs.len() - 1].id != id);
            assert forall|n: int| 0 <= n < init.len() implies #[trigger] init[n].id != id by {
                assert(init[n] == envs[n]);
            }
        }
        assert forall|id: Seq<char>| #[trigger] m.contains_key(id) implies outbox.contains_key(
            id,
        ) || exists|n: int| 0 <= n < envs.len() && #[trigger] envs[n].id == id by {
            if id == last.id {
                assert(envs[envs.len() - 1].id == id);
            } else {
                assert(enqueue(outbox, init).contains_key(id));
                if !outbox.contains_key(id) {
                    let n = choose|n: int| 0 <= n < init.len() && #[trigger] init[n].id == id;
                    assert(envs[n] == init[n]);
                }
            }
        }
    }
}

/// Whatever the answer to an event is other than acceptance, the tables
/// are left exactly as they were: a refused event writes nothing.
pub proof fn lemma_refusal_changes_nothing(
    t: TablesModel,
    input: InputModel,
    quota: u32,
    capacity: u64,
)
    requires
        spec_apply(t, input, quota, capacity).1 is Err,
    ensures
        spec_apply(t, input, quota, capacity).0 == t,
{
}

/// An accepted new event adds exactly the planned rows: the charging
/// transition's next session under the session id, the receipt (the event
/// and its envelopes) under the event's key, and each envelope `key:n` of
/// the transition's actions in the outbox; no other row changes.
pub proof fn lemma_accepted_event_writes_its_rows(
    t: TablesModel,
    input: InputModel,
    quota: u32,
    capacity: u64,
)
    requires
        valid_event_id(input.event_id),
        !t.receipts.contains_key(json_pair(input.session_id, input.event_id)),
        spec_apply(t, input, quota, capacity).1 is Ok,
    ensures
        ({
            let key = json_pair(input.session_id, input.event_id);
            let after = spec_apply(t, input, quota, capacity).0;
            let envs = spec_apply(t, input, quota, capacity).1->Ok_0;
            let step = spec_transition(
                input.session_id,
                stored_session(t, input.session_id),
                input.event,
                quota,
            );
            &&& step is Ok
            &&& envs == spec_envelopes(key, input.session_id, step->Ok_0.1)
            &&& forall|n: int|
                0 <= n < envs.len() ==> #[trigger] envs[n].id == envelope_id(key, n as nat)
            &&& after.sessions == t.sessions.insert(input.session_id, step->Ok_0.0)
            &&& after.receipts == t.receipts.insert(
                key,
                ReceiptModel { event: input.event, actions: envs },
            )
            &&& forall|n: int|
                0 <= n < envs.len() ==> #[trigger] after.outbox.contains_key(envs[n].id)
                    && after.outbox[envs[n].id] == envs[n]
            &&& forall|id: Seq<char>|
                (forall|n: int| 0 <= n < envs.len() ==> #[trigger] envs[n].id != id) ==> (
                #[trigger] after.outbox.contains_key(id) == t.outbox.contains_key(id) && (
                t.outbox.contains_key(id) ==> after.outbox[id] == t.outbox[id]))
        }),
{
    let key = json_pair(input.session_id, input.event_id);
    let step = spec_transition(
        input.session_id,
        stored_session(t, input.session_id),
        input.event,
        quota,
    );
    let acts = step->Ok_0.1;
    let envs = spec_envelopes(key, input.session_id, acts);
    assert forall|i: int, j: int|
        0 <= i < envs.len() && 0 <= j < envs.len() && i != j implies #[trigger] envs[i].id
        != #[trigger] envs[j].id by {
        lemma_envelope_ids_distinct(key, input.session_id, acts, i, j);
    }
    lemma_enqueue(t.outbox, envs);
}

/// Replaying an event that the store answered with `Ok` returns the same
/// envelopes again and changes nothing, also after any acknowledgements and
/// after the store was closed and reopened on the same tables:
/// acknowledged envelopes are not enqueued again.
pub proof fn lemma_replay_returns_recorded_actions(
    t: TablesModel,
    input: InputModel,
    acked: Seq<Seq<char>>,
    quota: u32,
    capacity: u64,
)
    requires
        spec_apply(t, input, quota, capacity).1 is Ok,
    ensures
        ({
            let first = spec_apply(t, input, quota, capacity);
            let later = spec_ack_all(first.0, acked);
            spec_apply(later, input, quota, capacity) == (later, first.1)
        }),
{
    let first = spec_apply(t, input, quota, capacity);
    lemma_ack_all_keeps(first.0, acked);
    let key = json_pair(input.session_id, input.event_id);
    if t.receipts.contains_key(key) {
        assert(first.0 == t);
    } else {
        assert(first.0.receipts.contains_key(key));
        assert(first.0.receipts[key].event == input.event);
    }
}

/// Once an event id of a session has been answered with `Ok`, the same id
/// with a different payload is refused with `EventIdReused` and changes
/// nothing, also after any acknowledgements.
pub proof fn lemma_conflicting_replay_changes_nothing(
    t: TablesModel,
    input: InputModel,
    other: InputModel,
    acked: Seq<Seq<char>>,
    quota: u32,
    capacity: u64,
)
    requires
        spec_apply(t, input, quota, capacity).1 is Ok,
        other.session_id == input.session_id,
        other.event_id == input.event_id,
        other.event != input.event,
    ensures
        ({
            let later = spec_ack_all(spec_apply(t, input, quota, capacity).0, acked);
            spec_apply(later, other, quota, capacity) == (
                later,
                Err::<Seq<EnvelopeModel>, StoreError>(StoreError::EventIdReused),
            )
        }),
{
    let first = spec_apply(t, input, quota, capacity);
    lemma_ack_all_keeps(first.0, acked);
    let key = json_pair(input.session_id, input.event_id);
    if t.receipts.contains_key(key) {
        assert(first.0 == t);
    } else {
        assert(first.0.receipts.contains_key(key));
    }
}

} // verus!
