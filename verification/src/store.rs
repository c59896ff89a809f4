//! Decisions of the durable session store: event validation, replay of
//! recorded receipts, capacity limits and the outbox envelopes of each
//! committed transition. The storage itself (one writer per database,
//! session + receipt + outbox written in one transaction) lives with the
//! program; everything it decides is here.
use crate::charging::{
    spec_transition, transition, Action, ActionModel, ChargingError, Event,
    EventModel, Session, SessionModel,
};
use crate::json::json_pair;
use crate::text::{decimal, push_decimal};
use vstd::prelude::*;

verus! {

/// One normalized event addressed to a session, with a caller-chosen
/// stable event id used for deduplication.
#[derive(Debug, Clone, PartialEq, Eq)]
pub struct Input {
    pub session_id: String,
    pub event_id: String,
    pub event: Event,
}

/// An outgoing action with a stable id that consumers acknowledge.
#[derive(Debug, Clone, PartialEq, Eq)]
pub struct Envelope {
    pub id: String,
    pub session_id: String,
    pub action: Action,
}

/// What is recorded for an accepted event: the event and its envelopes.
#[derive(Debug, Clone, PartialEq, Eq)]
pub struct Receipt {
    pub event: Event,
    pub actions: Vec<Envelope>,
}

/// Table sizes read in the same transaction.
#[derive(Debug, Clone, Copy, PartialEq, Eq)]
pub struct Counts {
    pub sessions: u64,
    pub outbox: u64,
    pub receipts: u64,
}

/// The state and receipt to commit for an accepted event. The receipt's
/// envelopes go to the outbox.
#[derive(Debug, Clone, PartialEq, Eq)]
pub struct Commit {
    pub session: Session,
    pub receipt: Receipt,
}

/// Why an event or a store configuration was refused.
#[derive(Debug, Clone, Copy, PartialEq, Eq, Structural)]
pub enum StoreError {
    InvalidLimits,
    InvalidEventId,
    EventIdReused,
    SessionCapacity,
    Charging(ChargingError),
    OutboxFull,
    ReceiptCapacity,
}

/// Mathematical value of an [`Input`].
pub struct InputModel {
    pub session_id: Seq<char>,
    pub event_id: Seq<char>,
    pub event: EventModel,
}

/// Mathematical value of an [`Envelope`].
pub struct EnvelopeModel {
    pub id: Seq<char>,
    pub session_id: Seq<char>,
    pub action: ActionModel,
}

/// Mathematical value of a [`Receipt`].
pub struct ReceiptModel {
    pub event: EventModel,
    pub actions: Seq<EnvelopeModel>,
}

impl DeepView for Input {
    type V = InputModel;

    open spec fn deep_view(&self) -> InputModel {
        InputModel {
            session_id: self.session_id@,
            event_id: self.event_id@,
            event: self.event.deep_view(),
        }
    }
}

impl DeepView for Envelope {
    type V = EnvelopeModel;

    open spec fn deep_view(&self) -> EnvelopeModel {
        EnvelopeModel { id: self.id@, session_id: self.session_id@, action: self.action.deep_view() }
    }
}

impl DeepView for Receipt {
    type V = ReceiptModel;

    open spec fn deep_view(&self) -> ReceiptModel {
        ReceiptModel { event: self.event.deep_view(), actions: self.actions.deep_view() }
    }
}

/// The error type of `serde_json`, carried opaquely.
#[verifier::external_type_specification]
#[verifier::external_body]
pub struct ExJsonError(serde_json::Error);

/// Calls `serde_json::to_string` on the pair `(first, second)`. Two string
/// slices serialize into an in-memory buffer, which cannot fail; the text
/// is the compact JSON array of the two escaped strings.
#[verifier::external_body]
fn json_string_pair(first: &str, second: &str) -> (res: Result<String, serde_json::Error>)
    ensures
        res is Ok,
        res matches Ok(s) ==> s@ == json_pair(first@, second@),
{
    serde_json::to_string(&(first, second))
}

/// Store limits: a positive quota and 1 to 10,000,000 sessions.
pub open spec fn valid_limits(quota: u32, capacity: u64) -> bool {
    quota > 0 && capacity > 0 && capacity <= 10_000_000
}

/// Checks the limits a store is opened with.
pub fn check_limits(quota: u32, capacity: u64) -> (res: Result<(), StoreError>)
    ensures
        res is Ok <==> valid_limits(quota, capacity),
        res matches Err(e) ==> e == StoreError::InvalidLimits,
{
    if quota > 0 && capacity > 0 && capacity <= 10_000_000 {
        Ok(())
    } else {
        Err(StoreError::InvalidLimits)
    }
}

/// An event id: 1 to 100 bytes of UTF-8.
pub open spec fn valid_event_id(id: Seq<char>) -> bool {
    id.len() > 0 && vstd::utf8::encode_utf8(id).len() <= 100
}

/// The deduplication key of an input: the JSON text of
/// `(session_id, event_id)`, once the event id has passed its check.
pub fn receipt_key(input: &Input) -> (res: Result<String, StoreError>)
    ensures
        !valid_event_id(input.event_id@) ==> res == Err::<String, StoreError>(
            StoreError::InvalidEventId,
        ),
        valid_event_id(input.event_id@) ==> (res matches Ok(k) && k@ == json_pair(
            input.session_id@,
            input.event_id@,
        )),
{
    let eid = input.event_id.as_str();
    if eid.is_empty() || eid.as_bytes().len() > 100 {
        return Err(StoreError::InvalidEventId);
    }
    match json_string_pair(input.session_id.as_str(), eid) {
        Ok(k) => Ok(k),
        Err(_) => {
            proof {
                assert(false);
            }
            Err(StoreError::InvalidEventId)
        },
    }
}

/// The id of the `n`-th envelope of the event with key `key`: `key:n`.
pub open spec fn envelope_id(key: Seq<char>, n: nat) -> Seq<char> {
    key + seq![':'] + decimal(n)
}

/// The envelopes of `actions` for the event with key `key`.
pub open spec fn spec_envelopes(key: Seq<char>, session_id: Seq<char>, actions: Seq<ActionModel>) -> Seq<
    EnvelopeModel,
> {
    Seq::new(
        actions.len(),
        |n: int| EnvelopeModel { id: envelope_id(key, n as nat), session_id, action: actions[n] },
    )
}

/// Whether a recorded event and a replayed one carry the same payload.
pub fn same_event(a: &Event, b: &Event) -> (eq: bool)
    ensures
        eq == (a.deep_view() == b.deep_view()),
{
    match (a, b) {
        (Event::InitialDp { subscriber: x }, Event::InitialDp { subscriber: y }) => x.eq(y),
        (Event::Usage { seconds: x }, Event::Usage { seconds: y }) => x == y,
        (Event::Disconnect { seconds: x }, Event::Disconnect { seconds: y }) => x == y,
        (
            Event::Answer { number: n1, success: s1, granted: g1 },
            Event::Answer { number: n2, success: s2, granted: g2 },
        ) => n1 == n2 && s1 == s2 && g1 == g2,
        _ => false,
    }
}

/// What a replayed event id answers: the recorded envelopes when the
/// payload matches, a refusal otherwise.
pub open spec fn spec_replay(input: InputModel, receipt: ReceiptModel) -> Result<
    Seq<EnvelopeModel>,
    StoreError,
> {
    if receipt.event == input.event {
        Ok(receipt.actions)
    } else {
        Err(StoreError::EventIdReused)
    }
}

/// The envelopes inside a fallible result, by value.
pub open spec fn envelopes_result(r: Result<Vec<Envelope>, StoreError>) -> Result<
    Seq<EnvelopeModel>,
    StoreError,
> {
    match r {
        Ok(v) => Ok(v.deep_view()),
        Err(e) => Err(e),
    }
}

/// Answers an event id that already has a receipt. Replayed event ids must
/// carry identical payloads; nothing is re-enqueued.
pub fn replay(input: &Input, receipt: Receipt) -> (res: Result<Vec<Envelope>, StoreError>)
    ensures
        envelopes_result(res) == spec_replay(input.deep_view(), receipt.deep_view()),
{
    if same_event(&receipt.event, &input.event) {
        Ok(receipt.actions)
    } else {
        Err(StoreError::EventIdReused)
    }
}

/// The state and receipt to commit for a new event, or why it is refused.
pub open spec fn spec_plan(
    input: InputModel,
    key: Seq<char>,
    current: Option<SessionModel>,
    counts: Counts,
    quota: u32,
    capacity: u64,
) -> Result<(SessionModel, ReceiptModel), StoreError> {
    if !(current is Some || counts.sessions < capacity) {
        Err(StoreError::SessionCapacity)
    } else {
        match spec_transition(input.session_id, current, input.event, quota) {
            Err(e) => Err(StoreError::Charging(e)),
            Ok((next, actions)) => if counts.outbox + actions.len() > capacity {
                Err(StoreError::OutboxFull)
            } else if counts.receipts >= capacity * 32 {
                Err(StoreError::ReceiptCapacity)
            } else {
                Ok(
                    (
                        next,
                        ReceiptModel {
                            event: input.event,
                            actions: spec_envelopes(key, input.session_id, actions),
                        },
                    ),
                )
            },
        }
    }
}

/// The commit inside a fallible result, by value.
pub open spec fn commit_result(r: Result<Commit, StoreError>) -> Result<
    (SessionModel, ReceiptModel),
    StoreError,
> {
    match r {
        Ok(c) => Ok((c.session.deep_view(), c.receipt.deep_view())),
        Err(e) => Err(e),
    }
}

impl Event {
    /// A copy with the same value.
    pub fn duplicate(&self) -> (r: Event)
        ensures
            r.deep_view() == self.deep_view(),
    {
        match self {
            Event::InitialDp { subscriber } => Event::InitialDp { subscriber: subscriber.clone() },
            Event::Usage { seconds } => Event::Usage { seconds: *seconds },
            Event::Disconnect { seconds } => Event::Disconnect { seconds: *seconds },
            Event::Answer { number, success, granted } => Event::Answer {
                number: *number,
                success: *success,
                granted: *granted,
            },
        }
    }
}

fn envelopes(key: &str, session_id: &String, actions: Vec<Action>) -> (res: Vec<Envelope>)
    ensures
        res.deep_view() == spec_envelopes(key@, session_id@, actions.deep_view()),
{
    let ghost acts = actions.deep_view();
    let n = actions.len();
    let mut out: Vec<Envelope> = Vec::new();
    let mut rest = actions;
    let mut i: usize = 0;
    proof {
        assert(rest.deep_view() =~= acts.skip(0));
    }
    while i < n
        invariant
            n == acts.len(),
            i <= n,
            rest.deep_view() == acts.skip(i as int),
            out.deep_view() == spec_envelopes(key@, session_id@, acts).take(i as int),
        decreases n - i,
    {
        assert(rest.deep_view().len() == rest@.len());
        assert(rest@.len() == n - i);
        assert(rest.deep_view()[0] == rest@[0].deep_view());
        let ghost old_rest = rest.deep_view();
        let action = rest.remove(0);
        assert(action.deep_view() == acts[i as int]);
        assert(rest.deep_view() =~= old_rest.skip(1));
        proof {
            reveal_strlit(":");
        }
        let mut id = key.to_owned();
        id.append(":");
        push_decimal(&mut id, i);
        assert(id@ =~= envelope_id(key@, i as nat));
        let env = Envelope { id, session_id: session_id.clone(), action };
        assert(env.deep_view() == spec_envelopes(key@, session_id@, acts)[i as int]);
        let ghost before = out.deep_view();
        assert(before.len() == i);
        out.push(env);
        proof {
            assert(out.deep_view() =~= before.push(env.deep_view()));
            assert(out.deep_view() =~= spec_envelopes(key@, session_id@, acts).take(i + 1));
            assert(rest.deep_view() =~= acts.skip(i + 1));
        }
        i = i + 1;
    }
    assert(spec_envelopes(key@, session_id@, acts).take(n as int) =~= spec_envelopes(
        key@,
        session_id@,
        acts,
    ));
    out
}

/// Plans the commit for an event whose id has no receipt yet: the session
/// capacity counts stored sessions (tombstones included), the charging
/// transition decides, and the outbox and receipt tables stay bounded.
pub fn plan(
    input: &Input,
    key: &str,
    current: Option<Session>,
    counts: Counts,
    quota: u32,
    capacity: u64,
) -> (res: Result<Commit, StoreError>)
    requires
        valid_limits(quota, capacity),
    ensures
        commit_result(res) == spec_plan(
            input.deep_view(),
            key@,
            current.deep_view(),
            counts,
            quota,
            capacity,
        ),
{
    if !(current.is_some() || counts.sessions < capacity) {
        return Err(StoreError::SessionCapacity);
    }
    let (next, actions) = match transition(input.session_id.as_str(), current, &input.event, quota) {
        Err(e) => {
            return Err(StoreError::Charging(e));
        },
        Ok(r) => r,
    };
    let ghost acts = actions.deep_view();
    let count = actions.len() as u64;
    if counts.outbox > capacity || count > capacity - counts.outbox {
        return Err(StoreError::OutboxFull);
    }
    if counts.receipts >= capacity * 32 {
        return Err(StoreError::ReceiptCapacity);
    }
    let envs = envelopes(key, &input.session_id, actions);
    Ok(Commit { session: next, receipt: Receipt { event: input.event.duplicate(), actions: envs } })
}

/// Replaying an event id with its recorded payload returns exactly the
/// envelopes recorded when it was first accepted; a different payload
/// under the same id is refused.
pub proof fn lemma_replay_is_stable(
    input: InputModel,
    other: EventModel,
    key: Seq<char>,
    current: Option<SessionModel>,
    counts: Counts,
    quota: u32,
    capacity: u64,
)
    requires
        spec_plan(input, key, current, counts, quota, capacity) is Ok,
    ensures
        ({
            let receipt = spec_plan(input, key, current, counts, quota, capacity)->Ok_0.1;
            &&& spec_replay(input, receipt) == Ok::<Seq<EnvelopeModel>, StoreError>(
                receipt.actions,
            )
            &&& other != input.event ==> spec_replay(InputModel { event: other, ..input }, receipt)
                == Err::<Seq<EnvelopeModel>, StoreError>(StoreError::EventIdReused)
        }),
{
}

/// Envelope ids are stable and distinct: each is the event's key followed
/// by `:` and its position, so two envelopes of one event never share an
/// id, and every envelope names the event's session.
pub proof fn lemma_envelope_ids_distinct(
    key: Seq<char>,
    session_id: Seq<char>,
    actions: Seq<ActionModel>,
    i: int,
    j: int,
)
    requires
        0 <= i < actions.len(),
        0 <= j < actions.len(),
        i != j,
    ensures
        spec_envelopes(key, session_id, actions)[i].id != spec_envelopes(
            key,
            session_id,
            actions,
        )[j].id,
        spec_envelopes(key, session_id, actions)[i].session_id == session_id,
        spec_envelopes(key, session_id, actions)[i].id.subrange(0, key.len() as int) == key,
{
    let a = envelope_id(key, i as nat);
    let b = envelope_id(key, j as nat);
    if a == b {
        assert(a.skip(key.len() + 1int) =~= decimal(i as nat));
        assert(b.skip(key.len() + 1int) =~= decimal(j as nat));
        crate::text::lemma_decimal_injective(i as nat, j as nat);
    }
    assert(a.subrange(0, key.len() as int) =~= key);
}

/// An accepted event never overfills the outbox: the recorded envelopes fit
/// within the capacity next to what is already queued.
pub proof fn lemma_outbox_bounded(
    input: InputModel,
    key: Seq<char>,
    current: Option<SessionModel>,
    counts: Counts,
    quota: u32,
    capacity: u64,
)
    requires
        spec_plan(input, key, current, counts, quota, capacity) is Ok,
    ensures
        counts.outbox + spec_plan(input, key, current, counts, quota, capacity)->Ok_0.1.actions.len()
            <= capacity,
{
}

/// An id of the form `key:n` determines its key and position, since the
/// decimal position holds no `:`.
proof fn lemma_id_split(k1: Seq<char>, n1: nat, k2: Seq<char>, n2: nat)
    requires
        envelope_id(k1, n1) == envelope_id(k2, n2),
    ensures
        k1 == k2,
        n1 == n2,
{
    let x = envelope_id(k1, n1);
    let y = envelope_id(k2, n2);
    crate::text::lemma_decimal_digits(n1);
    crate::text::lemma_decimal_digits(n2);
    assert(x.len() == k1.len() + 1 + decimal(n1).len());
    assert(y.len() == k2.len() + 1 + decimal(n2).len());
    if k1.len() < k2.len() {
        assert(y[k2.len() as int] == ':');
        assert(x[k2.len() as int] == decimal(n1)[k2.len() - k1.len() - 1]);
    } else if k2.len() < k1.len() {
        assert(x[k1.len() as int] == ':');
        assert(y[k1.len() as int] == decimal(n2)[k1.len() - k2.len() - 1]);
    } else {
        assert(k1 =~= x.subrange(0, k1.len() as int));
        assert(k2 =~= y.subrange(0, k2.len() as int));
        assert(decimal(n1) =~= x.skip(k1.len() + 1int));
        assert(decimal(n2) =~= y.skip(k2.len() + 1int));
        crate::text::lemma_decimal_injective(n1, n2);
    }
}

/// Envelope ids never collide across events: two envelopes share an id
/// only when they come from the same session, the same event id and the
/// same position. Consumers can therefore use the id to avoid repeating a
/// side effect.
pub proof fn lemma_envelope_ids_unique(
    s1: Seq<char>,
    e1: Seq<char>,
    n1: nat,
    s2: Seq<char>,
    e2: Seq<char>,
    n2: nat,
)
    requires
        envelope_id(json_pair(s1, e1), n1) == envelope_id(json_pair(s2, e2), n2),
    ensures
        s1 == s2,
        e1 == e2,
        n1 == n2,
{
    lemma_id_split(json_pair(s1, e1), n1, json_pair(s2, e2), n2);
    crate::json::lemma_json_pair_injective(s1, e1, s2, e2);
}

} // verus!
