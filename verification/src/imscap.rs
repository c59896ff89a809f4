//! Ro server core facing a TAS: credit-control requests arrive from the
//! TAS, normalized CAMEL operations go toward the charging platform (SCP),
//! and credit-control answers go back. CAP operations here are normalized,
//! not wire ASN.1. The caller must atomically persist state, replay
//! receipts and actions before dispatch.
use crate::charging::{Ccr, CcrModel, RequestType};
use crate::text::{check_session_id, check_subscriber, valid_session_id, valid_subscriber};
use vstd::prelude::*;

verus! {

/// An event reaching the Ro server: a request from the TAS or a
/// normalized operation from the SCP.
#[derive(Debug, Clone, PartialEq, Eq)]
pub enum Event {
    Request(Ccr),
    ApplyCharging { seconds: u32 },
    Continue,
    ReleaseCall,
    DialogueClosed,
}

/// What the server must send next.
#[derive(Debug, Clone, PartialEq, Eq)]
pub enum Action {
    InitialDp { subscriber: String },
    ApplyChargingReport { seconds: u32, call_active: bool },
    // The CAP adapter must map this using the configured originating/terminating BCSM.
    DisconnectEvent,
    Answer { number: u32, kind: RequestType, result: u32, seconds: u32 },
}

/// Durable state of one Ro session.
#[derive(Debug, Clone, PartialEq, Eq)]
pub struct Session {
    pub id: String,
    pub subscriber: String,
    pub next_number: u32,
    pub pending: Option<Ccr>,
    pub grant: u32,
    pub continued: bool,
    pub closed: bool,
}

/// Why an event was refused. A refusal changes nothing.
#[derive(Debug, Clone, Copy, PartialEq, Eq, Structural)]
pub enum ImscapError {
    UnknownSession,
    ExpectedInitial,
    InvalidSessionId,
    InvalidSubscriber,
    InvalidInitialUnits,
    SessionClosed,
    IdentityChanged,
    RequestPending,
    OutOfOrder,
    DuplicateInitial,
    UsageExceedsGrant,
    PartialUpdate,
    TerminationRequestsCredit,
    CounterExhausted,
    NoPendingRequest,
    GrantDuringTermination,
    OverlappingGrant,
    GrantExceedsRequest,
    UnexpectedContinue,
    UnsolicitedRelease,
    ReleaseDuringTermination,
    UnexpectedClose,
    ClosedBeforeAuthorization,
}

/// Mathematical value of an [`Event`].
pub enum EventModel {
    Request(CcrModel),
    ApplyCharging { seconds: u32 },
    Continue,
    ReleaseCall,
    DialogueClosed,
}

/// Mathematical value of an [`Action`].
pub enum ActionModel {
    InitialDp { subscriber: Seq<char> },
    ApplyChargingReport { seconds: u32, call_active: bool },
    DisconnectEvent,
    Answer { number: u32, kind: RequestType, result: u32, seconds: u32 },
}

/// Mathematical value of a [`Session`].
pub struct SessionModel {
    pub id: Seq<char>,
    pub subscriber: Seq<char>,
    pub next_number: u32,
    pub pending: Option<CcrModel>,
    pub grant: u32,
    pub continued: bool,
    pub closed: bool,
}

impl DeepView for Event {
    type V = EventModel;

    open spec fn deep_view(&self) -> EventModel {
        match self {
            Event::Request(r) => EventModel::Request(r.deep_view()),
            Event::ApplyCharging { seconds } => EventModel::ApplyCharging { seconds: *seconds },
            Event::Continue => EventModel::Continue,
            Event::ReleaseCall => EventModel::ReleaseCall,
            Event::DialogueClosed => EventModel::DialogueClosed,
        }
    }
}

impl DeepView for Action {
    type V = ActionModel;

    open spec fn deep_view(&self) -> ActionModel {
        match self {
            Action::InitialDp { subscriber } => ActionModel::InitialDp { subscriber: subscriber@ },
            Action::ApplyChargingReport { seconds, call_active } =>
                ActionModel::ApplyChargingReport { seconds: *seconds, call_active: *call_active },
            Action::DisconnectEvent => ActionModel::DisconnectEvent,
            Action::Answer { number, kind, result, seconds } => ActionModel::Answer {
                number: *number,
                kind: *kind,
                result: *result,
                seconds: *seconds,
            },
        }
    }
}

impl DeepView for Session {
    type V = SessionModel;

    open spec fn deep_view(&self) -> SessionModel {
        SessionModel {
            id: self.id@,
            subscriber: self.subscriber@,
            next_number: self.next_number,
            pending: self.pending.deep_view(),
            grant: self.grant,
            continued: self.continued,
            closed: self.closed,
        }
    }
}

/// Diameter Result-Code for success.
pub const RESULT_SUCCESS: u32 = 2001;

/// Diameter Result-Code for credit limit reached.
pub const RESULT_CREDIT_LIMIT: u32 = 4012;

/// The answer that settles `request`.
pub open spec fn spec_answer(request: CcrModel, result: u32, seconds: u32) -> ActionModel {
    ActionModel::Answer { number: request.number, kind: request.kind, result, seconds }
}

/// The outcome of a transition, by value.
pub open spec fn outcome_model(r: Result<(Session, Vec<Action>), ImscapError>) -> Result<
    (SessionModel, Seq<ActionModel>),
    ImscapError,
> {
    match r {
        Ok((s, a)) => Ok((s.deep_view(), a.deep_view())),
        Err(e) => Err(e),
    }
}

/// The first request of a session.
pub open spec fn spec_open(r: CcrModel) -> Result<(SessionModel, Seq<ActionModel>), ImscapError> {
    if !(r.kind == RequestType::Initial && r.number == 0) {
        Err(ImscapError::ExpectedInitial)
    } else if !valid_session_id(r.session_id) {
        Err(ImscapError::InvalidSessionId)
    } else if !valid_subscriber(r.subscriber) {
        Err(ImscapError::InvalidSubscriber)
    } else if !(r.used_seconds == 0 && r.requested_seconds > 0) {
        Err(ImscapError::InvalidInitialUnits)
    } else {
        Ok(
            (
                SessionModel {
                    id: r.session_id,
                    subscriber: r.subscriber,
                    next_number: 1,
                    pending: Some(r),
                    grant: 0,
                    continued: false,
                    closed: false,
                },
                seq![ActionModel::InitialDp { subscriber: r.subscriber }],
            ),
        )
    }
}

/// A follow-up request (update or termination) from the TAS.
pub open spec fn spec_request(s: SessionModel, r: CcrModel) -> Result<
    (SessionModel, Seq<ActionModel>),
    ImscapError,
> {
    if !(r.session_id == s.id && r.subscriber == s.subscriber) {
        Err(ImscapError::IdentityChanged)
    } else if s.pending is Some {
        Err(ImscapError::RequestPending)
    } else if r.number != s.next_number {
        Err(ImscapError::OutOfOrder)
    } else if r.kind == RequestType::Initial {
        Err(ImscapError::DuplicateInitial)
    } else if r.used_seconds > s.grant {
        Err(ImscapError::UsageExceedsGrant)
    } else if r.kind == RequestType::Update && !(r.used_seconds == s.grant && r.requested_seconds
        > 0) {
        Err(ImscapError::PartialUpdate)
    } else if r.kind != RequestType::Update && r.requested_seconds != 0 {
        Err(ImscapError::TerminationRequestsCredit)
    } else if s.next_number == u32::MAX {
        Err(ImscapError::CounterExhausted)
    } else {
        let report = ActionModel::ApplyChargingReport {
            seconds: r.used_seconds,
            call_active: r.kind != RequestType::Termination,
        };
        Ok(
            (
                SessionModel {
                    next_number: (s.next_number + 1) as u32,
                    grant: 0,
                    pending: Some(r),
                    ..s
                },
                if r.kind == RequestType::Termination {
                    seq![report, ActionModel::DisconnectEvent]
                } else {
                    seq![report]
                },
            ),
        )
    }
}

/// One event applied to an open session, before pending authorizations are
/// settled.
pub open spec fn spec_step(s: SessionModel, event: EventModel) -> Result<
    (SessionModel, Seq<ActionModel>),
    ImscapError,
> {
    match event {
        EventModel::Request(r) => spec_request(s, r),
        EventModel::ApplyCharging { seconds } => match s.pending {
            None => Err(ImscapError::NoPendingRequest),
            Some(r) => if r.kind == RequestType::Termination {
                Err(ImscapError::GrantDuringTermination)
            } else if !(seconds > 0 && s.grant == 0) {
                Err(ImscapError::OverlappingGrant)
            } else if seconds > r.requested_seconds {
                Err(ImscapError::GrantExceedsRequest)
            } else {
                Ok((SessionModel { grant: seconds, ..s }, seq![]))
            },
        },
        EventModel::Continue => if (s.pending matches Some(r) && r.kind == RequestType::Initial)
            && !s.continued {
            Ok((SessionModel { continued: true, ..s }, seq![]))
        } else {
            Err(ImscapError::UnexpectedContinue)
        },
        EventModel::ReleaseCall => match s.pending {
            None => Err(ImscapError::UnsolicitedRelease),
            Some(r) => if r.kind == RequestType::Termination {
                Err(ImscapError::ReleaseDuringTermination)
            } else {
                Ok(
                    (
                        SessionModel { pending: None, closed: true, grant: 0, ..s },
                        seq![spec_answer(r, RESULT_CREDIT_LIMIT, 0)],
                    ),
                )
            },
        },
        EventModel::DialogueClosed => match s.pending {
            None => Err(ImscapError::UnexpectedClose),
            Some(r) => if r.kind != RequestType::Termination {
                Err(ImscapError::ClosedBeforeAuthorization)
            } else {
                Ok(
                    (
                        SessionModel { pending: None, closed: true, ..s },
                        seq![spec_answer(r, RESULT_SUCCESS, 0)],
                    ),
                )
            },
        },
    }
}

/// Answers a pending initial or update request once the SCP has both
/// continued the call and granted time.
pub open spec fn spec_settle(s: SessionModel, actions: Seq<ActionModel>) -> (
    SessionModel,
    Seq<ActionModel>,
) {
    if s.continued && s.grant > 0 && (s.pending matches Some(r) && r.kind
        != RequestType::Termination) {
        (
            SessionModel { pending: None, ..s },
            actions.push(spec_answer(s.pending->0, RESULT_SUCCESS, s.grant)),
        )
    } else {
        (s, actions)
    }
}

/// The Ro server state machine: next session state and actions for one
/// event.
pub open spec fn spec_transition(current: Option<SessionModel>, event: EventModel) -> Result<
    (SessionModel, Seq<ActionModel>),
    ImscapError,
> {
    match current {
        None => match event {
            EventModel::Request(r) => spec_open(r),
            _ => Err(ImscapError::UnknownSession),
        },
        Some(s) => if s.closed {
            Err(ImscapError::SessionClosed)
        } else {
            match spec_step(s, event) {
                Err(e) => Err(e),
                Ok((next, actions)) => Ok(spec_settle(next, actions)),
            }
        },
    }
}

impl Session {
    /// A copy with the same value.
    pub fn duplicate(&self) -> (r: Session)
        ensures
            r.deep_view() == self.deep_view(),
    {
        Session {
            id: self.id.clone(),
            subscriber: self.subscriber.clone(),
            next_number: self.next_number,
            pending: match &self.pending {
                Some(r) => Some(r.duplicate()),
                None => None,
            },
            grant: self.grant,
            continued: self.continued,
            closed: self.closed,
        }
    }
}

fn answer(request: &Ccr, result: u32, seconds: u32) -> (a: Action)
    ensures
        a.deep_view() == spec_answer(request.deep_view(), result, seconds),
{
    Action::Answer { number: request.number, kind: request.kind, result, seconds }
}

fn open(request: &Ccr) -> (res: Result<(Session, Vec<Action>), ImscapError>)
    ensures
        outcome_model(res) == spec_open(request.deep_view()),
{
    if !(request.kind == RequestType::Initial && request.number == 0) {
        return Err(ImscapError::ExpectedInitial);
    }
    if !check_session_id(request.session_id.as_str()) {
        return Err(ImscapError::InvalidSessionId);
    }
    if !check_subscriber(request.subscriber.as_str()) {
        return Err(ImscapError::InvalidSubscriber);
    }
    if !(request.used_seconds == 0 && request.requested_seconds > 0) {
        return Err(ImscapError::InvalidInitialUnits);
    }
    let session = Session {
        id: request.session_id.clone(),
        subscriber: request.subscriber.clone(),
        next_number: 1,
        pending: Some(request.duplicate()),
        grant: 0,
        continued: false,
        closed: false,
    };
    let actions = vec![Action::InitialDp { subscriber: request.subscriber.clone() }];
    proof {
        assert(actions.deep_view() =~= spec_open(request.deep_view())->Ok_0.1);
    }
    Ok((session, actions))
}

fn request_step(mut state: Session, request: &Ccr) -> (res: Result<(Session, Vec<Action>), ImscapError>)
    ensures
        outcome_model(res) == spec_request(state.deep_view(), request.deep_view()),
{
    if !(request.session_id == state.id && request.subscriber == state.subscriber) {
        return Err(ImscapError::IdentityChanged);
    }
    if state.pending.is_some() {
        return Err(ImscapError::RequestPending);
    }
    if request.number != state.next_number {
        return Err(ImscapError::OutOfOrder);
    }
    if request.kind == RequestType::Initial {
        return Err(ImscapError::DuplicateInitial);
    }
    if request.used_seconds > state.grant {
        return Err(ImscapError::UsageExceedsGrant);
    }
    if request.kind == RequestType::Update {
        if !(request.used_seconds == state.grant && request.requested_seconds > 0) {
            return Err(ImscapError::PartialUpdate);
        }
    } else {
        if request.requested_seconds != 0 {
            return Err(ImscapError::TerminationRequestsCredit);
        }
    }
    if state.next_number == u32::MAX {
        return Err(ImscapError::CounterExhausted);
    }
    let ghost s0 = state.deep_view();
    state.next_number = state.next_number + 1;
    let mut actions: Vec<Action> = Vec::new();
    actions.push(
        Action::ApplyChargingReport {
            seconds: request.used_seconds,
            call_active: request.kind != RequestType::Termination,
        },
    );
    if request.kind == RequestType::Termination {
        actions.push(Action::DisconnectEvent);
    }
    state.grant = 0;
    state.pending = Some(request.duplicate());
    proof {
        assert(actions.deep_view() =~= spec_request(s0, request.deep_view())->Ok_0.1);
    }
    Ok((state, actions))
}

fn step(mut state: Session, event: &Event) -> (res: Result<(Session, Vec<Action>), ImscapError>)
    ensures
        outcome_model(res) == spec_step(state.deep_view(), event.deep_view()),
{
    let ghost s0 = state.deep_view();
    match event {
        Event::Request(request) => request_step(state, request),
        Event::ApplyCharging { seconds } => {
            let requested;
            match &state.pending {
                None => {
                    return Err(ImscapError::NoPendingRequest);
                },
                Some(request) => {
                    if request.kind == RequestType::Termination {
                        return Err(ImscapError::GrantDuringTermination);
                    }
                    requested = request.requested_seconds;
                },
            }
            if !(*seconds > 0 && state.grant == 0) {
                return Err(ImscapError::OverlappingGrant);
            }
            // Never silently truncate a CAMEL grant: that would desynchronise the SCP.
            if *seconds > requested {
                return Err(ImscapError::GrantExceedsRequest);
            }
            state.grant = *seconds;
            let actions: Vec<Action> = Vec::new();
            proof {
                assert(actions.deep_view() =~= Seq::<ActionModel>::empty());
            }
            Ok((state, actions))
        },
        Event::Continue => {
            let initial = match &state.pending {
                Some(r) => r.kind == RequestType::Initial,
                None => false,
            };
            if !(initial && !state.continued) {
                return Err(ImscapError::UnexpectedContinue);
            }
            state.continued = true;
            let actions: Vec<Action> = Vec::new();
            proof {
                assert(actions.deep_view() =~= Seq::<ActionModel>::empty());
            }
            Ok((state, actions))
        },
        Event::ReleaseCall => {
            let request = match state.pending.take() {
                Some(r) => r,
                None => {
                    return Err(ImscapError::UnsolicitedRelease);
                },
            };
            if request.kind == RequestType::Termination {
                return Err(ImscapError::ReleaseDuringTermination);
            }
            let actions = vec![answer(&request, RESULT_CREDIT_LIMIT, 0)];
            state.closed = true;
            state.grant = 0;
            proof {
                assert(actions.deep_view() =~= spec_step(s0, event.deep_view())->Ok_0.1);
            }
            Ok((state, actions))
        },
        Event::DialogueClosed => {
            let request = match state.pending.take() {
                Some(r) => r,
                None => {
                    return Err(ImscapError::UnexpectedClose);
                },
            };
            if request.kind != RequestType::Termination {
                return Err(ImscapError::ClosedBeforeAuthorization);
            }
            let actions = vec![answer(&request, RESULT_SUCCESS, 0)];
            state.closed = true;
            proof {
                assert(actions.deep_view() =~= spec_step(s0, event.deep_view())->Ok_0.1);
            }
            Ok((state, actions))
        },
    }
}

fn settle(mut state: Session, mut actions: Vec<Action>) -> (res: (Session, Vec<Action>))
    ensures
        (res.0.deep_view(), res.1.deep_view()) == spec_settle(
            state.deep_view(),
            actions.deep_view(),
        ),
{
    let ghost s0 = state.deep_view();
    let ghost a0 = actions.deep_view();
    let ready = match &state.pending {
        Some(r) => state.continued && state.grant > 0 && r.kind != RequestType::Termination,
        None => false,
    };
    if ready {
        let request = match state.pending.take() {
            Some(r) => r,
            None => {
                proof {
                    assert(false);
                }
                return (state, actions);
            },
        };
        actions.push(answer(&request, RESULT_SUCCESS, state.grant));
        proof {
            assert(actions.deep_view() =~= spec_settle(s0, a0).1);
        }
    }
    (state, actions)
}

/// Deterministic transition: errors leave the caller's original state
/// untouched. Duplicate CCRs must be intercepted by a durable receipt layer
/// before this function. This first profile supports whole-grant,
/// time-based updates only.
pub fn transition(current: Option<&Session>, event: &Event) -> (res: Result<
    (Session, Vec<Action>),
    ImscapError,
>)
    ensures
        outcome_model(res) == spec_transition(
            match current {
                Some(s) => Some(s.deep_view()),
                None => None,
            },
            event.deep_view(),
        ),
{
    let state = match current {
        None => {
            return match event {
                Event::Request(request) => open(request),
                _ => Err(ImscapError::UnknownSession),
            };
        },
        Some(s) => s.duplicate(),
    };
    if state.closed {
        return Err(ImscapError::SessionClosed);
    }
    match step(state, event) {
        Err(e) => Err(e),
        Ok((next, actions)) => Ok(settle(next, actions)),
    }
}

/// A well-formed Ro session: the counter has moved past the outstanding
/// request, which belongs to this session; a closed session has nothing
/// outstanding; a termination carries no grant; a grant stays within what
/// the outstanding request asked for and is never left unanswered once the
/// call has been continued.
pub open spec fn session_wf(s: SessionModel) -> bool {
    &&& s.next_number >= 1
    &&& s.closed ==> s.pending is None
    &&& s.pending matches Some(r) ==> {
        &&& r.number + 1 == s.next_number
        &&& r.session_id == s.id
        &&& r.subscriber == s.subscriber
        &&& r.kind == RequestType::Termination ==> s.grant == 0
        &&& r.kind != RequestType::Termination ==> s.grant <= r.requested_seconds
        &&& r.kind != RequestType::Termination && s.grant > 0 ==> !s.continued
    }
}

/// Every accepted event leaves a well-formed session, starting from no
/// session or a well-formed one.
pub proof fn lemma_transition_keeps_wf(current: Option<SessionModel>, event: EventModel)
    requires
        current matches Some(s) ==> session_wf(s),
        spec_transition(current, event) is Ok,
    ensures
        session_wf(spec_transition(current, event)->Ok_0.0),
{
}

/// Answers settle the outstanding request: every answer carries the number
/// of the request just settled, nothing stays outstanding after it, and
/// credit is granted only once the SCP has both continued the call and
/// applied charging, for exactly the applied seconds.
pub proof fn lemma_answers_settle(current: Option<SessionModel>, event: EventModel)
    requires
        current matches Some(s) ==> session_wf(s),
        spec_transition(current, event) is Ok,
    ensures
        ({
            let (next, actions) = spec_transition(current, event)->Ok_0;
            forall|i: int|
                0 <= i < actions.len() ==> (#[trigger] actions[i] matches ActionModel::Answer {
                    number,
                    result,
                    seconds,
                    ..
                } ==> {
                    &&& number + 1 == next.next_number
                    &&& next.pending is None
                    &&& seconds > 0 ==> result == RESULT_SUCCESS && next.continued && seconds
                        == next.grant
                })
        }),
{
}

/// A closed session accepts no event at all.
pub proof fn lemma_closed_is_final(s: SessionModel, event: EventModel)
    requires
        s.closed,
    ensures
        spec_transition(Some(s), event) is Err,
{
}

/// Requests are taken strictly in order: an accepted request carries the
/// session's next number and the counter moves one past it.
pub proof fn lemma_requests_in_order(s: SessionModel, r: CcrModel)
    requires
        spec_transition(Some(s), EventModel::Request(r)) is Ok,
    ensures
        r.number == s.next_number,
        spec_transition(Some(s), EventModel::Request(r))->Ok_0.0.next_number == r.number + 1,
{
}

/// Continue and ApplyCharging may arrive in either order: while an initial
/// request awaits authorization, neither alone answers anything, and both
/// together, in either order, lead to the same session and the same single
/// successful answer granting the applied seconds.
pub proof fn lemma_continue_and_grant_commute(s: SessionModel, r: CcrModel, seconds: u32)
    requires
        session_wf(s),
        !s.closed,
        s.pending == Some(r),
        r.kind == RequestType::Initial,
        !s.continued,
        s.grant == 0,
        0 < seconds <= r.requested_seconds,
    ensures
        ({
            let c = spec_transition(Some(s), EventModel::Continue);
            let g = spec_transition(Some(s), EventModel::ApplyCharging { seconds });
            &&& c is Ok && c->Ok_0.1.len() == 0
            &&& g is Ok && g->Ok_0.1.len() == 0
            &&& spec_transition(Some(c->Ok_0.0), EventModel::ApplyCharging { seconds }) == spec_transition(
                Some(g->Ok_0.0),
                EventModel::Continue,
            )
            &&& spec_transition(Some(c->Ok_0.0), EventModel::ApplyCharging { seconds }) == Ok::<
                (SessionModel, Seq<ActionModel>),
                ImscapError,
            >(
                (
                    SessionModel { pending: None, continued: true, grant: seconds, ..s },
                    seq![spec_answer(r, RESULT_SUCCESS, seconds)],
                ),
            )
        }),
{
    let c = spec_transition(Some(s), EventModel::Continue);
    let g = spec_transition(Some(s), EventModel::ApplyCharging { seconds });
    assert(c->Ok_0.1 =~= Seq::<ActionModel>::empty());
    assert(g->Ok_0.1 =~= Seq::<ActionModel>::empty());
    let cg = spec_transition(Some(c->Ok_0.0), EventModel::ApplyCharging { seconds });
    let gc = spec_transition(Some(g->Ok_0.0), EventModel::Continue);
    assert(cg->Ok_0.1 =~= seq![spec_answer(r, RESULT_SUCCESS, seconds)]);
    assert(gc->Ok_0.1 =~= seq![spec_answer(r, RESULT_SUCCESS, seconds)]);
}

/// An accepted follow-up request from the TAS is reported to the SCP
/// first: an ApplyChargingReport of exactly the seconds the request
/// reports, marking the call active for an update and inactive for a
/// termination. An update reports nothing else; a termination is followed
/// by a DisconnectEvent and nothing else, and is answered only once the
/// dialogue closes.
pub proof fn lemma_request_reports_usage(s: SessionModel, r: CcrModel)
    requires
        spec_transition(Some(s), EventModel::Request(r)) is Ok,
    ensures
        ({
            let (next, actions) = spec_transition(Some(s), EventModel::Request(r))->Ok_0;
            &&& r.kind == RequestType::Update || r.kind == RequestType::Termination
            &&& actions.len() >= 1
            &&& actions[0] matches ActionModel::ApplyChargingReport { seconds, call_active } && {
                &&& seconds == r.used_seconds
                &&& (call_active <==> r.kind == RequestType::Update)
                &&& (!call_active <==> r.kind == RequestType::Termination)
            }
            &&& r.kind == RequestType::Update ==> actions.len() == 1
            &&& r.kind == RequestType::Termination ==> {
                &&& actions.len() == 2
                &&& actions[1] == ActionModel::DisconnectEvent
                &&& next.pending == Some(r)
            }
        }),
{
}

} // verus!
