//! Normalized single-service voice charging: the call-control side asks a
//! Diameter Ro OCS for time quota. These types are normalized events, not
//! CAP ASN.1.
use crate::text::{check_session_id, check_subscriber, valid_session_id, valid_subscriber};
use vstd::prelude::*;

verus! {

/// A normalized call-control or charging event.
#[derive(Debug, Clone, PartialEq, Eq)]
pub enum Event {
    InitialDp { subscriber: String },
    Usage { seconds: u32 },
    Disconnect { seconds: u32 },
    Answer { number: u32, success: bool, granted: u32 },
}

/// CC-Request-Type of a credit-control request.
#[derive(Debug, Clone, Copy, PartialEq, Eq, Structural)]
pub enum RequestType {
    Initial,
    Update,
    Termination,
}

/// A normalized credit-control request.
#[derive(Debug, Clone, PartialEq, Eq)]
pub struct Ccr {
    pub session_id: String,
    pub subscriber: String,
    pub number: u32,
    pub kind: RequestType,
    pub used_seconds: u32,
    pub requested_seconds: u32,
}

/// What the call-control adapter must do next.
#[derive(Debug, Clone, PartialEq, Eq)]
pub enum Action {
    SendCcr(Ccr),
    /// Adapter must request BCSM events, apply the quota, then continue the call.
    StartCall { seconds: u32 },
    ApplyCharging { seconds: u32 },
    ReleaseCall,
    EndDialogue,
}

/// Where a charging session stands.
#[derive(Debug, Clone, PartialEq, Eq)]
pub enum Phase {
    Awaiting(Ccr),
    Active { quota: u32 },
    Closed,
}

/// Durable state of one charging session.
#[derive(Debug, Clone, PartialEq, Eq)]
pub struct Session {
    pub subscriber: String,
    pub next_number: u32,
    pub phase: Phase,
}

/// Why an event was refused. A refusal changes nothing.
#[derive(Debug, Clone, Copy, PartialEq, Eq, Structural)]
pub enum ChargingError {
    InvalidSessionId,
    InvalidQuota,
    SessionExists,
    InvalidSubscriber,
    UnknownSession,
    UsageExceedsQuota,
    CounterExhausted,
    AnswerMismatch,
    TerminationRejected,
    GrantExceedsRequest,
    InvalidPhase,
}

impl RequestType {
    /// The CC-Request-Type value on the wire.
    pub open spec fn spec_code(self) -> u32 {
        match self {
            RequestType::Initial => 1,
            RequestType::Update => 2,
            RequestType::Termination => 3,
        }
    }

    /// The CC-Request-Type value on the wire: 1, 2 or 3.
    pub fn code(&self) -> (c: u32)
        ensures
            c == self.spec_code(),
    {
        match self {
            RequestType::Initial => 1,
            RequestType::Update => 2,
            RequestType::Termination => 3,
        }
    }
}

/// Mathematical value of an [`Event`].
pub enum EventModel {
    InitialDp { subscriber: Seq<char> },
    Usage { seconds: u32 },
    Disconnect { seconds: u32 },
    Answer { number: u32, success: bool, granted: u32 },
}

/// Mathematical value of a [`Ccr`].
pub struct CcrModel {
    pub session_id: Seq<char>,
    pub subscriber: Seq<char>,
    pub number: u32,
    pub kind: RequestType,
    pub used_seconds: u32,
    pub requested_seconds: u32,
}

/// Mathematical value of an [`Action`].
pub enum ActionModel {
    SendCcr(CcrModel),
    StartCall { seconds: u32 },
    ApplyCharging { seconds: u32 },
    ReleaseCall,
    EndDialogue,
}

/// Mathematical value of a [`Phase`].
pub enum PhaseModel {
    Awaiting(CcrModel),
    Active { quota: u32 },
    Closed,
}

/// Mathematical value of a [`Session`].
pub struct SessionModel {
    pub subscriber: Seq<char>,
    pub next_number: u32,
    pub phase: PhaseModel,
}

impl DeepView for Event {
    type V = EventModel;

    open spec fn deep_view(&self) -> EventModel {
        match self {
            Event::InitialDp { subscriber } => EventModel::InitialDp { subscriber: subscriber@ },
            Event::Usage { seconds } => EventModel::Usage { seconds: *seconds },
            Event::Disconnect { seconds } => EventModel::Disconnect { seconds: *seconds },
            Event::Answer { number, success, granted } => EventModel::Answer {
                number: *number,
                success: *success,
                granted: *granted,
            },
        }
    }
}

impl DeepView for Ccr {
    type V = CcrModel;

    open spec fn deep_view(&self) -> CcrModel {
        CcrModel {
            session_id: self.session_id@,
            subscriber: self.subscriber@,
            number: self.number,
            kind: self.kind,
            used_seconds: self.used_seconds,
            requested_seconds: self.requested_seconds,
        }
    }
}

impl DeepView for Action {
    type V = ActionModel;

    open spec fn deep_view(&self) -> ActionModel {
        match self {
            Action::SendCcr(r) => ActionModel::SendCcr(r.deep_view()),
            Action::StartCall { seconds } => ActionModel::StartCall { seconds: *seconds },
            Action::ApplyCharging { seconds } => ActionModel::ApplyCharging { seconds: *seconds },
            Action::ReleaseCall => ActionModel::ReleaseCall,
            Action::EndDialogue => ActionModel::EndDialogue,
        }
    }
}

impl DeepView for Phase {
    type V = PhaseModel;

    open spec fn deep_view(&self) -> PhaseModel {
        match self {
            Phase::Awaiting(r) => PhaseModel::Awaiting(r.deep_view()),
            Phase::Active { quota } => PhaseModel::Active { quota: *quota },
            Phase::Closed => PhaseModel::Closed,
        }
    }
}

impl DeepView for Session {
    type V = SessionModel;

    open spec fn deep_view(&self) -> SessionModel {
        SessionModel {
            subscriber: self.subscriber@,
            next_number: self.next_number,
            phase: self.phase.deep_view(),
        }
    }
}

impl Ccr {
    /// A copy with the same value.
    pub fn duplicate(&self) -> (r: Ccr)
        ensures
            r.deep_view() == self.deep_view(),
    {
        Ccr {
            session_id: self.session_id.clone(),
            subscriber: self.subscriber.clone(),
            number: self.number,
            kind: self.kind,
            used_seconds: self.used_seconds,
            requested_seconds: self.requested_seconds,
        }
    }
}

/// The outcome of a transition, by value.
pub open spec fn outcome_model(r: Result<(Session, Vec<Action>), ChargingError>) -> Result<
    (SessionModel, Seq<ActionModel>),
    ChargingError,
> {
    match r {
        Ok((s, a)) => Ok((s.deep_view(), a.deep_view())),
        Err(e) => Err(e),
    }
}

/// A usage report (update) or final report (termination) while quota is active.
pub open spec fn spec_report(
    id: Seq<char>,
    s: SessionModel,
    seconds: u32,
    remaining: u32,
    kind: RequestType,
    quota: u32,
) -> Result<(SessionModel, Seq<ActionModel>), ChargingError> {
    if seconds > remaining {
        Err(ChargingError::UsageExceedsQuota)
    } else if s.next_number == u32::MAX {
        Err(ChargingError::CounterExhausted)
    } else {
        let request = CcrModel {
            session_id: id,
            subscriber: s.subscriber,
            number: s.next_number,
            kind,
            used_seconds: seconds,
            requested_seconds: if kind == RequestType::Termination {
                0
            } else {
                quota
            },
        };
        Ok(
            (
                SessionModel {
                    subscriber: s.subscriber,
                    next_number: (s.next_number + 1) as u32,
                    phase: PhaseModel::Awaiting(request),
                },
                seq![ActionModel::SendCcr(request)],
            ),
        )
    }
}

/// The OCS answer to the outstanding request `request`.
pub open spec fn spec_answer(
    s: SessionModel,
    request: CcrModel,
    number: u32,
    success: bool,
    granted: u32,
) -> Result<(SessionModel, Seq<ActionModel>), ChargingError> {
    if number != request.number {
        Err(ChargingError::AnswerMismatch)
    } else if request.kind == RequestType::Termination {
        if !success {
            Err(ChargingError::TerminationRejected)
        } else {
            Ok((SessionModel { phase: PhaseModel::Closed, ..s }, seq![ActionModel::EndDialogue]))
        }
    } else if !success || granted == 0 {
        Ok((SessionModel { phase: PhaseModel::Closed, ..s }, seq![ActionModel::ReleaseCall]))
    } else if granted > request.requested_seconds {
        Err(ChargingError::GrantExceedsRequest)
    } else {
        Ok(
            (
                SessionModel { phase: PhaseModel::Active { quota: granted }, ..s },
                seq![
                    if request.kind == RequestType::Initial {
                        ActionModel::StartCall { seconds: granted }
                    } else {
                        ActionModel::ApplyCharging { seconds: granted }
                    },
                ],
            ),
        )
    }
}

/// The charging state machine: next session state and actions for one event.
pub open spec fn spec_transition(
    id: Seq<char>,
    current: Option<SessionModel>,
    event: EventModel,
    quota: u32,
) -> Result<(SessionModel, Seq<ActionModel>), ChargingError> {
    if !valid_session_id(id) {
        Err(ChargingError::InvalidSessionId)
    } else if quota == 0 {
        Err(ChargingError::InvalidQuota)
    } else {
        match event {
            EventModel::InitialDp { subscriber } => {
                if current is Some {
                    Err(ChargingError::SessionExists)
                } else if !valid_subscriber(subscriber) {
                    Err(ChargingError::InvalidSubscriber)
                } else {
                    let request = CcrModel {
                        session_id: id,
                        subscriber,
                        number: 0,
                        kind: RequestType::Initial,
                        used_seconds: 0,
                        requested_seconds: quota,
                    };
                    Ok(
                        (
                            SessionModel {
                                subscriber,
                                next_number: 1,
                                phase: PhaseModel::Awaiting(request),
                            },
                            seq![ActionModel::SendCcr(request)],
                        ),
                    )
                }
            },
            _ => match current {
                None => Err(ChargingError::UnknownSession),
                Some(s) => match (s.phase, event) {
                    (PhaseModel::Active { quota: remaining }, EventModel::Usage { seconds }) => {
                        spec_report(id, s, seconds, remaining, RequestType::Update, quota)
                    },
                    (PhaseModel::Active { quota: remaining }, EventModel::Disconnect { seconds }) => {
                        spec_report(id, s, seconds, remaining, RequestType::Termination, quota)
                    },
                    (
                        PhaseModel::Awaiting(request),
                        EventModel::Answer { number, success, granted },
                    ) => spec_answer(s, request, number, success, granted),
                    _ => Err(ChargingError::InvalidPhase),
                },
            },
        }
    }
}

fn report(
    id: &str,
    session: Session,
    seconds: u32,
    remaining: u32,
    kind: RequestType,
    quota: u32,
) -> (res: Result<(Session, Vec<Action>), ChargingError>)
    ensures
        outcome_model(res) == spec_report(
            id@,
            session.deep_view(),
            seconds,
            remaining,
            kind,
            quota,
        ),
{
    if seconds > remaining {
        return Err(ChargingError::UsageExceedsQuota);
    }
    if session.next_number == u32::MAX {
        return Err(ChargingError::CounterExhausted);
    }
    let request = Ccr {
        session_id: id.to_owned(),
        subscriber: session.subscriber.clone(),
        number: session.next_number,
        kind,
        used_seconds: seconds,
        requested_seconds: if kind == RequestType::Termination {
            0
        } else {
            quota
        },
    };
    let next = Session {
        subscriber: session.subscriber,
        next_number: session.next_number + 1,
        phase: Phase::Awaiting(request.duplicate()),
    };
    let actions = vec![Action::SendCcr(request)];
    proof {
        let expected = spec_report(id@, session.deep_view(), seconds, remaining, kind, quota);
        assert(actions.deep_view() =~= expected->Ok_0.1);
    }
    Ok((next, actions))
}

fn answer(session: Session, request: &Ccr, number: u32, success: bool, granted: u32) -> (res:
    Result<(Session, Vec<Action>), ChargingError>)
    ensures
        outcome_model(res) == spec_answer(
            session.deep_view(),
            request.deep_view(),
            number,
            success,
            granted,
        ),
{
    if number != request.number {
        return Err(ChargingError::AnswerMismatch);
    }
    let action;
    let phase;
    if request.kind == RequestType::Termination {
        // A failed final debit needs reconciliation, not a successful close.
        if !success {
            return Err(ChargingError::TerminationRejected);
        }
        phase = Phase::Closed;
        action = Action::EndDialogue;
    } else if !success || granted == 0 {
        phase = Phase::Closed;
        action = Action::ReleaseCall;
    } else {
        if granted > request.requested_seconds {
            return Err(ChargingError::GrantExceedsRequest);
        }
        phase = Phase::Active { quota: granted };
        action = if request.kind == RequestType::Initial {
            Action::StartCall { seconds: granted }
        } else {
            Action::ApplyCharging { seconds: granted }
        };
    }
    let next = Session { subscriber: session.subscriber, next_number: session.next_number, phase };
    let actions = vec![action];
    proof {
        let expected = spec_answer(session.deep_view(), request.deep_view(), number, success, granted);
        assert(actions.deep_view() =~= expected->Ok_0.1);
    }
    Ok((next, actions))
}

/// Advances one charging session by one event. `current` is the stored
/// session, if any; `quota` is the number of seconds asked for in each
/// initial or update request.
pub fn transition(id: &str, current: Option<Session>, event: &Event, quota: u32) -> (res: Result<
    (Session, Vec<Action>),
    ChargingError,
>)
    ensures
        outcome_model(res) == spec_transition(
            id@,
            current.deep_view(),
            event.deep_view(),
            quota,
        ),
{
    if !check_session_id(id) {
        return Err(ChargingError::InvalidSessionId);
    }
    if quota == 0 {
        return Err(ChargingError::InvalidQuota);
    }
    if let Event::InitialDp { subscriber } = event {
        if current.is_some() {
            return Err(ChargingError::SessionExists);
        }
        if !check_subscriber(subscriber.as_str()) {
            return Err(ChargingError::InvalidSubscriber);
        }
        let request = Ccr {
            session_id: id.to_owned(),
            subscriber: subscriber.clone(),
            number: 0,
            kind: RequestType::Initial,
            used_seconds: 0,
            requested_seconds: quota,
        };
        let next = Session {
            subscriber: subscriber.clone(),
            next_number: 1,
            phase: Phase::Awaiting(request.duplicate()),
        };
        let actions = vec![Action::SendCcr(request)];
        proof {
            let expected = spec_transition(id@, current.deep_view(), event.deep_view(), quota);
            assert(actions.deep_view() =~= expected->Ok_0.1);
        }
        return Ok((next, actions));
    }
    let session = match current {
        Some(s) => s,
        None => {
            return Err(ChargingError::UnknownSession);
        },
    };
    match (&session.phase, event) {
        (Phase::Active { quota: remaining }, Event::Usage { seconds }) => {
            let remaining = *remaining;
            report(id, session, *seconds, remaining, RequestType::Update, quota)
        },
        (Phase::Active { quota: remaining }, Event::Disconnect { seconds }) => {
            let remaining = *remaining;
            report(id, session, *seconds, remaining, RequestType::Termination, quota)
        },
        (Phase::Awaiting(request), Event::Answer { number, success, granted }) => {
            let request = request.duplicate();
            answer(session, &request, *number, *success, *granted)
        },
        _ => Err(ChargingError::InvalidPhase),
    }
}

/// A well-formed session: the subscriber is a valid MSISDN, the request
/// counter has moved past the initial request, an outstanding request
/// carries the number just used and the session's subscriber, and an active
/// quota is positive.
pub open spec fn session_wf(s: SessionModel) -> bool {
    &&& valid_subscriber(s.subscriber)
    &&& s.next_number >= 1
    &&& match s.phase {
        PhaseModel::Awaiting(r) => r.number + 1 == s.next_number && r.subscriber == s.subscriber,
        PhaseModel::Active { quota } => quota > 0,
        PhaseModel::Closed => true,
    }
}

/// The number the next request of a session will carry.
pub open spec fn next_request_number(current: Option<SessionModel>) -> u32 {
    match current {
        Some(s) => s.next_number,
        None => 0,
    }
}

/// Every accepted event leaves a well-formed session, starting from no
/// session or a well-formed one.
pub proof fn lemma_transition_keeps_wf(
    id: Seq<char>,
    current: Option<SessionModel>,
    event: EventModel,
    quota: u32,
)
    requires
        current matches Some(s) ==> session_wf(s),
        spec_transition(id, current, event, quota) is Ok,
    ensures
        session_wf(spec_transition(id, current, event, quota)->Ok_0.0),
{
}

/// Request numbering: an accepted event yields exactly one action; when it
/// is a request, that request carries the session's next number (zero for
/// the first) and the counter moves one past it. The counter never goes
/// back.
pub proof fn lemma_request_numbering(
    id: Seq<char>,
    current: Option<SessionModel>,
    event: EventModel,
    quota: u32,
)
    requires
        spec_transition(id, current, event, quota) is Ok,
    ensures
        ({
            let (next, actions) = spec_transition(id, current, event, quota)->Ok_0;
            &&& actions.len() == 1
            &&& next.next_number >= next_request_number(current)
            &&& actions[0] matches ActionModel::SendCcr(r) ==> {
                &&& r.number == next_request_number(current)
                &&& next.next_number == r.number + 1
                &&& r.session_id == id
            }
        }),
{
}

/// A closed session accepts no event at all.
pub proof fn lemma_closed_is_final(
    id: Seq<char>,
    s: SessionModel,
    event: EventModel,
    quota: u32,
)
    requires
        s.phase is Closed,
    ensures
        spec_transition(id, Some(s), event, quota) is Err,
{
}

/// Quota bounds: a grant never exceeds what the answered request asked
/// for, and reported usage never exceeds the active grant.
pub proof fn lemma_quota_bounds(
    id: Seq<char>,
    s: SessionModel,
    event: EventModel,
    quota: u32,
)
    requires
        spec_transition(id, Some(s), event, quota) is Ok,
    ensures
        ({
            let (next, actions) = spec_transition(id, Some(s), event, quota)->Ok_0;
            &&& (s.phase matches PhaseModel::Awaiting(r) ==> (next.phase matches PhaseModel::Active {
                quota: q,
            } ==> 0 < q <= r.requested_seconds))
            &&& (s.phase matches PhaseModel::Active { quota: remaining } ==> (
            actions[0] matches ActionModel::SendCcr(r) ==> r.used_seconds <= remaining))
        }),
{
}

/// Settlement: an answer refusing a termination request is itself refused,
/// so the request stays outstanding for reconciliation; a refused or zero
/// grant for any other request releases the call and closes the session.
pub proof fn lemma_settlement(
    id: Seq<char>,
    s: SessionModel,
    r: CcrModel,
    success: bool,
    granted: u32,
    quota: u32,
)
    requires
        valid_session_id(id),
        quota > 0,
        s.phase == PhaseModel::Awaiting(r),
    ensures
        r.kind == RequestType::Termination && !success ==> spec_transition(
            id,
            Some(s),
            EventModel::Answer { number: r.number, success, granted },
            quota,
        ) == Err::<(SessionModel, Seq<ActionModel>), ChargingError>(
            ChargingError::TerminationRejected,
        ),
        r.kind != RequestType::Termination && (!success || granted == 0) ==> spec_transition(
            id,
            Some(s),
            EventModel::Answer { number: r.number, success, granted },
            quota,
        ) == Ok::<(SessionModel, Seq<ActionModel>), ChargingError>(
            (SessionModel { phase: PhaseModel::Closed, ..s }, seq![ActionModel::ReleaseCall]),
        ),
{
}

/// Every request the charging core sends is well formed: it names the
/// session, carries a valid subscriber, reports no usage when initial and
/// asks for nothing when terminating.
pub proof fn lemma_sent_request_shape(
    id: Seq<char>,
    current: Option<SessionModel>,
    event: EventModel,
    quota: u32,
)
    requires
        current matches Some(s) ==> session_wf(s),
        spec_transition(id, current, event, quota) is Ok,
        spec_transition(id, current, event, quota)->Ok_0.1[0] is SendCcr,
    ensures
        ({
            let r = spec_transition(id, current, event, quota)->Ok_0.1[0]->SendCcr_0;
            &&& r.session_id == id
            &&& valid_session_id(id)
            &&& valid_subscriber(r.subscriber)
            &&& r.kind == RequestType::Initial ==> r.used_seconds == 0
            &&& r.kind == RequestType::Termination ==> r.requested_seconds == 0
        }),
{
}

/// A new session asks the OCS for the configured quota: the first event
/// sends exactly one Initial request numbered 0 that names the session and
/// the subscriber, reports no usage and requests `quota` seconds, and that
/// request becomes outstanding.
pub proof fn lemma_initial_requests_the_quota(
    id: Seq<char>,
    subscriber: Seq<char>,
    quota: u32,
)
    requires
        spec_transition(id, None, EventModel::InitialDp { subscriber }, quota) is Ok,
    ensures
        ({
            let (next, actions) = spec_transition(
                id,
                None,
                EventModel::InitialDp { subscriber },
                quota,
            )->Ok_0;
            &&& actions.len() == 1
            &&& actions[0] matches ActionModel::SendCcr(r) && {
                &&& r.session_id == id
                &&& r.subscriber == subscriber
                &&& r.number == 0
                &&& r.kind == RequestType::Initial
                &&& r.used_seconds == 0
                &&& r.requested_seconds == quota
                &&& next.phase == PhaseModel::Awaiting(r)
            }
            &&& next.next_number == 1
        }),
{
}

/// Reports on an active session: usage sends exactly one Update request
/// that reports the seconds just used and asks again for the configured
/// `quota`; a disconnect sends exactly one Termination request that reports
/// the seconds used and asks for nothing. Either request carries the
/// session's next number, names the session and its subscriber, and becomes
/// outstanding while the counter moves one past it.
pub proof fn lemma_reports_request_the_quota(
    id: Seq<char>,
    s: SessionModel,
    event: EventModel,
    quota: u32,
)
    requires
        s.phase is Active,
        event is Usage || event is Disconnect,
        spec_transition(id, Some(s), event, quota) is Ok,
    ensures
        ({
            let (next, actions) = spec_transition(id, Some(s), event, quota)->Ok_0;
            &&& actions.len() == 1
            &&& actions[0] matches ActionModel::SendCcr(r) && {
                &&& r.session_id == id
                &&& r.subscriber == s.subscriber
                &&& r.number == s.next_number
                &&& next.next_number == s.next_number + 1
                &&& next.phase == PhaseModel::Awaiting(r)
                &&& (event matches EventModel::Usage { seconds } ==> {
                    &&& r.kind == RequestType::Update
                    &&& r.used_seconds == seconds
                    &&& r.requested_seconds == quota
                })
                &&& (event matches EventModel::Disconnect { seconds } ==> {
                    &&& r.kind == RequestType::Termination
                    &&& r.used_seconds == seconds
                    &&& r.requested_seconds == 0
                })
            }
        }),
{
}

} // verus!
