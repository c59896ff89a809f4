use ro_camel_iwf::charging::{transition, Action, ChargingError, Event, Phase, RequestType};
use ro_camel_iwf::diameter::{credit_request, Message};

#[test]
fn initial_request_opens_session() {
    let (s, a) = transition(
        "call;1",
        None,
        &Event::InitialDp { subscriber: "123".into() },
        60,
    )
    .unwrap();
    assert_eq!(s.next_number, 1);
    assert_eq!(s.subscriber, "123");
    match &a[0] {
        Action::SendCcr(r) => {
            assert_eq!(r.session_id, "call;1");
            assert_eq!(r.number, 0);
            assert_eq!(r.kind, RequestType::Initial);
            assert_eq!(r.requested_seconds, 60);
            assert_eq!(s.phase, Phase::Awaiting(r.clone()));
        }
        other => panic!("unexpected {other:?}"),
    }
}

#[test]
fn charging_refusals() {
    let dp = Event::InitialDp { subscriber: "123".into() };
    assert_eq!(transition("", None, &dp, 60), Err(ChargingError::InvalidSessionId));
    assert_eq!(
        transition(&"x".repeat(201), None, &dp, 60),
        Err(ChargingError::InvalidSessionId)
    );
    assert_eq!(transition("id", None, &dp, 0), Err(ChargingError::InvalidQuota));
    assert_eq!(
        transition("id", None, &Event::InitialDp { subscriber: "12-3".into() }, 60),
        Err(ChargingError::InvalidSubscriber)
    );
    assert_eq!(
        transition("id", None, &Event::InitialDp { subscriber: "1".repeat(33) }, 60),
        Err(ChargingError::InvalidSubscriber)
    );
    assert_eq!(
        transition("id", None, &Event::Usage { seconds: 1 }, 60),
        Err(ChargingError::UnknownSession)
    );
    let (s, _) = transition("id", None, &dp, 60).unwrap();
    assert_eq!(transition("id", Some(s.clone()), &dp, 60), Err(ChargingError::SessionExists));
    assert_eq!(
        transition("id", Some(s), &Event::Usage { seconds: 1 }, 60),
        Err(ChargingError::InvalidPhase)
    );
}

#[test]
fn request_counter_exhaustion_is_refused() {
    let dp = Event::InitialDp { subscriber: "123".into() };
    let (mut s, _) = transition("id", None, &dp, 60).unwrap();
    s.phase = Phase::Active { quota: 60 };
    s.next_number = u32::MAX;
    assert_eq!(
        transition("id", Some(s), &Event::Usage { seconds: 1 }, 60),
        Err(ChargingError::CounterExhausted)
    );
}

#[test]
fn zero_grant_releases_and_closes() {
    let dp = Event::InitialDp { subscriber: "123".into() };
    let (s, _) = transition("id", None, &dp, 60).unwrap();
    let (s, a) = transition(
        "id",
        Some(s),
        &Event::Answer { number: 0, success: true, granted: 0 },
        60,
    )
    .unwrap();
    assert_eq!(a, vec![Action::ReleaseCall]);
    assert_eq!(s.phase, Phase::Closed);
    assert_eq!(
        transition("id", Some(s), &Event::Usage { seconds: 0 }, 60),
        Err(ChargingError::InvalidPhase)
    );
    assert_eq!(RequestType::Termination.code(), 3);
}

#[test]
fn charging_requests_survive_the_wire() {
    let (s, a) = transition(
        "iwf.example;call-7",
        None,
        &Event::InitialDp { subscriber: "46701234567".into() },
        60,
    )
    .unwrap();
    let (s, _) = transition(
        "iwf.example;call-7",
        Some(s),
        &Event::Answer { number: 0, success: true, granted: 60 },
        60,
    )
    .unwrap();
    let (_, b) = transition("iwf.example;call-7", Some(s), &Event::Disconnect { seconds: 9 }, 60)
        .unwrap();
    for action in a.into_iter().chain(b) {
        let Action::SendCcr(ccr) = action else { panic!("expected a request") };
        let wire = credit_request(&ccr, "iwf", "realm", "ocs", "ctx", 1, 2)
            .unwrap()
            .encode()
            .unwrap();
        assert_eq!(Message::decode(&wire).unwrap().imscap_request().unwrap(), ccr);
    }
}
