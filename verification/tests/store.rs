use ro_camel_iwf::{
    charging::{Action, ChargingError, Event, RequestType, Session},
    store::{
        check_limits, plan, receipt_key, replay, Counts, Envelope, Input, Receipt, StoreError,
    },
};
use std::collections::{BTreeMap, HashMap};

/// An in-memory store driven by the library's decisions, committing all
/// writes of an event together as the durable store does.
struct Memory {
    quota: u32,
    capacity: u64,
    sessions: HashMap<String, Session>,
    receipts: HashMap<String, Receipt>,
    outbox: BTreeMap<String, Envelope>,
}

impl Memory {
    fn new(quota: u32, capacity: u64) -> Memory {
        check_limits(quota, capacity).unwrap();
        Memory {
            quota,
            capacity,
            sessions: HashMap::new(),
            receipts: HashMap::new(),
            outbox: BTreeMap::new(),
        }
    }

    fn apply(&mut self, input: &Input) -> Result<Vec<Envelope>, StoreError> {
        let key = receipt_key(input)?;
        if let Some(previous) = self.receipts.get(&key) {
            return replay(input, previous.clone());
        }
        let counts = Counts {
            sessions: self.sessions.len() as u64,
            outbox: self.outbox.len() as u64,
            receipts: self.receipts.len() as u64,
        };
        let current = self.sessions.get(&input.session_id).cloned();
        let commit = plan(input, &key, current, counts, self.quota, self.capacity)?;
        for e in &commit.receipt.actions {
            self.outbox.insert(e.id.clone(), e.clone());
        }
        self.sessions.insert(input.session_id.clone(), commit.session);
        let actions = commit.receipt.actions.clone();
        self.receipts.insert(key, commit.receipt);
        Ok(actions)
    }

    fn ack(&mut self, id: &str) {
        self.outbox.remove(id);
    }
}

fn input(id: &str, event: Event) -> Input {
    Input {
        session_id: "test.local;1".into(),
        event_id: id.into(),
        event,
    }
}

fn initial() -> Input {
    input("idp", Event::InitialDp { subscriber: "1234567890".into() })
}

fn answer(n: u32, granted: u32) -> Input {
    input(&format!("cca-{n}"), Event::Answer { number: n, success: true, granted })
}

#[test]
fn decisions_drive_voice_call_initial_update_termination() {
    let mut store = Memory::new(60, 100);
    let actions = store.apply(&initial()).unwrap();
    assert!(
        matches!(&actions[0].action, Action::SendCcr(r) if r.number == 0 && r.kind == RequestType::Initial)
    );
    assert_eq!(store.apply(&answer(0, 60)).unwrap()[0].action, Action::StartCall { seconds: 60 });
    let update = store.apply(&input("acr", Event::Usage { seconds: 60 })).unwrap();
    assert!(matches!(&update[0].action, Action::SendCcr(r) if r.number == 1 && r.used_seconds == 60));
    assert_eq!(
        store.apply(&answer(1, 30)).unwrap()[0].action,
        Action::ApplyCharging { seconds: 30 }
    );
    let end = store.apply(&input("end", Event::Disconnect { seconds: 5 })).unwrap();
    assert!(matches!(&end[0].action, Action::SendCcr(r) if r.number == 2 && r.used_seconds == 5 && r.requested_seconds == 0 && r.kind == RequestType::Termination));
    assert_eq!(store.apply(&answer(2, 0)).unwrap()[0].action, Action::EndDialogue);
    assert!(store.apply(&input("late", Event::Usage { seconds: 1 })).is_err());
}

#[test]
fn decisions_replay_same_envelopes_after_ack() {
    let mut store = Memory::new(60, 100);
    let original = store.apply(&initial()).unwrap();
    assert_eq!(store.apply(&initial()).unwrap(), original);
    store.ack(&original[0].id);
    assert!(store.outbox.is_empty());
    assert_eq!(store.apply(&initial()).unwrap(), original);
    assert!(store.outbox.is_empty());
    assert_eq!(store.apply(&answer(0, 60)).unwrap()[0].action, Action::StartCall { seconds: 60 });
}

#[test]
fn decisions_refuse_conflicting_replay_and_wrong_answer() {
    let mut store = Memory::new(60, 100);
    store.apply(&initial()).unwrap();
    assert_eq!(
        store.apply(&input("idp", Event::InitialDp { subscriber: "9999".into() })),
        Err(StoreError::EventIdReused)
    );
    assert_eq!(
        store.apply(&answer(1, 60)),
        Err(StoreError::Charging(ChargingError::AnswerMismatch))
    );
    assert_eq!(
        store.apply(&answer(0, 61)),
        Err(StoreError::Charging(ChargingError::GrantExceedsRequest))
    );
    assert!(store.apply(&input("early", Event::Usage { seconds: 1 })).is_err());
    store.apply(&answer(0, 60)).unwrap();
    assert_eq!(
        store.apply(&input("excess", Event::Usage { seconds: 61 })),
        Err(StoreError::Charging(ChargingError::UsageExceedsQuota))
    );
    assert!(store.apply(&input("valid", Event::Usage { seconds: 60 })).is_ok());
}

#[test]
fn decisions_denial_releases_call() {
    let mut store = Memory::new(60, 100);
    store.apply(&initial()).unwrap();
    let denied = store
        .apply(&input("deny", Event::Answer { number: 0, success: false, granted: 60 }))
        .unwrap();
    assert_eq!(denied[0].action, Action::ReleaseCall);
}

#[test]
fn decisions_outbox_pressure_refuses_transition() {
    let mut store = Memory::new(60, 1);
    let original = store.apply(&initial()).unwrap();
    assert_eq!(store.apply(&answer(0, 60)), Err(StoreError::OutboxFull));
    store.ack(&original[0].id);
    assert!(store.apply(&answer(0, 60)).is_ok());
}

#[test]
fn decisions_failed_final_debit_stays_pending() {
    let mut store = Memory::new(60, 100);
    store.apply(&initial()).unwrap();
    store.apply(&answer(0, 60)).unwrap();
    store.apply(&input("end", Event::Disconnect { seconds: 2 })).unwrap();
    assert_eq!(
        store.apply(&input("failed", Event::Answer { number: 1, success: false, granted: 0 })),
        Err(StoreError::Charging(ChargingError::TerminationRejected))
    );
    assert_eq!(store.apply(&answer(1, 0)).unwrap()[0].action, Action::EndDialogue);
}

#[test]
fn receipt_key_is_json_pair_and_envelope_ids_follow_it() {
    let i = initial();
    let key = receipt_key(&i).unwrap();
    assert_eq!(key, r#"["test.local;1","idp"]"#);
    let mut store = Memory::new(60, 100);
    let actions = store.apply(&i).unwrap();
    assert_eq!(actions[0].id, r#"["test.local;1","idp"]:0"#);
    assert_eq!(actions[0].session_id, "test.local;1");
}

#[test]
fn event_id_and_capacity_limits() {
    assert_eq!(check_limits(0, 10), Err(StoreError::InvalidLimits));
    assert_eq!(check_limits(60, 0), Err(StoreError::InvalidLimits));
    assert_eq!(check_limits(60, 10_000_001), Err(StoreError::InvalidLimits));
    assert!(check_limits(60, 10_000_000).is_ok());
    assert_eq!(receipt_key(&input("", Event::Usage { seconds: 1 })), Err(StoreError::InvalidEventId));
    let long = "e".repeat(101);
    assert_eq!(receipt_key(&input(&long, Event::Usage { seconds: 1 })), Err(StoreError::InvalidEventId));
    let mut store = Memory::new(60, 1);
    store.apply(&initial()).unwrap();
    let other = Input {
        session_id: "test.local;2".into(),
        event_id: "idp".into(),
        event: Event::InitialDp { subscriber: "1".into() },
    };
    assert_eq!(store.apply(&other), Err(StoreError::SessionCapacity));
}

#[test]
fn receipt_key_escapes_quotes_backslashes_and_controls() {
    let i = Input {
        session_id: "a\"b\\c".into(),
        event_id: "e\nf\u{1}".into(),
        event: Event::Usage { seconds: 1 },
    };
    assert_eq!(receipt_key(&i).unwrap(), r#"["a\"b\\c","e\nf\u0001"]"#);
    let multibyte = Input {
        session_id: "é".into(),
        event_id: "ü".into(),
        event: Event::Usage { seconds: 1 },
    };
    assert_eq!(receipt_key(&multibyte).unwrap(), "[\"é\",\"ü\"]");
}

#[test]
fn envelope_ids_differ_across_sessions_and_events() {
    let mut store = Memory::new(60, 100);
    let a = Input {
        session_id: "s:1".into(),
        event_id: "idp".into(),
        event: Event::InitialDp { subscriber: "1".into() },
    };
    let b = Input {
        session_id: "s".into(),
        event_id: "1:idp".into(),
        event: Event::InitialDp { subscriber: "1".into() },
    };
    let ea = store.apply(&a).unwrap();
    let eb = store.apply(&b).unwrap();
    assert_ne!(ea[0].id, eb[0].id);
    assert_eq!(store.outbox.len(), ea.len() + eb.len());
}

#[test]
fn refused_and_replayed_events_leave_tables_unchanged() {
    let mut store = Memory::new(60, 100);
    let first = store.apply(&initial()).unwrap();
    store.ack(&first[0].id);
    let sessions = store.sessions.clone();
    let receipts = store.receipts.clone();
    let outbox = store.outbox.clone();
    assert_eq!(store.apply(&initial()).unwrap(), first);
    let conflicting = input("idp", Event::InitialDp { subscriber: "999".into() });
    assert_eq!(store.apply(&conflicting), Err(StoreError::EventIdReused));
    assert_eq!(store.sessions, sessions);
    assert_eq!(store.receipts, receipts);
    assert_eq!(store.outbox, outbox);
}
