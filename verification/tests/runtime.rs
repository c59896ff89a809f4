use ro_camel_iwf::{
    charging::Event,
    runtime::{
        check_runtime_limits, check_submission, manifest_agrees, shard_count_text,
        shard_file_name, shard_of, RuntimeError,
    },
    store::Input,
};

#[test]
fn fnv_routing_is_stable() {
    // FNV-1a of "a" is 0xaf63dc4c8601ec8c; of "" the offset basis.
    assert_eq!(shard_of("a", 64), 0x0c);
    assert_eq!(shard_of("", 64), 0x25);
    assert_eq!(shard_of("a", 1), 0);
    assert_eq!(shard_of("iwf.example;unique-call-1", 4), shard_of("iwf.example;unique-call-1", 4));
    assert!(shard_of("iwf.example;unique-call-1", 3) < 3);
}

#[test]
fn runtime_limits_and_submission() {
    assert_eq!(check_runtime_limits(0, 1), Err(RuntimeError::InvalidLimits));
    assert_eq!(check_runtime_limits(65, 1), Err(RuntimeError::InvalidLimits));
    assert_eq!(check_runtime_limits(1, 65537), Err(RuntimeError::InvalidLimits));
    assert!(check_runtime_limits(64, 65536).is_ok());
    let ok = Input {
        session_id: "s".into(),
        event_id: "e".into(),
        event: Event::InitialDp { subscriber: "1".repeat(32) },
    };
    assert!(check_submission(&ok).is_ok());
    let long = Input { event: Event::InitialDp { subscriber: "1".repeat(33) }, ..ok.clone() };
    assert_eq!(check_submission(&long), Err(RuntimeError::SubscriberTooLong));
    let no_event = Input { event_id: "".into(), ..ok.clone() };
    assert_eq!(check_submission(&no_event), Err(RuntimeError::InvalidIdentifiers));
    let big = Input { session_id: "s".repeat(201), ..ok };
    assert_eq!(check_submission(&big), Err(RuntimeError::InvalidIdentifiers));
}

#[test]
fn shard_layout_names() {
    assert_eq!(shard_file_name(0), "shard-0.redb");
    assert_eq!(shard_file_name(31), "shard-31.redb");
    assert_eq!(shard_count_text(4), "4");
    assert_eq!(shard_count_text(64), "64");
    assert!(manifest_agrees("2", 2));
    assert!(!manifest_agrees("2", 3));
}
