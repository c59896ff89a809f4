use ro_camel_iwf::{
    charging::{Ccr, RequestType},
    diameter::{credit_request, Avp, DiameterError, Message},
};

fn request() -> Message {
    credit_request(
        &Ccr {
            session_id: "iwf.test;1".into(),
            subscriber: "12345".into(),
            number: 0,
            kind: RequestType::Initial,
            used_seconds: 0,
            requested_seconds: 60,
        },
        "iwf.test",
        "test",
        "ocs.test",
        "voice@test",
        123,
        456,
    )
    .unwrap()
}

#[test]
fn ccr_header_and_mandatory_identity_fields() {
    let m = request();
    let encoded = m.encode().unwrap();
    assert_eq!(&encoded[..1], &[1]);
    assert_eq!(&encoded[4..12], &[0xc0, 0, 1, 0x10, 0, 0, 0, 4]);
    assert_eq!(Message::decode(&encoded).unwrap(), m);
    for code in [263, 264, 296, 283, 258, 461, 416, 415, 443, 437] {
        assert_eq!(m.avps.iter().filter(|a| a.code == code).count(), 1);
    }
}

#[test]
fn reject_all_truncations_and_overlarge_frame() {
    let bytes = request().encode().unwrap();
    for n in 0..bytes.len() {
        assert!(Message::decode(&bytes[..n]).is_err());
    }
    assert!(Message::decode(&vec![0; 65537]).is_err());
}

#[test]
fn avp_padding_vendor_and_zero_length_rejection() {
    let m = Message {
        flags: 0,
        command: 272,
        application: 4,
        hop: 1,
        end: 2,
        avps: vec![Avp {
            code: 1,
            flags: 0xc0,
            vendor: Some(10415),
            data: vec![7, 8, 9],
        }],
    };
    let mut bytes = m.encode().unwrap();
    assert_eq!(bytes.len(), 36);
    assert_eq!(Message::decode(&bytes).unwrap(), m);
    bytes[25..28].fill(0);
    assert!(Message::decode(&bytes).is_err());
}

#[test]
fn arbitrary_malformed_inputs_never_panic() {
    let mut seed = 123u64;
    for len in 0..1024 {
        let mut bytes = vec![0; len];
        for b in &mut bytes {
            seed = seed.wrapping_mul(6364136223846793005).wrapping_add(1);
            *b = (seed >> 32) as u8;
        }
        let _ = Message::decode(&bytes);
    }
}

#[test]
fn avp_payload_limit_checked_before_output_allocation() {
    let mut m = request();
    m.avps.push(Avp {
        code: 1,
        flags: 0,
        vendor: None,
        data: vec![0; 65536],
    });
    assert!(m.encode().is_err());
}

fn answer() -> (Message, Ccr) {
    let ccr = Ccr {
        session_id: "iwf.test;1".into(),
        subscriber: "12345".into(),
        number: 0,
        kind: RequestType::Initial,
        used_seconds: 0,
        requested_seconds: 60,
    };
    let mut message = request();
    message.flags = 0x40;
    message
        .avps
        .retain(|a| ![283, 461, 443, 437].contains(&a.code));
    message.avps.push(Avp {
        code: 268,
        flags: 0x40,
        vendor: None,
        data: 2001u32.to_be_bytes().to_vec(),
    });
    // CC-Time 420, M flag, AVP length 12, 60 seconds; grouped into GSU 431.
    message.avps.push(Avp {
        code: 431,
        flags: 0x40,
        vendor: None,
        data: vec![0, 0, 1, 164, 0x40, 0, 0, 12, 0, 0, 0, 60],
    });
    (message, ccr)
}

#[test]
fn cca_validates_wire_identifiers_and_extracts_time_grant() {
    let (message, ccr) = answer();
    let wire = message.encode().unwrap();
    let decoded = Message::decode(&wire).unwrap();
    assert_eq!(
        decoded.credit_answer(&ccr, 123, 456).unwrap(),
        ro_camel_iwf::charging::Event::Answer {
            number: 0,
            success: true,
            granted: 60
        }
    );
    assert!(decoded.credit_answer(&ccr, 124, 456).is_err());
    let mut other = ccr;
    other.session_id = "another".into();
    assert!(decoded.credit_answer(&other, 123, 456).is_err());
}

#[test]
fn duplicate_result_and_unsupported_policy_rejected() {
    let (mut message, ccr) = answer();
    message
        .avps
        .push(message.avps.iter().find(|a| a.code == 268).unwrap().clone());
    assert!(message.credit_answer(&ccr, 123, 456).is_err());
    message.avps.pop();
    message.avps.push(Avp {
        code: 430,
        flags: 0x40,
        vendor: None,
        data: vec![],
    });
    assert!(message.credit_answer(&ccr, 123, 456).is_err());
}

#[test]
fn malformed_granted_units_are_rejected() {
    let (mut message, ccr) = answer();
    message
        .avps
        .iter_mut()
        .find(|a| a.code == 431)
        .unwrap()
        .data = vec![1, 2, 3];
    assert!(message.credit_answer(&ccr, 123, 456).is_err());
}

// Exact wire bytes of a small frame: header, one vendor AVP, padding.
#[test]
fn encode_exact_bytes_with_vendor_and_padding() {
    let m = Message {
        flags: 0x80,
        command: 0x010203,
        application: 0x0a0b0c0d,
        hop: 7,
        end: 9,
        avps: vec![Avp { code: 0x01020304, flags: 0x80, vendor: Some(5), data: vec![0xaa] }],
    };
    let bytes = m.encode().unwrap();
    assert_eq!(
        bytes,
        vec![
            1, 0, 0, 36, 0x80, 1, 2, 3, 0x0a, 0x0b, 0x0c, 0x0d, 0, 0, 0, 7, 0, 0, 0, 9, 1, 2, 3, 4,
            0x80, 0, 0, 13, 0, 0, 0, 5, 0xaa, 0, 0, 0
        ]
    );
    assert_eq!(Message::decode(&bytes).unwrap(), m);
}

#[test]
fn decode_errors_name_the_failed_check() {
    assert_eq!(Message::decode(&[1; 19]), Err(DiameterError::FrameSize));
    let mut frame = vec![0u8; 20];
    frame[0] = 1;
    frame[3] = 20;
    assert_eq!(Message::decode(&frame).unwrap().avps.len(), 0);
    frame[0] = 2;
    assert_eq!(Message::decode(&frame), Err(DiameterError::InvalidHeader));
    frame[0] = 1;
    frame[4] = 0x01;
    assert_eq!(Message::decode(&frame), Err(DiameterError::ReservedCommandFlags));
    frame[4] = 0;
    frame.extend_from_slice(&[0, 0, 0, 1]);
    frame[3] = 24;
    assert_eq!(Message::decode(&frame), Err(DiameterError::TruncatedAvpHeader));
    frame.extend_from_slice(&[0x01, 0, 0, 8]);
    frame[3] = 28;
    assert_eq!(Message::decode(&frame), Err(DiameterError::ReservedAvpFlags));
    frame[24] = 0x40;
    frame[27] = 7;
    assert_eq!(Message::decode(&frame), Err(DiameterError::InvalidAvpLength));
    frame[27] = 8;
    assert_eq!(Message::decode(&frame).unwrap().avps[0].data, Vec::<u8>::new());
}

#[test]
fn encode_errors_name_the_failed_check() {
    let mut m = request();
    m.command = 0x1000000;
    assert_eq!(m.encode(), Err(DiameterError::InvalidCommand));
    let mut m = request();
    m.avps[0].flags = 0x80;
    assert_eq!(m.encode(), Err(DiameterError::InvalidAvpFlags));
    let mut m = request();
    m.avps = vec![Avp { code: 1, flags: 0, vendor: None, data: vec![] }; 257];
    assert_eq!(m.encode(), Err(DiameterError::TooManyAvps));
}

#[test]
fn credit_request_refuses_empty_identity() {
    let ccr = Ccr {
        session_id: "s".into(),
        subscriber: "1".into(),
        number: 0,
        kind: RequestType::Initial,
        used_seconds: 0,
        requested_seconds: 60,
    };
    assert_eq!(
        credit_request(&ccr, "", "r", "d", "c", 1, 2),
        Err(DiameterError::InvalidIdentity)
    );
    let long = "x".repeat(256);
    assert_eq!(
        credit_request(&ccr, "h", "r", "d", &long, 1, 2),
        Err(DiameterError::InvalidIdentity)
    );
}

#[test]
fn termination_request_carries_cause_and_usage() {
    let ccr = Ccr {
        session_id: "s;2".into(),
        subscriber: "4455".into(),
        number: 2,
        kind: RequestType::Termination,
        used_seconds: 12,
        requested_seconds: 0,
    };
    let m = credit_request(&ccr, "h", "r", "d", "c", 1, 2).unwrap();
    let codes: Vec<u32> = m.avps.iter().map(|a| a.code).collect();
    assert_eq!(codes, vec![263, 264, 296, 283, 258, 461, 416, 415, 443, 446, 295]);
    assert_eq!(m.avps[9].data, vec![0, 0, 1, 164, 0x40, 0, 0, 12, 0, 0, 0, 12]);
    let m = Message::decode(&m.encode().unwrap()).unwrap();
    assert_eq!(m.imscap_request().unwrap(), ccr);
}
