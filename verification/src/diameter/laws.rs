//! Laws of the credit-control profile: what the server reads back from a
//! CCR built by [`credit_request`](super::credit_request), and what the
//! client reads back from the answer the server builds.
use super::avps::{
    avp_number, avp_octets, bare, code_matches, group_frame, lemma_grouped_time, matching,
    spec_group, spec_grouped, spec_integer, spec_text, spec_unique, time_units,
};
use super::codec::{
    avp_flags_ok, avp_length, avp_wire, body_of, encode_avps, header_wire, lemma_decode_encode,
    lemma_encode_avps_bounded, spec_decode, spec_encode, zeros, HEADER_LEN, MAX_FRAME,
};
use super::profile::{
    cca_avps, ccr_avps, ccr_header, only_time_units, spec_answer_policy, spec_ccr_kind,
    spec_credit_answer, spec_credit_request, spec_echo, spec_granted, spec_identities,
    spec_imscap_answer, spec_imscap_request, spec_requested, spec_scan, spec_subscription,
    spec_used, subscription_avps,
};
use super::{AvpModel, DiameterError, MessageModel};
use crate::charging::{session_wf, spec_transition, CcrModel, EventModel, RequestType, SessionModel};
use crate::charging::EventModel as ChargingEvent;
use crate::imscap::ActionModel;
use crate::text::valid_identity;
use crate::wire::{lemma_round4, lemma_u32_bytes_roundtrip, u24_bytes, u32_bytes};
use vstd::prelude::*;
use vstd::utf8::{encode_utf8, encode_utf8_decode_utf8, encode_utf8_valid_utf8};

verus! {

/// Reading the AVPs of a grouped AVP gives back the AVPs it was built from.
#[verifier::rlimit(50)]
#[verifier::spinoff_prover]
pub proof fn lemma_group_of_grouped(code: u32, avps: Seq<AvpModel>)
    requires
        spec_grouped(code, avps) is Ok,
    ensures
        spec_group(spec_grouped(code, avps)->Ok_0) == Ok::<MessageModel, DiameterError>(
            bare(avps),
        ),
{
    let m = bare(avps);
    let b = spec_encode(m)->Ok_0;
    let n = avps.len() as int;
    lemma_encode_avps_bounded(avps, n);
    let body = encode_avps(avps, n)->Ok_0;
    let total = (HEADER_LEN + body.len()) as nat;
    assert(b == header_wire(m, total) + body);
    let data = b.subrange(HEADER_LEN as int, b.len() as int);
    assert(data =~= body);
    let h1 = seq![1u8] + u24_bytes(total) + zeros(16);
    let h2 = header_wire(m, total);
    assert(h1 =~= h2) by {
        assert(u24_bytes(0) =~= seq![0u8, 0u8, 0u8]);
        assert(u32_bytes(0) =~= seq![0u8, 0u8, 0u8, 0u8]);
    }
    assert(group_frame(data) == h1 + data);
    assert(data.len() <= MAX_FRAME - HEADER_LEN);
    lemma_decode_encode(m);
}

/// Text read back from an AVP holding the UTF-8 bytes of an identity.
proof fn lemma_text_of(m: MessageModel, code: u32, s: Seq<char>)
    requires
        spec_unique(m, code) == Ok::<Option<AvpModel>, DiameterError>(
            Some(avp_octets(code, encode_utf8(s))),
        ),
        valid_identity(s),
    ensures
        spec_text(m, code) == Ok::<Seq<char>, DiameterError>(s),
{
    encode_utf8_valid_utf8(s);
    encode_utf8_decode_utf8(s);
    lemma_nonempty_utf8(s);
}

/// Non-empty text has non-empty UTF-8.
proof fn lemma_nonempty_utf8(s: Seq<char>)
    requires
        s.len() > 0,
    ensures
        encode_utf8(s).len() > 0,
{
    reveal_with_fuel(encode_utf8, 2);
}

/// A number read back from an AVP holding it.
proof fn lemma_integer_of(m: MessageModel, code: u32, v: u32)
    requires
        spec_unique(m, code) == Ok::<Option<AvpModel>, DiameterError>(Some(avp_number(code, v))),
    ensures
        spec_integer(m, code) == Ok::<u32, DiameterError>(v),
{
    lemma_u32_bytes_roundtrip(v);
}

/// The Subscription-Id group of a subscriber always lays out, and reads
/// back as one MSISDN.
proof fn lemma_subscription(sub: Seq<char>)
    requires
        valid_identity(sub),
    ensures
        spec_grouped(443, subscription_avps(sub)) is Ok,
        spec_group(spec_grouped(443, subscription_avps(sub))->Ok_0) == Ok::<
            MessageModel,
            DiameterError,
        >(bare(subscription_avps(sub))),
        spec_integer(bare(subscription_avps(sub)), 450) == Ok::<u32, DiameterError>(0),
        spec_text(bare(subscription_avps(sub)), 444) == Ok::<Seq<char>, DiameterError>(sub),
{
    let avps = subscription_avps(sub);
    let a0 = avps[0];
    let a1 = avps[1];
    assert(0x40u8 & 0x1f == 0 && 0x40u8 & 0x80 == 0) by (bit_vector);
    assert(0u8 & 0x0f == 0) by (bit_vector);
    assert(avp_flags_ok(a0) && avp_flags_ok(a1));
    lemma_round4(avp_length(a0));
    lemma_round4(avp_length(a1));
    assert(encode_avps(avps, 0) is Ok);
    assert(encode_avps(avps, 1) is Ok);
    assert(encode_avps(avps, 2) is Ok);
    assert(spec_encode(bare(avps)) is Ok);
    lemma_group_of_grouped(443, avps);
    let m = bare(avps);
    reveal_with_fuel(code_matches, 3);
    assert(matching(m, 450) =~= seq![a0]);
    assert(matching(m, 444) =~= seq![a1]);
    lemma_integer_of(m, 450, 0);
    lemma_text_of(m, 444, sub);
}

/// A CC-Time group reads back as its seconds.
proof fn lemma_time_group(code: u32, seconds: u32)
    ensures
        spec_group(time_units(code, seconds)) == Ok::<MessageModel, DiameterError>(
            bare(seq![avp_number(420, seconds)]),
        ),
        spec_integer(bare(seq![avp_number(420, seconds)]), 420) == Ok::<u32, DiameterError>(
            seconds,
        ),
{
    lemma_grouped_time(code, seconds);
    lemma_group_of_grouped(code, seq![avp_number(420, seconds)]);
    let m = bare(seq![avp_number(420, seconds)]);
    reveal_with_fuel(code_matches, 2);
    assert(matching(m, 420) =~= seq![avp_number(420, seconds)]);
    lemma_integer_of(m, 420, seconds);
}

/// What the server reads from a CCR message, stage by stage.
proof fn lemma_read_ccr(ccr: CcrModel, m: MessageModel, sub: AvpModel)
    requires
        valid_identity(ccr.session_id),
        valid_identity(ccr.subscriber),
        ccr.kind == RequestType::Initial ==> ccr.used_seconds == 0,
        ccr.kind == RequestType::Termination ==> ccr.requested_seconds == 0,
        sub == spec_grouped(443, subscription_avps(ccr.subscriber))->Ok_0,
        spec_grouped(443, subscription_avps(ccr.subscriber)) is Ok,
        spec_group(sub) == Ok::<MessageModel, DiameterError>(bare(subscription_avps(ccr.subscriber))),
        m.flags == 0xc0,
        m.command == 272,
        m.application == 4,
        m.avps.len() >= 10,
        m.avps[0] == avp_octets(263, encode_utf8(ccr.session_id)),
        m.avps[4] == avp_number(258, 4),
        m.avps[6] == avp_number(416, ccr.kind.spec_code()),
        m.avps[7] == avp_number(415, ccr.number),
        m.avps[8] == sub,
        spec_ccr_kind(m) == Ok::<RequestType, DiameterError>(ccr.kind),
        spec_unique(m, 443) == Ok::<Option<AvpModel>, DiameterError>(Some(sub)),
        spec_unique(m, 263) == Ok::<Option<AvpModel>, DiameterError>(Some(m.avps[0])),
        spec_unique(m, 415) == Ok::<Option<AvpModel>, DiameterError>(Some(m.avps[7])),
        spec_used(m, ccr.kind) == Ok::<u32, DiameterError>(ccr.used_seconds),
        spec_requested(m, ccr.kind) == Ok::<u32, DiameterError>(ccr.requested_seconds),
    ensures
        spec_imscap_request(m) == Ok::<CcrModel, DiameterError>(ccr),
{
    lemma_subscription(ccr.subscriber);
    assert(spec_subscription(m) == Ok::<MessageModel, DiameterError>(
        bare(subscription_avps(ccr.subscriber)),
    ));
    lemma_text_of(m, 263, ccr.session_id);
    lemma_integer_of(m, 415, ccr.number);
}

/// Reading back a CCR of type Initial.
#[verifier::rlimit(60)]
#[verifier::spinoff_prover]
proof fn lemma_ccr_roundtrip_initial(
    ccr: CcrModel,
    host: Seq<char>,
    realm: Seq<char>,
    destination: Seq<char>,
    context: Seq<char>,
    m: MessageModel,
    sub: AvpModel,
)
    requires
        ccr.kind == RequestType::Initial,
        valid_identity(ccr.session_id),
        valid_identity(ccr.subscriber),
        valid_identity(host),
        valid_identity(realm),
        valid_identity(destination),
        valid_identity(context),
        ccr.kind == RequestType::Initial ==> ccr.used_seconds == 0,
        ccr.kind == RequestType::Termination ==> ccr.requested_seconds == 0,
        spec_grouped(443, subscription_avps(ccr.subscriber)) is Ok,
        sub == spec_grouped(443, subscription_avps(ccr.subscriber))->Ok_0,
        spec_group(sub) == Ok::<MessageModel, DiameterError>(bare(subscription_avps(ccr.subscriber))),
        sub.code == 443,
        sub.vendor is None,
        m.flags == 0xc0,
        m.command == 272,
        m.application == 4,
        m.avps == ccr_avps(ccr, host, realm, destination, context, sub),
    ensures
        spec_imscap_request(m) == Ok::<CcrModel, DiameterError>(ccr),
{
    let avps = seq![avp_octets(263, encode_utf8(ccr.session_id)), avp_octets(264, encode_utf8(host)), avp_octets(296, encode_utf8(realm)), avp_octets(283, encode_utf8(destination)), avp_number(258, 4), avp_octets(461, encode_utf8(context)), avp_number(416, ccr.kind.spec_code()), avp_number(415, ccr.number), sub, time_units(437, ccr.requested_seconds)];
    assert(m.avps =~= avps);
    assert(0xc0u8 & 0x80 != 0 && 0xc0u8 & 0x20 == 0) by (bit_vector);
    assert(ccr_header(m));
    assert(matching(m, 263) =~= seq![avps[0]]) by {
        reveal_with_fuel(code_matches, 11);
    }
    assert(matching(m, 264) =~= seq![avps[1]]) by {
        reveal_with_fuel(code_matches, 11);
    }
    assert(matching(m, 296) =~= seq![avps[2]]) by {
        reveal_with_fuel(code_matches, 11);
    }
    assert(matching(m, 283) =~= seq![avps[3]]) by {
        reveal_with_fuel(code_matches, 11);
    }
    assert(matching(m, 258) =~= seq![avps[4]]) by {
        reveal_with_fuel(code_matches, 11);
    }
    assert(matching(m, 461) =~= seq![avps[5]]) by {
        reveal_with_fuel(code_matches, 11);
    }
    assert(matching(m, 416) =~= seq![avps[6]]) by {
        reveal_with_fuel(code_matches, 11);
    }
    assert(matching(m, 415) =~= seq![avps[7]]) by {
        reveal_with_fuel(code_matches, 11);
    }
    assert(matching(m, 443) =~= seq![avps[8]]) by {
        reveal_with_fuel(code_matches, 11);
    }
    assert(matching(m, 437) =~= seq![avps[9]]) by {
        reveal_with_fuel(code_matches, 11);
    }
    assert(matching(m, 446) =~= Seq::<AvpModel>::empty()) by {
        reveal_with_fuel(code_matches, 11);
    }
    assert(spec_scan(m, 0) is Ok);
    assert(spec_scan(m, 1) is Ok);
    assert(spec_scan(m, 2) is Ok);
    assert(spec_scan(m, 3) is Ok);
    assert(spec_scan(m, 4) is Ok);
    assert(spec_scan(m, 5) is Ok);
    assert(spec_scan(m, 6) is Ok);
    assert(spec_scan(m, 7) is Ok);
    assert(spec_scan(m, 8) is Ok);
    assert(spec_scan(m, 9) is Ok);
    assert(spec_scan(m, 10) is Ok);
    lemma_text_of(m, 264, host);
    lemma_text_of(m, 296, realm);
    lemma_text_of(m, 283, destination);
    lemma_text_of(m, 461, context);
    lemma_integer_of(m, 258, 4);
    lemma_integer_of(m, 416, ccr.kind.spec_code());
    lemma_time_group(446, ccr.used_seconds);
    lemma_time_group(437, ccr.requested_seconds);
    assert(spec_identities(m) is Ok);
    assert(spec_ccr_kind(m) == Ok::<RequestType, DiameterError>(ccr.kind));
    assert(spec_used(m, ccr.kind) == Ok::<u32, DiameterError>(ccr.used_seconds));
    assert(spec_requested(m, ccr.kind) == Ok::<u32, DiameterError>(ccr.requested_seconds));
    lemma_read_ccr(ccr, m, sub);
}

/// Reading back a CCR of type Update.
#[verifier::rlimit(60)]
#[verifier::spinoff_prover]
proof fn lemma_ccr_roundtrip_update(
    ccr: CcrModel,
    host: Seq<char>,
    realm: Seq<char>,
    destination: Seq<char>,
    context: Seq<char>,
    m: MessageModel,
    sub: AvpModel,
)
    requires
        ccr.kind == RequestType::Update,
        valid_identity(ccr.session_id),
        valid_identity(ccr.subscriber),
        valid_identity(host),
        valid_identity(realm),
        valid_identity(destination),
        valid_identity(context),
        ccr.kind == RequestType::Initial ==> ccr.used_seconds == 0,
        ccr.kind == RequestType::Termination ==> ccr.requested_seconds == 0,
        spec_grouped(443, subscription_avps(ccr.subscriber)) is Ok,
        sub == spec_grouped(443, subscription_avps(ccr.subscriber))->Ok_0,
        spec_group(sub) == Ok::<MessageModel, DiameterError>(bare(subscription_avps(ccr.subscriber))),
        sub.code == 443,
        sub.vendor is None,
        m.flags == 0xc0,
        m.command == 272,
        m.application == 4,
        m.avps == ccr_avps(ccr, host, realm, destination, context, sub),
    ensures
        spec_imscap_request(m) == Ok::<CcrModel, DiameterError>(ccr),
{
    let avps = seq![avp_octets(263, encode_utf8(ccr.session_id)), avp_octets(264, encode_utf8(host)), avp_octets(296, encode_utf8(realm)), avp_octets(283, encode_utf8(destination)), avp_number(258, 4), avp_octets(461, encode_utf8(context)), avp_number(416, ccr.kind.spec_code()), avp_number(415, ccr.number), sub, time_units(446, ccr.used_seconds), time_units(437, ccr.requested_seconds)];
    assert(m.avps =~= avps);
    assert(0xc0u8 & 0x80 != 0 && 0xc0u8 & 0x20 == 0) by (bit_vector);
    assert(ccr_header(m));
    assert(matching(m, 263) =~= seq![avps[0]]) by {
        reveal_with_fuel(code_matches, 12);
    }
    assert(matching(m, 264) =~= seq![avps[1]]) by {
        reveal_with_fuel(code_matches, 12);
    }
    assert(matching(m, 296) =~= seq![avps[2]]) by {
        reveal_with_fuel(code_matches, 12);
    }
    assert(matching(m, 283) =~= seq![avps[3]]) by {
        reveal_with_fuel(code_matches, 12);
    }
    assert(matching(m, 258) =~= seq![avps[4]]) by {
        reveal_with_fuel(code_matches, 12);
    }
    assert(matching(m, 461) =~= seq![avps[5]]) by {
        reveal_with_fuel(code_matches, 12);
    }
    assert(matching(m, 416) =~= seq![avps[6]]) by {
        reveal_with_fuel(code_matches, 12);
    }
    assert(matching(m, 415) =~= seq![avps[7]]) by {
        reveal_with_fuel(code_matches, 12);
    }
    assert(matching(m, 443) =~= seq![avps[8]]) by {
        reveal_with_fuel(code_matches, 12);
    }
    assert(matching(m, 446) =~= seq![avps[9]]) by {
        reveal_with_fuel(code_matches, 12);
    }
    assert(matching(m, 437) =~= seq![avps[10]]) by {
        reveal_with_fuel(code_matches, 12);
    }
    assert(spec_scan(m, 0) is Ok);
    assert(spec_scan(m, 1) is Ok);
    assert(spec_scan(m, 2) is Ok);
    assert(spec_scan(m, 3) is Ok);
    assert(spec_scan(m, 4) is Ok);
    assert(spec_scan(m, 5) is Ok);
    assert(spec_scan(m, 6) is Ok);
    assert(spec_scan(m, 7) is Ok);
    assert(spec_scan(m, 8) is Ok);
    assert(spec_scan(m, 9) is Ok);
    assert(spec_scan(m, 10) is Ok);
    assert(spec_scan(m, 11) is Ok);
    lemma_text_of(m, 264, host);
    lemma_text_of(m, 296, realm);
    lemma_text_of(m, 283, destination);
    lemma_text_of(m, 461, context);
    lemma_integer_of(m, 258, 4);
    lemma_integer_of(m, 416, ccr.kind.spec_code());
    lemma_time_group(446, ccr.used_seconds);
    lemma_time_group(437, ccr.requested_seconds);
    assert(spec_identities(m) is Ok);
    assert(spec_ccr_kind(m) == Ok::<RequestType, DiameterError>(ccr.kind));
    assert(spec_used(m, ccr.kind) == Ok::<u32, DiameterError>(ccr.used_seconds));
    assert(spec_requested(m, ccr.kind) == Ok::<u32, DiameterError>(ccr.requested_seconds));
    lemma_read_ccr(ccr, m, sub);
}

/// Reading back a CCR of type Termination.
#[verifier::rlimit(60)]
#[verifier::spinoff_prover]
proof fn lemma_ccr_roundtrip_termination(
    ccr: CcrModel,
    host: Seq<char>,
    realm: Seq<char>,
    destination: Seq<char>,
    context: Seq<char>,
    m: MessageModel,
    sub: AvpModel,
)
    requires
        ccr.kind == RequestType::Termination,
        valid_identity(ccr.session_id),
        valid_identity(ccr.subscriber),
        valid_identity(host),
        valid_identity(realm),
        valid_identity(destination),
        valid_identity(context),
        ccr.kind == RequestType::Initial ==> ccr.used_seconds == 0,
        ccr.kind == RequestType::Termination ==> ccr.requested_seconds == 0,
        spec_grouped(443, subscription_avps(ccr.subscriber)) is Ok,
        sub == spec_grouped(443, subscription_avps(ccr.subscriber))->Ok_0,
        spec_group(sub) == Ok::<MessageModel, DiameterError>(bare(subscription_avps(ccr.subscriber))),
        sub.code == 443,
        sub.vendor is None,
        m.flags == 0xc0,
        m.command == 272,
        m.application == 4,
        m.avps == ccr_avps(ccr, host, realm, destination, context, sub),
    ensures
        spec_imscap_request(m) == Ok::<CcrModel, DiameterError>(ccr),
{
    let avps = seq![avp_octets(263, encode_utf8(ccr.session_id)), avp_octets(264, encode_utf8(host)), avp_octets(296, encode_utf8(realm)), avp_octets(283, encode_utf8(destination)), avp_number(258, 4), avp_octets(461, encode_utf8(context)), avp_number(416, ccr.kind.spec_code()), avp_number(415, ccr.number), sub, time_units(446, ccr.used_seconds), avp_number(295, 1)];
    assert(m.avps =~= avps);
    assert(0xc0u8 & 0x80 != 0 && 0xc0u8 & 0x20 == 0) by (bit_vector);
    assert(ccr_header(m));
    assert(matching(m, 263) =~= seq![avps[0]]) by {
        reveal_with_fuel(code_matches, 12);
    }
    assert(matching(m, 264) =~= seq![avps[1]]) by {
        reveal_with_fuel(code_matches, 12);
    }
    assert(matching(m, 296) =~= seq![avps[2]]) by {
        reveal_with_fuel(code_matches, 12);
    }
    assert(matching(m, 283) =~= seq![avps[3]]) by {
        reveal_with_fuel(code_matches, 12);
    }
    assert(matching(m, 258) =~= seq![avps[4]]) by {
        reveal_with_fuel(code_matches, 12);
    }
    assert(matching(m, 461) =~= seq![avps[5]]) by {
        reveal_with_fuel(code_matches, 12);
    }
    assert(matching(m, 416) =~= seq![avps[6]]) by {
        reveal_with_fuel(code_matches, 12);
    }
    assert(matching(m, 415) =~= seq![avps[7]]) by {
        reveal_with_fuel(code_matches, 12);
    }
    assert(matching(m, 443) =~= seq![avps[8]]) by {
        reveal_with_fuel(code_matches, 12);
    }
    assert(matching(m, 446) =~= seq![avps[9]]) by {
        reveal_with_fuel(code_matches, 12);
    }
    assert(matching(m, 295) =~= seq![avps[10]]) by {
        reveal_with_fuel(code_matches, 12);
    }
    assert(matching(m, 437) =~= Seq::<AvpModel>::empty()) by {
        reveal_with_fuel(code_matches, 12);
    }
    assert(spec_scan(m, 0) is Ok);
    assert(spec_scan(m, 1) is Ok);
    assert(spec_scan(m, 2) is Ok);
    assert(spec_scan(m, 3) is Ok);
    assert(spec_scan(m, 4) is Ok);
    assert(spec_scan(m, 5) is Ok);
    assert(spec_scan(m, 6) is Ok);
    assert(spec_scan(m, 7) is Ok);
    assert(spec_scan(m, 8) is Ok);
    assert(spec_scan(m, 9) is Ok);
    assert(spec_scan(m, 10) is Ok);
    assert(spec_scan(m, 11) is Ok);
    lemma_text_of(m, 264, host);
    lemma_text_of(m, 296, realm);
    lemma_text_of(m, 283, destination);
    lemma_text_of(m, 461, context);
    lemma_integer_of(m, 258, 4);
    lemma_integer_of(m, 416, ccr.kind.spec_code());
    lemma_time_group(446, ccr.used_seconds);
    lemma_time_group(437, ccr.requested_seconds);
    lemma_integer_of(m, 295, 1);
    assert(spec_identities(m) is Ok);
    assert(spec_ccr_kind(m) == Ok::<RequestType, DiameterError>(ccr.kind));
    assert(spec_used(m, ccr.kind) == Ok::<u32, DiameterError>(ccr.used_seconds));
    assert(spec_requested(m, ccr.kind) == Ok::<u32, DiameterError>(ccr.requested_seconds));
    lemma_read_ccr(ccr, m, sub);
}

/// The server reads back every CCR that [`credit_request`](super::credit_request)
/// builds: session, subscriber, request number and type, used and requested
/// seconds. It holds when the session id and subscriber are 1 to 255 bytes,
/// an initial request reports no usage and a termination requests nothing.
pub proof fn lemma_ccr_roundtrip(
    ccr: CcrModel,
    host: Seq<char>,
    realm: Seq<char>,
    destination: Seq<char>,
    context: Seq<char>,
    hop: u32,
    end: u32,
)
    requires
        valid_identity(ccr.session_id),
        valid_identity(ccr.subscriber),
        valid_identity(host),
        valid_identity(realm),
        valid_identity(destination),
        valid_identity(context),
        ccr.kind == RequestType::Initial ==> ccr.used_seconds == 0,
        ccr.kind == RequestType::Termination ==> ccr.requested_seconds == 0,
    ensures
        spec_credit_request(ccr, host, realm, destination, context, hop, end) is Ok,
        spec_imscap_request(spec_credit_request(ccr, host, realm, destination, context, hop, end)->Ok_0)
            == Ok::<CcrModel, DiameterError>(ccr),
{
    lemma_subscription(ccr.subscriber);
    let sub = spec_grouped(443, subscription_avps(ccr.subscriber))->Ok_0;
    let m = spec_credit_request(ccr, host, realm, destination, context, hop, end)->Ok_0;
    match ccr.kind {
        RequestType::Initial => lemma_ccr_roundtrip_initial(ccr, host, realm, destination, context, m, sub),
        RequestType::Update => lemma_ccr_roundtrip_update(ccr, host, realm, destination, context, m, sub),
        RequestType::Termination => lemma_ccr_roundtrip_termination(ccr, host, realm, destination, context, m, sub),
    }
}

/// Reading back a CCA that grants time.
#[verifier::rlimit(60)]
#[verifier::spinoff_prover]
proof fn lemma_cca_roundtrip_granted(
    r: CcrModel,
    host: Seq<char>,
    realm: Seq<char>,
    result: u32,
    seconds: u32,
    a: MessageModel,
    flags: u8,
    hop: u32,
    end: u32,
)
    requires
        seconds > 0,
        valid_identity(host),
        valid_identity(realm),
        a == (MessageModel {
            flags: flags & 0x40,
            command: 272,
            application: 4,
            hop,
            end,
            avps: cca_avps(r.session_id, host, realm, r.kind, r.number, result, seconds),
        }),
    ensures
        spec_credit_answer(a, r, hop, end) == Ok::<EventModel, DiameterError>(
            EventModel::Answer { number: r.number, success: result == 2001, granted: seconds },
        ),
{
    let avps = seq![avp_octets(263, encode_utf8(r.session_id)), avp_octets(264, encode_utf8(host)), avp_octets(296, encode_utf8(realm)), avp_number(258, 4), avp_number(416, r.kind.spec_code()), avp_number(415, r.number), avp_number(268, result), time_units(431, seconds)];
    assert(a.avps =~= avps);
    assert((flags & 0x40) & 0x80 == 0 && (flags & 0x40) & 0x20 == 0) by (bit_vector);
    assert(matching(a, 263) =~= seq![avps[0]]) by {
        reveal_with_fuel(code_matches, 9);
    }
    assert(matching(a, 264) =~= seq![avps[1]]) by {
        reveal_with_fuel(code_matches, 9);
    }
    assert(matching(a, 296) =~= seq![avps[2]]) by {
        reveal_with_fuel(code_matches, 9);
    }
    assert(matching(a, 258) =~= seq![avps[3]]) by {
        reveal_with_fuel(code_matches, 9);
    }
    assert(matching(a, 416) =~= seq![avps[4]]) by {
        reveal_with_fuel(code_matches, 9);
    }
    assert(matching(a, 415) =~= seq![avps[5]]) by {
        reveal_with_fuel(code_matches, 9);
    }
    assert(matching(a, 268) =~= seq![avps[6]]) by {
        reveal_with_fuel(code_matches, 9);
    }
    assert(matching(a, 431) =~= seq![avps[7]]) by {
        reveal_with_fuel(code_matches, 9);
    }
    assert(matching(a, 456) =~= Seq::<AvpModel>::empty()) by {
        reveal_with_fuel(code_matches, 9);
    }
    assert(matching(a, 430) =~= Seq::<AvpModel>::empty()) by {
        reveal_with_fuel(code_matches, 9);
    }
    assert(matching(a, 448) =~= Seq::<AvpModel>::empty()) by {
        reveal_with_fuel(code_matches, 9);
    }
    lemma_integer_of(a, 258, 4);
    lemma_integer_of(a, 415, r.number);
    lemma_integer_of(a, 416, r.kind.spec_code());
    lemma_integer_of(a, 268, result);
    lemma_nonempty_utf8(host);
    lemma_nonempty_utf8(realm);
    assert(spec_echo(a, r) is Ok);
    assert(spec_answer_policy(a) is Ok);
    lemma_time_group(431, seconds);
    assert(only_time_units(seq![avp_number(420, seconds)]));
    assert(spec_granted(a) == Ok::<u32, DiameterError>(seconds));
}

/// Reading back a CCA without granted time.
#[verifier::rlimit(60)]
#[verifier::spinoff_prover]
proof fn lemma_cca_roundtrip_plain(
    r: CcrModel,
    host: Seq<char>,
    realm: Seq<char>,
    result: u32,
    seconds: u32,
    a: MessageModel,
    flags: u8,
    hop: u32,
    end: u32,
)
    requires
        seconds == 0,
        valid_identity(host),
        valid_identity(realm),
        a == (MessageModel {
            flags: flags & 0x40,
            command: 272,
            application: 4,
            hop,
            end,
            avps: cca_avps(r.session_id, host, realm, r.kind, r.number, result, seconds),
        }),
    ensures
        spec_credit_answer(a, r, hop, end) == Ok::<EventModel, DiameterError>(
            EventModel::Answer { number: r.number, success: result == 2001, granted: seconds },
        ),
{
    let avps = seq![avp_octets(263, encode_utf8(r.session_id)), avp_octets(264, encode_utf8(host)), avp_octets(296, encode_utf8(realm)), avp_number(258, 4), avp_number(416, r.kind.spec_code()), avp_number(415, r.number), avp_number(268, result)];
    assert(a.avps =~= avps);
    assert((flags & 0x40) & 0x80 == 0 && (flags & 0x40) & 0x20 == 0) by (bit_vector);
    assert(matching(a, 263) =~= seq![avps[0]]) by {
        reveal_with_fuel(code_matches, 8);
    }
    assert(matching(a, 264) =~= seq![avps[1]]) by {
        reveal_with_fuel(code_matches, 8);
    }
    assert(matching(a, 296) =~= seq![avps[2]]) by {
        reveal_with_fuel(code_matches, 8);
    }
    assert(matching(a, 258) =~= seq![avps[3]]) by {
        reveal_with_fuel(code_matches, 8);
    }
    assert(matching(a, 416) =~= seq![avps[4]]) by {
        reveal_with_fuel(code_matches, 8);
    }
    assert(matching(a, 415) =~= seq![avps[5]]) by {
        reveal_with_fuel(code_matches, 8);
    }
    assert(matching(a, 268) =~= seq![avps[6]]) by {
        reveal_with_fuel(code_matches, 8);
    }
    assert(matching(a, 456) =~= Seq::<AvpModel>::empty()) by {
        reveal_with_fuel(code_matches, 8);
    }
    assert(matching(a, 430) =~= Seq::<AvpModel>::empty()) by {
        reveal_with_fuel(code_matches, 8);
    }
    assert(matching(a, 448) =~= Seq::<AvpModel>::empty()) by {
        reveal_with_fuel(code_matches, 8);
    }
    assert(matching(a, 431) =~= Seq::<AvpModel>::empty()) by {
        reveal_with_fuel(code_matches, 8);
    }
    lemma_integer_of(a, 258, 4);
    lemma_integer_of(a, 415, r.number);
    lemma_integer_of(a, 416, r.kind.spec_code());
    lemma_integer_of(a, 268, result);
    lemma_nonempty_utf8(host);
    lemma_nonempty_utf8(realm);
    assert(spec_echo(a, r) is Ok);
    assert(spec_answer_policy(a) is Ok);
    assert(spec_granted(a) == Ok::<u32, DiameterError>(seconds));
}

/// The client reads back every answer the server builds for a CCR it
/// accepted: the request number, success exactly when the result code is
/// 2001, and the granted seconds.
pub proof fn lemma_cca_roundtrip(
    m: MessageModel,
    host: Seq<char>,
    realm: Seq<char>,
    result: u32,
    seconds: u32,
)
    requires
        spec_imscap_request(m) is Ok,
        valid_identity(host),
        valid_identity(realm),
    ensures
        ({
            let r = spec_imscap_request(m)->Ok_0;
            let action = ActionModel::Answer { number: r.number, kind: r.kind, result, seconds };
            &&& spec_imscap_answer(m, action, host, realm) is Ok
            &&& spec_credit_answer(spec_imscap_answer(m, action, host, realm)->Ok_0, r, m.hop, m.end)
                == Ok::<EventModel, DiameterError>(
                EventModel::Answer { number: r.number, success: result == 2001, granted: seconds },
            )
        }),
{
    let r = spec_imscap_request(m)->Ok_0;
    let action = ActionModel::Answer { number: r.number, kind: r.kind, result, seconds };
    let a = spec_imscap_answer(m, action, host, realm)->Ok_0;
    if seconds > 0 {
        lemma_cca_roundtrip_granted(r, host, realm, result, seconds, a, m.flags, m.hop, m.end);
    } else {
        lemma_cca_roundtrip_plain(r, host, realm, result, seconds, a, m.flags, m.hop, m.end);
    }
}

/// The first `n` AVPs have consistent flags and lengths of at most 300 bytes.
pub open spec fn all_small(avps: Seq<AvpModel>, n: int) -> bool
    decreases n,
{
    n <= 0 || (all_small(avps, n - 1) && avp_flags_ok(avps[n - 1]) && avp_length(avps[n - 1])
        <= 300)
}

/// A short list of small AVPs always encodes.
proof fn lemma_encode_small(avps: Seq<AvpModel>, n: int)
    requires
        0 <= n <= 200,
        all_small(avps, n),
    ensures
        encode_avps(avps, n) is Ok,
        body_of(avps, n).len() <= n * 300,
    decreases n,
{
    if n > 0 {
        lemma_encode_small(avps, n - 1);
        lemma_round4(avp_length(avps[n - 1]));
        crate::diameter::codec::lemma_avp_wire_len(avps[n - 1]);
    }
}

/// The Subscription-Id AVP of a subscriber of at most 255 bytes is small.
#[verifier::spinoff_prover]
#[verifier::rlimit(60)]
proof fn lemma_subscription_small(sub: Seq<char>)
    requires
        valid_identity(sub),
    ensures
        spec_grouped(443, subscription_avps(sub)) is Ok,
        avp_flags_ok(spec_grouped(443, subscription_avps(sub))->Ok_0),
        avp_length(spec_grouped(443, subscription_avps(sub))->Ok_0) <= 300,
{
    lemma_subscription(sub);
    let avps = subscription_avps(sub);
    let a0 = avps[0];
    let a1 = avps[1];
    assert(0x40u8 & 0x1f == 0 && 0x40u8 & 0x80 == 0) by (bit_vector);
    crate::diameter::codec::lemma_avp_wire_len(a0);
    crate::diameter::codec::lemma_avp_wire_len(a1);
    lemma_round4(avp_length(a1));
    lemma_round4(avp_length(a0));
    assert(encode_avps(avps, 0) == Ok::<Seq<u8>, DiameterError>(Seq::empty()));
    assert(encode_avps(avps, 1) == Ok::<Seq<u8>, DiameterError>(Seq::empty() + avp_wire(a0)));
    assert(encode_avps(avps, 2) == Ok::<Seq<u8>, DiameterError>(
        Seq::empty() + avp_wire(a0) + avp_wire(a1),
    ));
    let b = spec_encode(bare(avps))->Ok_0;
    assert(b.len() == HEADER_LEN + avp_wire(a0).len() + avp_wire(a1).len());
}

/// A time-units group is small.
proof fn lemma_time_small(code: u32, seconds: u32)
    ensures
        avp_flags_ok(time_units(code, seconds)),
        avp_length(time_units(code, seconds)) <= 300,
{
    assert(0x40u8 & 0x1f == 0 && 0x40u8 & 0x80 == 0) by (bit_vector);
    crate::diameter::codec::lemma_avp_wire_len(avp_number(420, seconds));
    lemma_round4(12);
}

/// Identity texts make small AVPs.
proof fn lemma_text_small(code: u32, s: Seq<char>)
    requires
        valid_identity(s),
    ensures
        avp_flags_ok(avp_octets(code, encode_utf8(s))),
        avp_length(avp_octets(code, encode_utf8(s))) <= 300,
        avp_flags_ok(avp_number(code, 0)),
{
    assert(0x40u8 & 0x1f == 0 && 0x40u8 & 0x80 == 0) by (bit_vector);
}

/// Every AVP of a CCR built from identities is small.
#[verifier::spinoff_prover]
#[verifier::rlimit(60)]
proof fn lemma_ccr_small(
    ccr: CcrModel,
    host: Seq<char>,
    realm: Seq<char>,
    destination: Seq<char>,
    context: Seq<char>,
    m: MessageModel,
)
    requires
        valid_identity(ccr.session_id),
        valid_identity(ccr.subscriber),
        valid_identity(host),
        valid_identity(realm),
        valid_identity(destination),
        valid_identity(context),
        spec_credit_request(ccr, host, realm, destination, context, m.hop, m.end) == Ok::<
            MessageModel,
            DiameterError,
        >(m),
    ensures
        m.avps.len() <= 11,
        all_small(m.avps, m.avps.len() as int),
{
    lemma_subscription_small(ccr.subscriber);
    let sub = spec_grouped(443, subscription_avps(ccr.subscriber))->Ok_0;
    lemma_text_small(263, ccr.session_id);
    lemma_text_small(264, host);
    lemma_text_small(296, realm);
    lemma_text_small(283, destination);
    lemma_text_small(461, context);
    lemma_time_small(446, ccr.used_seconds);
    lemma_time_small(437, ccr.requested_seconds);
    assert(0x40u8 & 0x1f == 0 && 0x40u8 & 0x80 == 0) by (bit_vector);
    let avps = m.avps;
    match ccr.kind {
        RequestType::Initial => {
            let flat = seq![avp_octets(263, encode_utf8(ccr.session_id)), avp_octets(264, encode_utf8(host)), avp_octets(296, encode_utf8(realm)), avp_octets(283, encode_utf8(destination)), avp_number(258, 4), avp_octets(461, encode_utf8(context)), avp_number(416, ccr.kind.spec_code()), avp_number(415, ccr.number), sub, time_units(437, ccr.requested_seconds)];
            assert(avps =~= flat);
            assert(all_small(flat, 0));
            assert(all_small(flat, 1));
            assert(all_small(flat, 2));
            assert(all_small(flat, 3));
            assert(all_small(flat, 4));
            assert(all_small(flat, 5));
            assert(all_small(flat, 6));
            assert(all_small(flat, 7));
            assert(all_small(flat, 8));
            assert(all_small(flat, 9));
            assert(all_small(flat, 10));
        },
        RequestType::Update => {
            let flat = seq![avp_octets(263, encode_utf8(ccr.session_id)), avp_octets(264, encode_utf8(host)), avp_octets(296, encode_utf8(realm)), avp_octets(283, encode_utf8(destination)), avp_number(258, 4), avp_octets(461, encode_utf8(context)), avp_number(416, ccr.kind.spec_code()), avp_number(415, ccr.number), sub, time_units(446, ccr.used_seconds), time_units(437, ccr.requested_seconds)];
            assert(avps =~= flat);
            assert(all_small(flat, 0));
            assert(all_small(flat, 1));
            assert(all_small(flat, 2));
            assert(all_small(flat, 3));
            assert(all_small(flat, 4));
            assert(all_small(flat, 5));
            assert(all_small(flat, 6));
            assert(all_small(flat, 7));
            assert(all_small(flat, 8));
            assert(all_small(flat, 9));
            assert(all_small(flat, 10));
            assert(all_small(flat, 11));
        },
        RequestType::Termination => {
            let flat = seq![avp_octets(263, encode_utf8(ccr.session_id)), avp_octets(264, encode_utf8(host)), avp_octets(296, encode_utf8(realm)), avp_octets(283, encode_utf8(destination)), avp_number(258, 4), avp_octets(461, encode_utf8(context)), avp_number(416, ccr.kind.spec_code()), avp_number(415, ccr.number), sub, time_units(446, ccr.used_seconds), avp_number(295, 1)];
            assert(avps =~= flat);
            assert(all_small(flat, 0));
            assert(all_small(flat, 1));
            assert(all_small(flat, 2));
            assert(all_small(flat, 3));
            assert(all_small(flat, 4));
            assert(all_small(flat, 5));
            assert(all_small(flat, 6));
            assert(all_small(flat, 7));
            assert(all_small(flat, 8));
            assert(all_small(flat, 9));
            assert(all_small(flat, 10));
            assert(all_small(flat, 11));
        },
    }
}

/// Every AVP of an answer built from identities is small.
#[verifier::spinoff_prover]
proof fn lemma_cca_small(
    r: CcrModel,
    host: Seq<char>,
    realm: Seq<char>,
    result: u32,
    seconds: u32,
    a: MessageModel,
)
    requires
        valid_identity(r.session_id),
        valid_identity(host),
        valid_identity(realm),
        a.avps == cca_avps(r.session_id, host, realm, r.kind, r.number, result, seconds),
    ensures
        a.avps.len() <= 8,
        all_small(a.avps, a.avps.len() as int),
{
    lemma_text_small(263, r.session_id);
    lemma_text_small(264, host);
    lemma_text_small(296, realm);
    lemma_time_small(431, seconds);
    assert(0x40u8 & 0x1f == 0 && 0x40u8 & 0x80 == 0) by (bit_vector);
    let avps = a.avps;
    if seconds > 0 {
        let flat = seq![avp_octets(263, encode_utf8(r.session_id)), avp_octets(264, encode_utf8(host)), avp_octets(296, encode_utf8(realm)), avp_number(258, 4), avp_number(416, r.kind.spec_code()), avp_number(415, r.number), avp_number(268, result), time_units(431, seconds)];
        assert(avps =~= flat);
        assert(all_small(flat, 0));
        assert(all_small(flat, 1));
        assert(all_small(flat, 2));
        assert(all_small(flat, 3));
        assert(all_small(flat, 4));
        assert(all_small(flat, 5));
        assert(all_small(flat, 6));
        assert(all_small(flat, 7));
        assert(all_small(flat, 8));
    } else {
        let flat = seq![avp_octets(263, encode_utf8(r.session_id)), avp_octets(264, encode_utf8(host)), avp_octets(296, encode_utf8(realm)), avp_number(258, 4), avp_number(416, r.kind.spec_code()), avp_number(415, r.number), avp_number(268, result)];
        assert(avps =~= flat);
        assert(all_small(flat, 0));
        assert(all_small(flat, 1));
        assert(all_small(flat, 2));
        assert(all_small(flat, 3));
        assert(all_small(flat, 4));
        assert(all_small(flat, 5));
        assert(all_small(flat, 6));
        assert(all_small(flat, 7));
    }
}

/// A CCR built from `r` encodes, decodes back to the same message, and the
/// server reads `r` from it.
#[verifier::opaque]
pub open spec fn survives_wire(
    r: CcrModel,
    host: Seq<char>,
    realm: Seq<char>,
    destination: Seq<char>,
    context: Seq<char>,
    hop: u32,
    end: u32,
) -> bool {
    let m = spec_credit_request(r, host, realm, destination, context, hop, end)->Ok_0;
    &&& spec_credit_request(r, host, realm, destination, context, hop, end) is Ok
    &&& spec_encode(m) is Ok
    &&& spec_decode(spec_encode(m)->Ok_0) == Ok::<MessageModel, DiameterError>(m)
    &&& spec_imscap_request(spec_decode(spec_encode(m)->Ok_0)->Ok_0) == Ok::<CcrModel, DiameterError>(
        r,
    )
}

/// Over the wire: every CCR that [`credit_request`](super::credit_request)
/// builds encodes, and the server decodes and reads back the same request
/// (same conditions as [`lemma_ccr_roundtrip`]).
pub proof fn lemma_ccr_wire_roundtrip(
    ccr: CcrModel,
    host: Seq<char>,
    realm: Seq<char>,
    destination: Seq<char>,
    context: Seq<char>,
    hop: u32,
    end: u32,
)
    requires
        valid_identity(ccr.session_id),
        valid_identity(ccr.subscriber),
        valid_identity(host),
        valid_identity(realm),
        valid_identity(destination),
        valid_identity(context),
        ccr.kind == RequestType::Initial ==> ccr.used_seconds == 0,
        ccr.kind == RequestType::Termination ==> ccr.requested_seconds == 0,
    ensures
        survives_wire(ccr, host, realm, destination, context, hop, end),
{
    lemma_ccr_roundtrip(ccr, host, realm, destination, context, hop, end);
    lemma_subscription_small(ccr.subscriber);
    let m = spec_credit_request(ccr, host, realm, destination, context, hop, end)->Ok_0;
    lemma_ccr_small(ccr, host, realm, destination, context, m);
    lemma_encode_small(m.avps, m.avps.len() as int);
    assert(0xc0u8 & 0x0f == 0) by (bit_vector);
    assert(spec_encode(m) is Ok);
    lemma_decode_encode(m);
    reveal(survives_wire);
}

/// Over the wire: every answer the server builds for an accepted CCR
/// encodes, and the client decodes it and reads back the request number,
/// success exactly when the result code is 2001, and the granted seconds.
pub proof fn lemma_cca_wire_roundtrip(
    m: MessageModel,
    host: Seq<char>,
    realm: Seq<char>,
    result: u32,
    seconds: u32,
)
    requires
        spec_imscap_request(m) is Ok,
        valid_identity(host),
        valid_identity(realm),
    ensures
        ({
            let r = spec_imscap_request(m)->Ok_0;
            let action = ActionModel::Answer { number: r.number, kind: r.kind, result, seconds };
            let a = spec_imscap_answer(m, action, host, realm)->Ok_0;
            &&& spec_encode(a) is Ok
            &&& spec_credit_answer(spec_decode(spec_encode(a)->Ok_0)->Ok_0, r, m.hop, m.end)
                == Ok::<EventModel, DiameterError>(
                EventModel::Answer { number: r.number, success: result == 2001, granted: seconds },
            )
        }),
{
    lemma_cca_roundtrip(m, host, realm, result, seconds);
    let r = spec_imscap_request(m)->Ok_0;
    let action = ActionModel::Answer { number: r.number, kind: r.kind, result, seconds };
    let a = spec_imscap_answer(m, action, host, realm)->Ok_0;
    lemma_request_session_id(m);
    lemma_cca_small(r, host, realm, result, seconds, a);
    lemma_encode_small(a.avps, a.avps.len() as int);
    let flags = m.flags;
    assert((flags & 0x40) & 0x0f == 0) by (bit_vector);
    assert(spec_encode(a) is Ok);
    lemma_decode_encode(a);
}

/// The session id the server reads is an identity: 1 to 255 bytes.
proof fn lemma_request_session_id(m: MessageModel)
    requires
        spec_imscap_request(m) is Ok,
    ensures
        valid_identity(spec_imscap_request(m)->Ok_0.session_id),
{
    let a = spec_unique(m, 263)->Ok_0->Some_0;
    assert(spec_text(m, 263) is Ok);
    vstd::utf8::decode_utf8_encode_utf8(a.data);
    let s = vstd::utf8::decode_utf8(a.data);
    if s.len() == 0 {
        assert(encode_utf8(s) =~= Seq::<u8>::empty());
    }
}

/// A valid subscriber number is a valid identity.
proof fn lemma_subscriber_identity(s: Seq<char>)
    requires
        crate::text::valid_subscriber(s),
    ensures
        valid_identity(s),
{
}

/// The wire round trip for a request of the shape the charging core sends.
#[verifier::spinoff_prover]
proof fn lemma_shaped_request_survives(
    r: CcrModel,
    host: Seq<char>,
    realm: Seq<char>,
    destination: Seq<char>,
    context: Seq<char>,
    hop: u32,
    end: u32,
)
    requires
        crate::text::valid_session_id(r.session_id),
        crate::text::valid_subscriber(r.subscriber),
        r.kind == RequestType::Initial ==> r.used_seconds == 0,
        r.kind == RequestType::Termination ==> r.requested_seconds == 0,
        valid_identity(host),
        valid_identity(realm),
        valid_identity(destination),
        valid_identity(context),
    ensures
        survives_wire(r, host, realm, destination, context, hop, end),
{
    assert(valid_identity(r.session_id));
    assert(valid_identity(r.subscriber)) by {
        lemma_subscriber_identity(r.subscriber);
    }
    lemma_ccr_wire_roundtrip(r, host, realm, destination, context, hop, end);
}

/// Every credit request the charging core sends survives the wire: built
/// into a CCR, encoded, decoded and read by the server, it is the same
/// request. Holds from no session or a well-formed one, for any identities
/// of 1 to 255 bytes.
#[verifier::spinoff_prover]
pub proof fn lemma_sent_requests_survive_the_wire(
    id: Seq<char>,
    current: Option<SessionModel>,
    event: ChargingEvent,
    quota: u32,
    host: Seq<char>,
    realm: Seq<char>,
    destination: Seq<char>,
    context: Seq<char>,
    hop: u32,
    end: u32,
)
    requires
        current matches Some(s) ==> session_wf(s),
        spec_transition(id, current, event, quota) is Ok,
        spec_transition(id, current, event, quota)->Ok_0.1[0] is SendCcr,
        valid_identity(host),
        valid_identity(realm),
        valid_identity(destination),
        valid_identity(context),
    ensures
        survives_wire(
            spec_transition(id, current, event, quota)->Ok_0.1[0]->SendCcr_0,
            host,
            realm,
            destination,
            context,
            hop,
            end,
        ),
{
    let r = spec_transition(id, current, event, quota)->Ok_0.1[0]->SendCcr_0;
    crate::charging::lemma_sent_request_shape(id, current, event, quota);
    lemma_shaped_request_survives(r, host, realm, destination, context, hop, end);
}

/// AVPs appended after the first `k` do not change which of the first `k`
/// carry a code.
proof fn lemma_code_matches_push(avps: Seq<AvpModel>, a: AvpModel, code: u32, k: int)
    requires
        0 <= k <= avps.len(),
    ensures
        code_matches(avps.push(a), code, k) == code_matches(avps, code, k),
    decreases k,
{
    if k > 0 {
        lemma_code_matches_push(avps, a, code, k - 1);
        assert(avps.push(a)[k - 1] == avps[k - 1]);
    }
}

/// No vendor-less AVP with the code among the first `n`: nothing matches.
proof fn lemma_code_matches_none(avps: Seq<AvpModel>, code: u32, n: int)
    requires
        0 <= n <= avps.len(),
        forall|i: int| 0 <= i < n ==> !(#[trigger] avps[i].code == code && avps[i].vendor is None),
    ensures
        code_matches(avps, code, n).len() == 0,
    decreases n,
{
    if n > 0 {
        lemma_code_matches_none(avps, code, n - 1);
    }
}

/// A vendor-less AVP with the code among the first `n`: something matches.
proof fn lemma_code_matches_some(avps: Seq<AvpModel>, code: u32, n: int, i: int)
    requires
        0 <= i < n <= avps.len(),
        avps[i].code == code,
        avps[i].vendor is None,
    ensures
        code_matches(avps, code, n).len() >= 1,
    decreases n,
{
    if i < n - 1 {
        lemma_code_matches_some(avps, code, n - 1, i);
    }
}

/// The answer client refuses every CCA that carries a charging policy this
/// profile does not support: a vendor-less Multiple-Services-Credit-Control
/// (456), Final-Unit-Indication (430) or Validity-Time (448) anywhere among
/// its AVPs, whatever else the answer holds.
pub proof fn lemma_unsupported_policies_refused(
    m: MessageModel,
    request: CcrModel,
    hop: u32,
    end: u32,
    i: int,
)
    requires
        0 <= i < m.avps.len(),
        m.avps[i].vendor is None,
        m.avps[i].code == 456 || m.avps[i].code == 430 || m.avps[i].code == 448,
    ensures
        spec_credit_answer(m, request, hop, end) is Err,
{
    let code = m.avps[i].code;
    lemma_code_matches_some(m.avps, code, m.avps.len() as int, i);
    assert(matching(m, code).len() >= 1);
    assert(spec_unique(m, code) is Err || spec_unique(m, code) matches Ok(Some(_)));
    assert(spec_answer_policy(m) is Err);
}

/// An answer is accepted only for the outstanding transaction: its
/// hop-by-hop and end-to-end identifiers both equal those the request was
/// sent with, it is an answer (Request flag clear) of the credit-control
/// command and application, and it is read as the answer to the
/// outstanding request's number.
pub proof fn lemma_answer_matches_transaction(
    m: MessageModel,
    request: CcrModel,
    hop: u32,
    end: u32,
)
    requires
        spec_credit_answer(m, request, hop, end) is Ok,
    ensures
        m.hop == hop,
        m.end == end,
        m.flags & 0x80 == 0,
        m.command == 272,
        m.application == 4,
        spec_credit_answer(m, request, hop, end)->Ok_0 matches ChargingEvent::Answer { number, .. }
            && number == request.number,
{
}

/// A Destination-Host (293) is part of the request profile and carries
/// nothing the server reads: appending one vendor-less Destination-Host to
/// a CCR that has none leaves what the server reads, or why it refuses,
/// unchanged.
pub proof fn lemma_destination_host_is_accepted(m: MessageModel, a: AvpModel)
    requires
        a.code == 293,
        a.vendor is None,
        forall|i: int|
            0 <= i < m.avps.len() ==> !(#[trigger] m.avps[i].code == 293 && m.avps[i].vendor is None),
    ensures
        spec_imscap_request(MessageModel { avps: m.avps.push(a), ..m }) == spec_imscap_request(m),
{
    let m2 = MessageModel { avps: m.avps.push(a), ..m };
    let n = m.avps.len() as int;
    assert forall|c: u32| c != 293 implies #[trigger] spec_unique(m2, c) == spec_unique(m, c) by {
        lemma_code_matches_push(m.avps, a, c, n);
        assert(m2.avps[n] == a);
        assert(matching(m2, c) == matching(m, c));
    }
    lemma_code_matches_push(m.avps, a, 293, n);
    lemma_code_matches_none(m.avps, 293, n);
    assert(m2.avps[n] == a);
    assert(matching(m2, 293) =~= seq![a]);
    assert(spec_unique(m2, 293) == Ok::<Option<AvpModel>, DiameterError>(Some(a)));
    lemma_scan_push(m, a, n);
    assert(spec_scan(m2, n + 1) == spec_scan(m, n));
    assert(spec_ccr_kind(m2) == spec_ccr_kind(m));
    assert(spec_subscription(m2) == spec_subscription(m));
    assert(spec_used(m2, RequestType::Initial) == spec_used(m, RequestType::Initial));
    assert(spec_used(m2, RequestType::Update) == spec_used(m, RequestType::Update));
    assert(spec_used(m2, RequestType::Termination) == spec_used(m, RequestType::Termination));
    assert(spec_requested(m2, RequestType::Initial) == spec_requested(m, RequestType::Initial));
    assert(spec_requested(m2, RequestType::Update) == spec_requested(m, RequestType::Update));
    assert(spec_requested(m2, RequestType::Termination) == spec_requested(
        m,
        RequestType::Termination,
    ));
    assert(spec_text(m2, 263) == spec_text(m, 263));
    assert(spec_integer(m2, 415) == spec_integer(m, 415));
}

/// Scanning the first `k` AVPs is unchanged by appending a vendor-less
/// Destination-Host to a CCR that has none.
proof fn lemma_scan_push(m: MessageModel, a: AvpModel, k: int)
    requires
        0 <= k <= m.avps.len(),
        a.code == 293,
        a.vendor is None,
        forall|i: int|
            0 <= i < m.avps.len() ==> !(#[trigger] m.avps[i].code == 293 && m.avps[i].vendor is None),
        forall|c: u32|
            c != 293 ==> #[trigger] spec_unique(MessageModel { avps: m.avps.push(a), ..m }, c)
                == spec_unique(m, c),
    ensures
        spec_scan(MessageModel { avps: m.avps.push(a), ..m }, k) == spec_scan(m, k),
    decreases k,
{
    let m2 = MessageModel { avps: m.avps.push(a), ..m };
    if k > 0 {
        lemma_scan_push(m, a, k - 1);
        assert(m2.avps[k - 1] == m.avps[k - 1]);
        let b = m.avps[k - 1];
        if b.code != 293 {
            assert(spec_unique(m2, b.code) == spec_unique(m, b.code));
        }
    }
}

} // verus!
