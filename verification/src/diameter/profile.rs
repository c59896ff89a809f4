//! The narrow single-service, time-based credit-control profile: building
//! CCRs, reading them on the server side, answering them and validating
//! the answers. Not a complete 3GPP Ro profile.
use super::avps::{
    avp_number, avp_octets, spec_group, spec_grouped, spec_integer, spec_text, spec_unique,
    time_units,
};
use super::{message_result, Avp, AvpModel, DiameterError, Message, MessageModel};
use crate::charging::{Ccr, CcrModel, Event, EventModel, RequestType};
use crate::imscap::{Action, ActionModel};
use crate::text::{bytes_equal, check_identity, valid_identity};
use vstd::prelude::*;
use vstd::slice::slice_to_vec;
use vstd::utf8::encode_utf8;

verus! {

/// Subscription-Id contents: one MSISDN (type 0) with the subscriber's digits.
pub open spec fn subscription_avps(subscriber: Seq<char>) -> Seq<AvpModel> {
    seq![avp_number(450, 0), avp_octets(444, encode_utf8(subscriber))]
}

/// The AVPs of a CCR, in wire order, given its Subscription-Id AVP.
pub open spec fn ccr_avps(
    ccr: CcrModel,
    host: Seq<char>,
    realm: Seq<char>,
    destination: Seq<char>,
    context: Seq<char>,
    subscription: AvpModel,
) -> Seq<AvpModel> {
    seq![
        avp_octets(263, encode_utf8(ccr.session_id)),
        avp_octets(264, encode_utf8(host)),
        avp_octets(296, encode_utf8(realm)),
        avp_octets(283, encode_utf8(destination)),
        avp_number(258, 4),
        avp_octets(461, encode_utf8(context)),
        avp_number(416, ccr.kind.spec_code()),
        avp_number(415, ccr.number),
        subscription,
    ] + (if ccr.kind != RequestType::Initial {
        seq![time_units(446, ccr.used_seconds)]
    } else {
        Seq::empty()
    }) + (if ccr.kind != RequestType::Termination {
        seq![time_units(437, ccr.requested_seconds)]
    } else {
        seq![avp_number(295, 1)]
    })
}

/// The CCR that [`credit_request`] builds, or why it cannot.
pub open spec fn spec_credit_request(
    ccr: CcrModel,
    host: Seq<char>,
    realm: Seq<char>,
    destination: Seq<char>,
    context: Seq<char>,
    hop: u32,
    end: u32,
) -> Result<MessageModel, DiameterError> {
    if !(valid_identity(host) && valid_identity(realm) && valid_identity(destination)
        && valid_identity(context)) {
        Err(DiameterError::InvalidIdentity)
    } else {
        match spec_grouped(443, subscription_avps(ccr.subscriber)) {
            Err(e) => Err(e),
            Ok(subscription) => Ok(
                MessageModel {
                    flags: 0xc0,
                    command: 272,
                    application: 4,
                    hop,
                    end,
                    avps: ccr_avps(ccr, host, realm, destination, context, subscription),
                },
            ),
        }
    }
}

/// AVP codes a CCR of this profile may carry.
pub open spec fn ccr_code_allowed(code: u32) -> bool {
    code == 263 || code == 264 || code == 296 || code == 283 || code == 293 || code == 258 || code
        == 461 || code == 416 || code == 415 || code == 443 || code == 446 || code == 437 || code
        == 295
}

/// Header of a credit-control request: command 272, application 4,
/// Request flag set, Error flag clear.
pub open spec fn ccr_header(m: MessageModel) -> bool {
    m.command == 272 && m.application == 4 && m.flags & 0x80 != 0 && m.flags & 0x20 == 0
}

/// The first `n` AVPs are supported and none of them repeats.
pub open spec fn spec_scan(m: MessageModel, n: int) -> Result<(), DiameterError>
    decreases n,
{
    if n <= 0 {
        Ok(())
    } else {
        match spec_scan(m, n - 1) {
            Err(e) => Err(e),
            Ok(_) => {
                let a = m.avps[n - 1];
                if !(a.vendor is None && ccr_code_allowed(a.code)) {
                    Err(DiameterError::UnsupportedAvp)
                } else {
                    match spec_unique(m, a.code) {
                        Err(e) => Err(e),
                        Ok(_) => Ok(()),
                    }
                }
            },
        }
    }
}

/// The four mandatory identity texts are present and readable.
pub open spec fn spec_identities(m: MessageModel) -> Result<(), DiameterError> {
    match spec_text(m, 264) {
        Err(e) => Err(e),
        Ok(_) => match spec_text(m, 296) {
            Err(e) => Err(e),
            Ok(_) => match spec_text(m, 283) {
                Err(e) => Err(e),
                Ok(_) => match spec_text(m, 461) {
                    Err(e) => Err(e),
                    Ok(_) => Ok(()),
                },
            },
        },
    }
}

/// CC-Request-Type for a wire value.
pub open spec fn request_type_of(v: u32) -> Option<RequestType> {
    if v == 1 {
        Some(RequestType::Initial)
    } else if v == 2 {
        Some(RequestType::Update)
    } else if v == 3 {
        Some(RequestType::Termination)
    } else {
        None
    }
}

/// Header, AVP set, application and identities of a CCR; its request type.
pub open spec fn spec_ccr_kind(m: MessageModel) -> Result<RequestType, DiameterError> {
    if !ccr_header(m) {
        Err(DiameterError::NotCcr)
    } else {
        match spec_scan(m, m.avps.len() as int) {
            Err(e) => Err(e),
            Ok(_) => match spec_integer(m, 258) {
                Err(e) => Err(e),
                Ok(app) => if app != 4 {
                    Err(DiameterError::WrongApplication)
                } else {
                    match spec_identities(m) {
                        Err(e) => Err(e),
                        Ok(_) => match spec_integer(m, 416) {
                            Err(e) => Err(e),
                            Ok(t) => match request_type_of(t) {
                                None => Err(DiameterError::UnsupportedRequestType),
                                Some(kind) => Ok(kind),
                            },
                        },
                    }
                },
            },
        }
    }
}

/// The Subscription-Id group: exactly one MSISDN.
pub open spec fn spec_subscription(m: MessageModel) -> Result<MessageModel, DiameterError> {
    match spec_unique(m, 443) {
        Err(e) => Err(e),
        Ok(None) => Err(DiameterError::MissingSubscriber),
        Ok(Some(a)) => match spec_group(a) {
            Err(e) => Err(e),
            Ok(sub) => if sub.avps.len() != 2 {
                Err(DiameterError::ExpectedOneMsisdn)
            } else {
                match spec_integer(sub, 450) {
                    Err(e) => Err(e),
                    Ok(t) => if t != 0 {
                        Err(DiameterError::ExpectedOneMsisdn)
                    } else {
                        Ok(sub)
                    },
                }
            },
        },
    }
}

/// Seconds in a Used/Requested-Service-Unit group holding only CC-Time.
pub open spec fn spec_units(m: MessageModel, code: u32) -> Result<u32, DiameterError> {
    match spec_unique(m, code) {
        Err(e) => Err(e),
        Ok(None) => Err(DiameterError::MissingUnits),
        Ok(Some(a)) => match spec_group(a) {
            Err(e) => Err(e),
            Ok(g) => if g.avps.len() != 1 {
                Err(DiameterError::OnlyCcTime)
            } else {
                spec_integer(g, 420)
            },
        },
    }
}

/// Used seconds of a CCR: none for an initial request.
pub open spec fn spec_used(m: MessageModel, kind: RequestType) -> Result<u32, DiameterError> {
    if kind == RequestType::Initial {
        match spec_unique(m, 446) {
            Err(e) => Err(e),
            Ok(Some(_)) => Err(DiameterError::InitialUsage),
            Ok(None) => Ok(0),
        }
    } else {
        spec_units(m, 446)
    }
}

/// Requested seconds of a CCR: none, and a Termination-Cause, for a
/// termination.
pub open spec fn spec_requested(m: MessageModel, kind: RequestType) -> Result<u32, DiameterError> {
    if kind == RequestType::Termination {
        match spec_unique(m, 437) {
            Err(e) => Err(e),
            Ok(Some(_)) => Err(DiameterError::TerminationRequestsUnits),
            Ok(None) => match spec_integer(m, 295) {
                Err(e) => Err(e),
                Ok(_) => Ok(0),
            },
        }
    } else {
        spec_units(m, 437)
    }
}

/// The request that [`Message::imscap_request`] reads, or why it refuses.
pub open spec fn spec_imscap_request(m: MessageModel) -> Result<CcrModel, DiameterError> {
    match spec_ccr_kind(m) {
        Err(e) => Err(e),
        Ok(kind) => match spec_subscription(m) {
            Err(e) => Err(e),
            Ok(sub) => match spec_used(m, kind) {
                Err(e) => Err(e),
                Ok(used) => match spec_requested(m, kind) {
                    Err(e) => Err(e),
                    Ok(requested) => match spec_text(m, 263) {
                        Err(e) => Err(e),
                        Ok(session_id) => match spec_text(sub, 444) {
                            Err(e) => Err(e),
                            Ok(subscriber) => match spec_integer(m, 415) {
                                Err(e) => Err(e),
                                Ok(number) => Ok(
                                    CcrModel {
                                        session_id,
                                        subscriber,
                                        number,
                                        kind,
                                        used_seconds: used,
                                        requested_seconds: requested,
                                    },
                                ),
                            },
                        },
                    },
                },
            },
        },
    }
}

/// The AVPs of a CCA for the given session.
pub open spec fn cca_avps(
    session_id: Seq<char>,
    host: Seq<char>,
    realm: Seq<char>,
    kind: RequestType,
    number: u32,
    result: u32,
    seconds: u32,
) -> Seq<AvpModel> {
    seq![
        avp_octets(263, encode_utf8(session_id)),
        avp_octets(264, encode_utf8(host)),
        avp_octets(296, encode_utf8(realm)),
        avp_number(258, 4),
        avp_number(416, kind.spec_code()),
        avp_number(415, number),
        avp_number(268, result),
    ] + if seconds > 0 {
        seq![time_units(431, seconds)]
    } else {
        Seq::empty()
    }
}

/// The CCA that [`Message::imscap_answer`] builds for this CCR, or why it
/// cannot.
pub open spec fn spec_imscap_answer(
    m: MessageModel,
    action: ActionModel,
    host: Seq<char>,
    realm: Seq<char>,
) -> Result<MessageModel, DiameterError> {
    match spec_imscap_request(m) {
        Err(e) => Err(e),
        Ok(request) => match action {
            ActionModel::Answer { number, kind, result, seconds } => if !(number == request.number
                && kind == request.kind) {
                Err(DiameterError::AnswerMismatch)
            } else if !(valid_identity(host) && valid_identity(realm)) {
                Err(DiameterError::InvalidOrigin)
            } else {
                Ok(
                    MessageModel {
                        flags: m.flags & 0x40,
                        command: 272,
                        application: 4,
                        hop: m.hop,
                        end: m.end,
                        avps: cca_avps(request.session_id, host, realm, kind, number, result, seconds),
                    },
                )
            },
            _ => Err(DiameterError::NotAnAnswer),
        },
    }
}

/// Application, request number and request type echo the outstanding CCR.
pub open spec fn spec_echo(m: MessageModel, request: CcrModel) -> Result<(), DiameterError> {
    match spec_integer(m, 258) {
        Err(e) => Err(e),
        Ok(app) => if app != 4 {
            Err(DiameterError::RequestMismatch)
        } else {
            match spec_integer(m, 415) {
                Err(e) => Err(e),
                Ok(n) => if n != request.number {
                    Err(DiameterError::RequestMismatch)
                } else {
                    match spec_integer(m, 416) {
                        Err(e) => Err(e),
                        Ok(k) => if k != request.kind.spec_code() {
                            Err(DiameterError::RequestMismatch)
                        } else {
                            Ok(())
                        },
                    }
                },
            }
        },
    }
}

/// A non-empty Origin-Host or Origin-Realm.
pub open spec fn spec_origin(m: MessageModel, code: u32) -> Result<(), DiameterError> {
    match spec_unique(m, code) {
        Err(e) => Err(e),
        Ok(Some(a)) => if a.data.len() > 0 {
            Ok(())
        } else {
            Err(DiameterError::MissingOrigin)
        },
        Ok(None) => Err(DiameterError::MissingOrigin),
    }
}

/// An unsupported charging policy AVP is absent.
pub open spec fn spec_absent(m: MessageModel, code: u32) -> Result<(), DiameterError> {
    match spec_unique(m, code) {
        Err(e) => Err(e),
        Ok(None) => Ok(()),
        Ok(Some(_)) => Err(DiameterError::UnsupportedPolicy),
    }
}

/// Both origins present, and no Multiple-Services-Credit-Control (456),
/// Validity-Time (448) or Final-Unit-Indication (430).
pub open spec fn spec_answer_policy(m: MessageModel) -> Result<(), DiameterError> {
    match spec_origin(m, 264) {
        Err(e) => Err(e),
        Ok(_) => match spec_origin(m, 296) {
            Err(e) => Err(e),
            Ok(_) => match spec_absent(m, 456) {
                Err(e) => Err(e),
                Ok(_) => match spec_absent(m, 430) {
                    Err(e) => Err(e),
                    Ok(_) => spec_absent(m, 448),
                },
            },
        },
    }
}

/// A vendor-less CC-Time AVP.
pub open spec fn is_time_unit(a: AvpModel) -> bool {
    a.code == 420 && a.vendor is None
}

/// Every AVP is a vendor-less CC-Time.
pub open spec fn only_time_units(avps: Seq<AvpModel>) -> bool {
    forall|i: int| 0 <= i < avps.len() ==> is_time_unit(#[trigger] avps[i])
}

/// Seconds granted by a Granted-Service-Unit, zero when there is none.
pub open spec fn spec_granted(m: MessageModel) -> Result<u32, DiameterError> {
    match spec_unique(m, 431) {
        Err(e) => Err(e),
        Ok(None) => Ok(0),
        Ok(Some(g)) => match spec_group(g) {
            Err(e) => Err(e),
            Ok(units) => if !only_time_units(units.avps) {
                Err(DiameterError::OnlyTimeUnits)
            } else {
                spec_integer(units, 420)
            },
        },
    }
}

/// The normalized answer that [`Message::credit_answer`] reads, or why it
/// refuses the CCA.
pub open spec fn spec_credit_answer(m: MessageModel, request: CcrModel, hop: u32, end: u32) -> Result<
    EventModel,
    DiameterError,
> {
    if !(m.flags & 0x80 == 0 && m.command == 272 && m.application == 4) {
        Err(DiameterError::NotCreditAnswer)
    } else if !(m.hop == hop && m.end == end) {
        Err(DiameterError::IdentifierMismatch)
    } else {
        match spec_unique(m, 263) {
            Err(e) => Err(e),
            Ok(None) => Err(DiameterError::MissingSessionId),
            Ok(Some(id)) => if id.data != encode_utf8(request.session_id) {
                Err(DiameterError::SessionMismatch)
            } else {
                match spec_echo(m, request) {
                    Err(e) => Err(e),
                    Ok(_) => match spec_answer_policy(m) {
                        Err(e) => Err(e),
                        Ok(_) => match spec_integer(m, 268) {
                            Err(e) => Err(e),
                            Ok(code) => match spec_granted(m) {
                                Err(e) => Err(e),
                                Ok(granted) => Ok(
                                    EventModel::Answer {
                                        number: request.number,
                                        success: code == 2001 && m.flags & 0x20 == 0,
                                        granted,
                                    },
                                ),
                            },
                        },
                    },
                }
            },
        }
    }
}

/// The request inside a fallible read, by value.
pub open spec fn ccr_result(r: Result<Ccr, DiameterError>) -> Result<CcrModel, DiameterError> {
    match r {
        Ok(c) => Ok(c.deep_view()),
        Err(e) => Err(e),
    }
}

/// The event inside a fallible read, by value.
pub open spec fn event_result(r: Result<Event, DiameterError>) -> Result<EventModel, DiameterError> {
    match r {
        Ok(e) => Ok(e.deep_view()),
        Err(e) => Err(e),
    }
}

proof fn lemma_scan_error_sticks(m: MessageModel, k: int, n: int)
    requires
        0 <= k <= n,
        spec_scan(m, k) is Err,
    ensures
        spec_scan(m, n) == spec_scan(m, k),
    decreases n - k,
{
    if k < n {
        lemma_scan_error_sticks(m, k, n - 1);
    }
}

impl Avp {
    /// A Mandatory AVP holding the UTF-8 bytes of `text`.
    fn text(code: u32, text: &str) -> (a: Avp)
        ensures
            a.deep_view() == avp_octets(code, encode_utf8(text@)),
    {
        Avp { code, flags: 0x40, vendor: None, data: slice_to_vec(text.as_bytes()) }
    }
}

/// A minimal single-service, time-based CCR. Not a complete 3GPP Ro
/// profile. Caller supplies globally unique session IDs, peer identities and
/// an agreed service context; each of those four must be 1 to 255 bytes.
pub fn credit_request(
    ccr: &Ccr,
    host: &str,
    realm: &str,
    destination: &str,
    context: &str,
    hop: u32,
    end: u32,
) -> (res: Result<Message, DiameterError>)
    ensures
        message_result(res) == spec_credit_request(
            ccr.deep_view(),
            host@,
            realm@,
            destination@,
            context@,
            hop,
            end,
        ),
{
    if !(check_identity(host) && check_identity(realm) && check_identity(destination)
        && check_identity(context)) {
        return Err(DiameterError::InvalidIdentity);
    }
    let inner = vec![Avp::number(450, 0), Avp::text(444, ccr.subscriber.as_str())];
    assert(inner.deep_view() =~= subscription_avps(ccr.subscriber@));
    let subscription = match Avp::grouped(443, inner) {
        Ok(a) => a,
        Err(e) => {
            return Err(e);
        },
    };
    let ghost sub_model = subscription.deep_view();
    let mut avps = vec![
        Avp::text(263, ccr.session_id.as_str()),
        Avp::text(264, host),
        Avp::text(296, realm),
        Avp::text(283, destination),
        Avp::number(258, 4),
        Avp::text(461, context),
        Avp::number(416, ccr.kind.code()),
        Avp::number(415, ccr.number),
        subscription,
    ];
    let ghost base = avps.deep_view();
    if ccr.kind != RequestType::Initial {
        avps.push(Avp::time_units(446, ccr.used_seconds));
    }
    let ghost with_used = avps.deep_view();
    if ccr.kind != RequestType::Termination {
        avps.push(Avp::time_units(437, ccr.requested_seconds));
    } else {
        avps.push(Avp::number(295, 1));
    }
    proof {
        let expected = ccr_avps(ccr.deep_view(), host@, realm@, destination@, context@, sub_model);
        assert(base =~= expected.take(9));
        if ccr.kind != RequestType::Initial {
            assert(with_used =~= expected.take(10));
        } else {
            assert(with_used =~= expected.take(9));
        }
        assert(avps.deep_view() =~= expected);
    }
    Ok(Message { flags: 0xc0, command: 272, application: 4, hop, end, avps })
}

impl Message {
    fn scan(&self) -> (res: Result<(), DiameterError>)
        ensures
            res == spec_scan(self.deep_view(), self.avps@.len() as int),
    {
        let ghost m = self.deep_view();
        let n = self.avps.len();
        let mut i: usize = 0;
        while i < n
            invariant
                n == self.avps@.len(),
                m == self.deep_view(),
                i <= n,
                spec_scan(m, i as int) is Ok,
            decreases n - i,
        {
            let a = &self.avps[i];
            assert(a.deep_view() == m.avps[i as int]);
            let code = a.code;
            let allowed = code == 263 || code == 264 || code == 296 || code == 283 || code == 293
                || code == 258 || code == 461 || code == 416 || code == 415 || code == 443 || code
                == 446 || code == 437 || code == 295;
            if !(a.vendor.is_none() && allowed) {
                proof {
                    lemma_scan_error_sticks(m, i + 1, n as int);
                }
                return Err(DiameterError::UnsupportedAvp);
            }
            match self.unique(code) {
                Err(e) => {
                    proof {
                        lemma_scan_error_sticks(m, i + 1, n as int);
                    }
                    return Err(e);
                },
                Ok(_) => {},
            }
            i = i + 1;
        }
        Ok(())
    }

    fn identities(&self) -> (res: Result<(), DiameterError>)
        ensures
            res == spec_identities(self.deep_view()),
    {
        self.text(264)?;
        self.text(296)?;
        self.text(283)?;
        match self.text(461) {
            Err(e) => Err(e),
            Ok(_) => Ok(()),
        }
    }

    fn ccr_kind(&self) -> (res: Result<RequestType, DiameterError>)
        ensures
            res == spec_ccr_kind(self.deep_view()),
    {
        if !(self.command == 272 && self.application == 4 && self.flags & 0x80 != 0 && self.flags
            & 0x20 == 0) {
            return Err(DiameterError::NotCcr);
        }
        self.scan()?;
        let app = self.integer(258)?;
        if app != 4 {
            return Err(DiameterError::WrongApplication);
        }
        self.identities()?;
        let t = self.integer(416)?;
        if t == 1 {
            Ok(RequestType::Initial)
        } else if t == 2 {
            Ok(RequestType::Update)
        } else if t == 3 {
            Ok(RequestType::Termination)
        } else {
            Err(DiameterError::UnsupportedRequestType)
        }
    }

    fn subscription(&self) -> (res: Result<Message, DiameterError>)
        ensures
            message_result(res) == spec_subscription(self.deep_view()),
    {
        let idx = match self.unique(443) {
            Err(e) => {
                return Err(e);
            },
            Ok(None) => {
                return Err(DiameterError::MissingSubscriber);
            },
            Ok(Some(i)) => i,
        };
        let sub = Self::group(&self.avps[idx])?;
        if sub.avps.len() != 2 {
            return Err(DiameterError::ExpectedOneMsisdn);
        }
        let t = sub.integer(450)?;
        if t != 0 {
            return Err(DiameterError::ExpectedOneMsisdn);
        }
        Ok(sub)
    }

    fn units(&self, code: u32) -> (res: Result<u32, DiameterError>)
        ensures
            res == spec_units(self.deep_view(), code),
    {
        let idx = match self.unique(code) {
            Err(e) => {
                return Err(e);
            },
            Ok(None) => {
                return Err(DiameterError::MissingUnits);
            },
            Ok(Some(i)) => i,
        };
        let group = Self::group(&self.avps[idx])?;
        if group.avps.len() != 1 {
            return Err(DiameterError::OnlyCcTime);
        }
        group.integer(420)
    }

    fn used(&self, kind: RequestType) -> (res: Result<u32, DiameterError>)
        ensures
            res == spec_used(self.deep_view(), kind),
    {
        if kind == RequestType::Initial {
            match self.unique(446) {
                Err(e) => Err(e),
                Ok(Some(_)) => Err(DiameterError::InitialUsage),
                Ok(None) => Ok(0),
            }
        } else {
            self.units(446)
        }
    }

    fn requested(&self, kind: RequestType) -> (res: Result<u32, DiameterError>)
        ensures
            res == spec_requested(self.deep_view(), kind),
    {
        if kind == RequestType::Termination {
            match self.unique(437) {
                Err(e) => Err(e),
                Ok(Some(_)) => Err(DiameterError::TerminationRequestsUnits),
                Ok(None) => match self.integer(295) {
                    Err(e) => Err(e),
                    Ok(_) => Ok(0),
                },
            }
        } else {
            self.units(437)
        }
    }

    /// Strict simulator profile: one MSISDN, single-service seconds, no MSCC.
    pub fn imscap_request(&self) -> (res: Result<Ccr, DiameterError>)
        ensures
            ccr_result(res) == spec_imscap_request(self.deep_view()),
    {
        let kind = self.ccr_kind()?;
        let sub = self.subscription()?;
        let used_seconds = self.used(kind)?;
        let requested_seconds = self.requested(kind)?;
        let session_id = self.text(263)?;
        let subscriber = sub.text(444)?;
        let number = self.integer(415)?;
        Ok(Ccr { session_id, subscriber, number, kind, used_seconds, requested_seconds })
    }

    /// Encode an IMSCAP decision using this CCR's transport correlation identifiers.
    pub fn imscap_answer(&self, action: &Action, host: &str, realm: &str) -> (res: Result<
        Self,
        DiameterError,
    >)
        ensures
            message_result(res) == spec_imscap_answer(
                self.deep_view(),
                action.deep_view(),
                host@,
                realm@,
            ),
    {
        let request = self.imscap_request()?;
        let (number, kind, result, seconds) = match action {
            Action::Answer { number, kind, result, seconds } => (*number, *kind, *result, *seconds),
            _ => {
                return Err(DiameterError::NotAnAnswer);
            },
        };
        if !(number == request.number && kind == request.kind) {
            return Err(DiameterError::AnswerMismatch);
        }
        if !(check_identity(host) && check_identity(realm)) {
            return Err(DiameterError::InvalidOrigin);
        }
        let mut avps = vec![
            Avp::text(263, request.session_id.as_str()),
            Avp::text(264, host),
            Avp::text(296, realm),
            Avp::number(258, 4),
            Avp::number(416, kind.code()),
            Avp::number(415, number),
            Avp::number(268, result),
        ];
        let ghost base = avps.deep_view();
        if seconds > 0 {
            avps.push(Avp::time_units(431, seconds));
        }
        proof {
            let expected = cca_avps(request.session_id@, host@, realm@, kind, number, result, seconds);
            assert(base =~= expected.take(7));
            assert(avps.deep_view() =~= expected);
        }
        Ok(
            Self {
                flags: self.flags & 0x40,
                command: 272,
                application: 4,
                hop: self.hop,
                end: self.end,
                avps,
            },
        )
    }

    fn echo(&self, request: &Ccr) -> (res: Result<(), DiameterError>)
        ensures
            res == spec_echo(self.deep_view(), request.deep_view()),
    {
        let app = self.integer(258)?;
        if app != 4 {
            return Err(DiameterError::RequestMismatch);
        }
        let n = self.integer(415)?;
        if n != request.number {
            return Err(DiameterError::RequestMismatch);
        }
        let k = self.integer(416)?;
        if k != request.kind.code() {
            return Err(DiameterError::RequestMismatch);
        }
        Ok(())
    }

    fn origin(&self, code: u32) -> (res: Result<(), DiameterError>)
        ensures
            res == spec_origin(self.deep_view(), code),
    {
        match self.unique(code) {
            Err(e) => Err(e),
            Ok(Some(i)) => if self.avps[i].data.len() > 0 {
                Ok(())
            } else {
                Err(DiameterError::MissingOrigin)
            },
            Ok(None) => Err(DiameterError::MissingOrigin),
        }
    }

    fn absent(&self, code: u32) -> (res: Result<(), DiameterError>)
        ensures
            res == spec_absent(self.deep_view(), code),
    {
        match self.unique(code) {
            Err(e) => Err(e),
            Ok(None) => Ok(()),
            Ok(Some(_)) => Err(DiameterError::UnsupportedPolicy),
        }
    }

    fn answer_policy(&self) -> (res: Result<(), DiameterError>)
        ensures
            res == spec_answer_policy(self.deep_view()),
    {
        self.origin(264)?;
        self.origin(296)?;
        self.absent(456)?;
        self.absent(430)?;
        self.absent(448)
    }

    fn granted(&self) -> (res: Result<u32, DiameterError>)
        ensures
            res == spec_granted(self.deep_view()),
    {
        let idx = match self.unique(431) {
            Err(e) => {
                return Err(e);
            },
            Ok(None) => {
                return Ok(0);
            },
            Ok(Some(i)) => i,
        };
        let units = Self::group(&self.avps[idx])?;
        let ghost um = units.deep_view();
        assert(spec_granted(self.deep_view()) == if !only_time_units(um.avps) {
            Err(DiameterError::OnlyTimeUnits)
        } else {
            spec_integer(um, 420)
        });
        let n = units.avps.len();
        let mut i: usize = 0;
        while i < n
            invariant
                n == units.avps@.len(),
                um == units.deep_view(),
                i <= n,
                forall|j: int| 0 <= j < i ==> is_time_unit(#[trigger] um.avps[j]),
                spec_granted(self.deep_view()) == if !only_time_units(um.avps) {
                    Err(DiameterError::OnlyTimeUnits)
                } else {
                    spec_integer(um, 420)
                },
            decreases n - i,
        {
            let a = &units.avps[i];
            assert(a.deep_view() == um.avps[i as int]);
            if !(a.code == 420 && a.vendor.is_none()) {
                return Err(DiameterError::OnlyTimeUnits);
            }
            i = i + 1;
        }
        units.integer(420)
    }

    /// Validate the intentionally narrow CCA subset against the outstanding CCR.
    /// Unsupported multi-service, validity-time and final-unit policies are rejected.
    pub fn credit_answer(&self, request: &Ccr, hop: u32, end: u32) -> (res: Result<
        Event,
        DiameterError,
    >)
        ensures
            event_result(res) == spec_credit_answer(self.deep_view(), request.deep_view(), hop, end),
    {
        if !(self.flags & 0x80 == 0 && self.command == 272 && self.application == 4) {
            return Err(DiameterError::NotCreditAnswer);
        }
        if !(self.hop == hop && self.end == end) {
            return Err(DiameterError::IdentifierMismatch);
        }
        let idx = match self.unique(263) {
            Err(e) => {
                return Err(e);
            },
            Ok(None) => {
                return Err(DiameterError::MissingSessionId);
            },
            Ok(Some(i)) => i,
        };
        if !bytes_equal(self.avps[idx].data.as_slice(), request.session_id.as_str().as_bytes()) {
            return Err(DiameterError::SessionMismatch);
        }
        self.echo(request)?;
        self.answer_policy()?;
        let code = self.integer(268)?;
        let success = code == 2001 && self.flags & 0x20 == 0;
        let granted = self.granted()?;
        Ok(Event::Answer { number: request.number, success, granted })
    }
}

} // verus!
