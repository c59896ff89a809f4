//! Bounded Diameter framing (RFC 6733 header and AVPs) and the narrow
//! credit-control profile built on it.

pub mod codec;
pub mod avps;
pub mod profile;
pub mod laws;

pub use codec::MAX_FRAME;
pub use profile::credit_request;

use vstd::prelude::*;

verus! {

/// One attribute-value pair as it travels in a frame.
#[derive(Debug, Clone, PartialEq, Eq)]
pub struct Avp {
    pub code: u32,
    pub flags: u8,
    pub vendor: Option<u32>,
    pub data: Vec<u8>,
}

/// A Diameter message: header fields and the AVPs in wire order.
#[derive(Debug, Clone, PartialEq, Eq)]
pub struct Message {
    pub flags: u8,
    pub command: u32,
    pub application: u32,
    pub hop: u32,
    pub end: u32,
    pub avps: Vec<Avp>,
}

/// The mathematical value of an [`Avp`].
pub struct AvpModel {
    pub code: u32,
    pub flags: u8,
    pub vendor: Option<u32>,
    pub data: Seq<u8>,
}

/// The mathematical value of a [`Message`].
pub struct MessageModel {
    pub flags: u8,
    pub command: u32,
    pub application: u32,
    pub hop: u32,
    pub end: u32,
    pub avps: Seq<AvpModel>,
}

impl DeepView for Avp {
    type V = AvpModel;

    open spec fn deep_view(&self) -> AvpModel {
        AvpModel { code: self.code, flags: self.flags, vendor: self.vendor, data: self.data@ }
    }
}

impl DeepView for Message {
    type V = MessageModel;

    open spec fn deep_view(&self) -> MessageModel {
        MessageModel {
            flags: self.flags,
            command: self.command,
            application: self.application,
            hop: self.hop,
            end: self.end,
            avps: self.avps.deep_view(),
        }
    }
}

/// Why a frame could not be read or written, or why a message falls
/// outside the supported credit-control profile.
#[derive(Debug, Clone, Copy, PartialEq, Eq, Structural)]
pub enum DiameterError {
    FrameSize,
    InvalidHeader,
    ReservedCommandFlags,
    TruncatedAvpHeader,
    ReservedAvpFlags,
    InvalidAvpLength,
    TruncatedAvpPadding,
    TooManyAvps,
    InvalidCommand,
    InvalidAvpFlags,
    AvpTooLarge,
    FrameTooLarge,
    InvalidIdentity,
    GroupTooLarge,
    DuplicateAvp,
    MissingText,
    InvalidText,
    InvalidUtf8,
    MissingInteger,
    InvalidInteger,
    NotCcr,
    UnsupportedAvp,
    WrongApplication,
    UnsupportedRequestType,
    MissingSubscriber,
    ExpectedOneMsisdn,
    MissingUnits,
    OnlyCcTime,
    InitialUsage,
    TerminationRequestsUnits,
    NotAnAnswer,
    AnswerMismatch,
    InvalidOrigin,
    NotCreditAnswer,
    IdentifierMismatch,
    MissingSessionId,
    SessionMismatch,
    RequestMismatch,
    MissingOrigin,
    UnsupportedPolicy,
    OnlyTimeUnits,
}

/// The byte sequence inside a fallible result, by value.
pub open spec fn bytes_result(r: Result<Vec<u8>, DiameterError>) -> Result<Seq<u8>, DiameterError> {
    match r {
        Ok(b) => Ok(b@),
        Err(e) => Err(e),
    }
}

/// The message model inside a fallible result.
pub open spec fn message_result(r: Result<Message, DiameterError>) -> Result<MessageModel, DiameterError> {
    match r {
        Ok(m) => Ok(m.deep_view()),
        Err(e) => Err(e),
    }
}

} // verus!
