//! Error taxonomy: transport errors are dropped silently by callers, crypto
//! and protocol errors terminate an exchange with a status report, and
//! Interaction-Model errors are serialised into the response as a status code.

use vstd::prelude::*;

verus! {

/// General library error, returned by transport, secure-channel and
/// data-model operations.
#[derive(Clone, Copy, Debug, PartialEq, Eq, Structural)]
pub enum Error {
    NoSpace,
    Invalid,
    InvalidState,
    InvalidData,
    InvalidOpcode,
    InvalidSignature,
    TruncatedPacket,
    ClusterNotFound,
    EndpointNotFound,
    NoEndpoint,
    NoSession,
    NoExchange,
    NotFound,
}

/// Interaction-Model status codes, serialised into command and attribute
/// responses.
#[derive(Clone, Copy, Debug, PartialEq, Eq, Structural)]
pub enum IMStatusCode {
    Success,
    Failure,
    InvalidSubscription,
    UnsupportedAccess,
    UnsupportedEndpoint,
    UnsupportedCluster,
    UnsupportedAttribute,
    UnsupportedCommand,
    InvalidCommand,
    UnsupportedWrite,
    ResourceExhausted,
    NotFound,
    UnreportableAttribute,
    InvalidDataType,
    UnsupportedRead,
    Busy,
    Timeout,
}

/// Secure-channel status-report kinds carried in a status-report payload.
#[derive(Clone, Copy, Debug, PartialEq, Eq, Structural)]
pub enum SCStatusCodes {
    SessionEstablishmentSuccess,
    NoSharedTrustRoots,
    InvalidParameter,
    CloseSession,
    Busy,
}

impl SCStatusCodes {
    /// The on-wire protocol code of this status-report kind.
    pub fn code(self) -> (r: u16)
        ensures
            r == self.spec_code(),
    {
        match self {
            SCStatusCodes::SessionEstablishmentSuccess => 0,
            SCStatusCodes::NoSharedTrustRoots => 1,
            SCStatusCodes::InvalidParameter => 2,
            SCStatusCodes::CloseSession => 3,
            SCStatusCodes::Busy => 4,
        }
    }

    pub open spec fn spec_code(self) -> u16 {
        match self {
            SCStatusCodes::SessionEstablishmentSuccess => 0,
            SCStatusCodes::NoSharedTrustRoots => 1,
            SCStatusCodes::InvalidParameter => 2,
            SCStatusCodes::CloseSession => 3,
            SCStatusCodes::Busy => 4,
        }
    }
}

} // verus!
