//! Secure-channel status reports: a little-endian general code, the
//! secure-channel protocol id, the protocol code, and optional data.

use crate::error::SCStatusCodes;
use vstd::bytes::{spec_u16_to_le_bytes, spec_u32_to_le_bytes};
use vstd::prelude::*;

verus! {

/// The secure-channel protocol id.
pub const PROTO_ID_SECURE_CHANNEL: u16 = 0x00;

/// The secure-channel status-report opcode.
pub const OPCODE_STATUS_REPORT: u8 = 0x40;

/// The general code of a status report: success for the kinds that report
/// success, failure otherwise.
pub open spec fn spec_general_code(status: SCStatusCodes) -> u16 {
    match status {
        SCStatusCodes::SessionEstablishmentSuccess => 0,
        SCStatusCodes::CloseSession => 0,
        _ => 1,
    }
}

/// The payload of a status report.
pub open spec fn spec_status_report(status: SCStatusCodes, proto_data: Seq<u8>) -> Seq<u8> {
    spec_u16_to_le_bytes(spec_general_code(status)) + spec_u32_to_le_bytes(0)
        + spec_u16_to_le_bytes(status.spec_code()) + proto_data
}

/// Builds a status-report payload for this status and optional extra data.
pub fn create_sc_status_report(status: SCStatusCodes, proto_data: Option<&[u8]>) -> (r: Vec<u8>)
    ensures
        r@ == spec_status_report(
            status,
            match proto_data {
                Some(d) => d@,
                None => Seq::empty(),
            },
        ),
{
    let general: u16 = match status {
        SCStatusCodes::SessionEstablishmentSuccess => 0,
        SCStatusCodes::CloseSession => 0,
        _ => 1,
    };
    let mut out: Vec<u8> = Vec::new();
    let g = vstd::bytes::u16_to_le_bytes(general);
    crate::crypto::extend_bytes(&mut out, g.as_slice());
    let p = vstd::bytes::u32_to_le_bytes(0);
    crate::crypto::extend_bytes(&mut out, p.as_slice());
    let c = vstd::bytes::u16_to_le_bytes(status.code());
    crate::crypto::extend_bytes(&mut out, c.as_slice());
    match proto_data {
        Some(d) => {
            crate::crypto::extend_bytes(&mut out, d);
        },
        None => {},
    }
    proof {
        match proto_data {
            Some(d) => {
                assert(out@ =~= spec_status_report(status, d@));
            },
            None => {
                assert(out@ =~= spec_status_report(status, Seq::<u8>::empty()));
            },
        }
    }
    out
}

} // verus!
