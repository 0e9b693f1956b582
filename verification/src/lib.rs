//! Core of a Matter (smart-home) node: secure-channel session establishment
//! (PASE and CASE), message-layer framing with reliability and replay
//! protection, and Interaction-Model dispatch over a hierarchical data model.

pub mod crypto;
pub mod case;
pub mod error;
pub mod exchange;
pub mod mrp;
pub mod sc_common;
pub mod fabric;
pub mod failsafe;
pub mod gen_comm;
pub mod im;
pub mod objects;
pub mod headers;
pub mod pake;
pub mod parsebuf;
pub mod session;
pub mod tlv;

use vstd::prelude::*;

verus! {

} // verus!
