//! Message-reliability hooks. On receive: a reliable message leaves an
//! acknowledgement pending on its exchange, and a piggybacked acknowledgement
//! matching the exchange's retransmit slot clears that slot. On send: a
//! pending acknowledgement is piggybacked, and a message declared reliable is
//! flagged and fills the retransmit slot.

use crate::error::Error;
use crate::exchange::Exchange;
use crate::headers::{PlainHdr, ProtoHdr};
use vstd::prelude::*;

verus! {

/// On receive: a reliable message records its counter as the exchange's
/// pending acknowledgement, and an acknowledgement matching the pending
/// retransmit slot clears the slot; nothing else changes.
pub fn on_msg_recv(e: &mut Exchange, plain_hdr: &PlainHdr, proto_hdr: &ProtoHdr)
    ensures
        *final(e) == (Exchange {
            ack_pending: if proto_hdr.reliable {
                Some(plain_hdr.ctr)
            } else {
                old(e).ack_pending
            },
            last_tx_ctr: if proto_hdr.ack_ctr is Some && proto_hdr.ack_ctr == old(e).last_tx_ctr {
                None
            } else {
                old(e).last_tx_ctr
            },
            ..*old(e)
        }),
{
    if proto_hdr.is_ack() {
        let matched = match (proto_hdr.get_ack_ctr(), e.last_tx_ctr) {
            (Some(a), Some(l)) => a == l,
            _ => false,
        };
        if matched {
            e.last_tx_ctr = None;
        }
    }

    if proto_hdr.is_reliable() {
        e.ack_pending(plain_hdr.ctr);
    }
}

/// On send: a pending acknowledgement is piggybacked onto the outgoing
/// header and cleared; a message declared reliable gets the reliability flag
/// and occupies the retransmit slot with its counter, an unreliable one
/// (a standalone acknowledgement, some status reports) gets neither.
pub fn before_msg_send(
    e: &mut Exchange,
    plain_hdr: &PlainHdr,
    proto_hdr: &mut ProtoHdr,
    reliable: bool,
) -> (r: Result<(), Error>)
    ensures
        r is Ok,
        *final(proto_hdr) == (ProtoHdr {
            reliable,
            ack_ctr: if old(e).ack_pending is Some {
                old(e).ack_pending
            } else {
                old(proto_hdr).ack_ctr
            },
            ..*old(proto_hdr)
        }),
        *final(e) == (Exchange {
            ack_pending: None,
            last_tx_ctr: if reliable {
                Some(plain_hdr.ctr)
            } else {
                old(e).last_tx_ctr
            },
            ..*old(e)
        }),
{
    match e.is_ack_pending() {
        Some(pending_ack) => {
            proto_hdr.set_ack(pending_ack);
            e.clear_ack_pending();
        },
        None => {},
    }
    if reliable {
        proto_hdr.set_reliable();
        e.last_tx_ctr = Some(plain_hdr.ctr);
    } else {
        proto_hdr.reliable = false;
    }
    Ok(())
}

} // verus!
