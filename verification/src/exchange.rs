//! Exchanges: short-lived conversations within a session, carrying the
//! pending-acknowledgement slot and, for a handshake, its state.

use vstd::prelude::*;

verus! {

/// Which side opened the exchange.
#[derive(Clone, Copy, Debug, PartialEq, Eq, Structural)]
pub enum ExchangeRole {
    Initiator,
    Responder,
}

/// The owned state a multi-turn handshake parks on its exchange.
pub enum ExchangeData {
    Case(crate::case::CaseSession),
}

/// One exchange: its id and role, the acknowledgement bookkeeping, and the
/// owned handshake-state slot.
pub struct Exchange {
    pub id: u16,
    pub role: ExchangeRole,
    pub ack_pending: Option<u32>,
    pub last_tx_ctr: Option<u32>,
    pub data: Option<ExchangeData>,
    pub closed: bool,
}

impl Exchange {
    pub fn new(id: u16, role: ExchangeRole) -> (r: Exchange)
        ensures
            r.id == id,
            r.role == role,
            r.ack_pending is None,
            r.last_tx_ctr is None,
            r.data is None,
            !r.closed,
    {
        Exchange { id, role, ack_pending: None, last_tx_ctr: None, data: None, closed: false }
    }

    pub fn get_id(&self) -> (r: u16)
        ensures
            r == self.id,
    {
        self.id
    }

    /// Remembers that the peer's message with this counter awaits our
    /// acknowledgement.
    pub fn ack_pending(&mut self, ctr: u32)
        ensures
            *final(self) == (Exchange { ack_pending: Some(ctr), ..*old(self) }),
    {
        self.ack_pending = Some(ctr);
    }

    /// The counter awaiting acknowledgement, if any.
    pub fn is_ack_pending(&self) -> (r: Option<u32>)
        ensures
            r == self.ack_pending,
    {
        self.ack_pending
    }

    pub fn clear_ack_pending(&mut self)
        ensures
            *final(self) == (Exchange { ack_pending: None, ..*old(self) }),
    {
        self.ack_pending = None;
    }

    /// Parks handshake state on this exchange.
    pub fn set_exchange_data(&mut self, data: ExchangeData)
        ensures
            *final(self) == (Exchange { data: Some(data), ..*old(self) }),
    {
        self.data = Some(data);
    }

    /// Takes the parked handshake state, leaving the slot empty.
    pub fn take_exchange_data(&mut self) -> (r: Option<ExchangeData>)
        ensures
            r == old(self).data,
            *final(self) == (Exchange { data: None, ..*old(self) }),
    {
        self.data.take()
    }

    pub fn clear_exchange_data(&mut self)
        ensures
            *final(self) == (Exchange { data: None, ..*old(self) }),
    {
        self.data = None;
    }

    /// Closes the exchange; its data is freed.
    pub fn close(&mut self)
        ensures
            *final(self) == (Exchange { data: None, closed: true, ..*old(self) }),
    {
        self.data = None;
        self.closed = true;
    }
}

} // verus!
