//! Message framing: the plain header (always readable, the associated data
//! for AEAD) and the protected header (inside the encrypted payload), with
//! their parsers and serialisers proved inverse to each other, and the AEAD
//! nonce construction.

use crate::error::Error;
use crate::parsebuf::ParseBuf;
use vstd::bytes::{
    spec_u16_from_le_bytes, spec_u16_to_le_bytes, spec_u32_from_le_bytes, spec_u32_to_le_bytes,
    spec_u64_from_le_bytes, spec_u64_to_le_bytes,
};
use vstd::prelude::*;

verus! {

/// The plain message header: session id, security flags, message counter and
/// the optional source and destination node ids. The flags byte is derived
/// from which node ids are present.
#[derive(Clone, Copy, Debug, PartialEq, Eq)]
pub struct PlainHdr {
    pub sess_id: u16,
    pub sec_flags: u8,
    pub ctr: u32,
    pub src_nodeid: Option<u64>,
    pub dst_nodeid: Option<u64>,
}

/// The flags byte of a plain header: bit 2 marks a source node id, the
/// destination-size bits hold 1 when a destination node id follows.
pub open spec fn spec_plain_flags(h: PlainHdr) -> u8 {
    ((if h.src_nodeid is Some {
        4u8
    } else {
        0u8
    }) + (if h.dst_nodeid is Some {
        1u8
    } else {
        0u8
    })) as u8
}

pub open spec fn spec_opt_u64_bytes(v: Option<u64>) -> Seq<u8> {
    match v {
        Some(x) => spec_u64_to_le_bytes(x),
        None => Seq::empty(),
    }
}

/// The wire form of a plain header.
pub open spec fn spec_serialize_plain_hdr(h: PlainHdr) -> Seq<u8> {
    seq![spec_plain_flags(h)] + spec_u16_to_le_bytes(h.sess_id) + seq![h.sec_flags]
        + spec_u32_to_le_bytes(h.ctr) + spec_opt_u64_bytes(h.src_nodeid) + spec_opt_u64_bytes(
        h.dst_nodeid,
    )
}

/// Parses a plain header from the head of `b`; returns it and the rest.
pub open spec fn spec_parse_plain_hdr(b: Seq<u8>) -> Option<(PlainHdr, Seq<u8>)> {
    if b.len() < 8 {
        None
    } else {
        let flags = b[0];
        let sess_id = spec_u16_from_le_bytes(b.subrange(1, 3));
        let sec_flags = b[3];
        let ctr = spec_u32_from_le_bytes(b.subrange(4, 8));
        let has_src = (flags / 4) % 2 == 1;
        let has_dst = flags % 2 == 1;
        let src_len: int = if has_src {
            8
        } else {
            0
        };
        let dst_len: int = if has_dst {
            8
        } else {
            0
        };
        if b.len() < 8 + src_len + dst_len {
            None
        } else {
            let src_nodeid = if has_src {
                Some(spec_u64_from_le_bytes(b.subrange(8, 16)))
            } else {
                None
            };
            let dst_nodeid = if has_dst {
                Some(spec_u64_from_le_bytes(b.subrange(8 + src_len, 8 + src_len + 8)))
            } else {
                None
            };
            Some(
                (
                    PlainHdr { sess_id, sec_flags, ctr, src_nodeid, dst_nodeid },
                    b.skip(8 + src_len + dst_len),
                ),
            )
        }
    }
}

impl PlainHdr {
    /// Appends this header's wire form to `out`.
    pub fn serialize(&self, out: &mut Vec<u8>)
        ensures
            final(out)@ == old(out)@ + spec_serialize_plain_hdr(*self),
    {
        let flags: u8 = (if self.src_nodeid.is_some() {
            4u8
        } else {
            0u8
        }) + (if self.dst_nodeid.is_some() {
            1u8
        } else {
            0u8
        });
        out.push(flags);
        let b2 = vstd::bytes::u16_to_le_bytes(self.sess_id);
        crate::crypto::extend_bytes(out, b2.as_slice());
        out.push(self.sec_flags);
        let b4 = vstd::bytes::u32_to_le_bytes(self.ctr);
        crate::crypto::extend_bytes(out, b4.as_slice());
        match &self.src_nodeid {
            Some(x) => {
                let b8 = vstd::bytes::u64_to_le_bytes(*x);
                crate::crypto::extend_bytes(out, b8.as_slice());
            },
            None => {},
        }
        match &self.dst_nodeid {
            Some(x) => {
                let b8 = vstd::bytes::u64_to_le_bytes(*x);
                crate::crypto::extend_bytes(out, b8.as_slice());
            },
            None => {},
        }
        proof {
            assert(out@ =~= old(out)@ + spec_serialize_plain_hdr(*self));
        }
    }

    /// Parses a plain header off the head of `pb`.
    pub fn parse(pb: &mut ParseBuf<'_>) -> (r: Result<PlainHdr, Error>)
        requires
            old(pb).wf(),
        ensures
            final(pb).wf(),
            match r {
                Ok(h) => {
                    &&& spec_parse_plain_hdr(old(pb).data()) == Some((h, final(pb).data()))
                },
                Err(e) => {
                    &&& spec_parse_plain_hdr(old(pb).data()) is None
                    &&& e == Error::TruncatedPacket
                    &&& final(pb).data() == old(pb).data()
                },
            },
    {
        let ghost b = old(pb).data();
        if pb.as_slice().len() < 8 {
            return Err(Error::TruncatedPacket);
        }
        let mut pb2 = ParseBuf::new(pb.as_slice(), pb.as_slice().len());
        proof {
            assert(pb2.data() =~= b);
        }
        let flags = match pb2.le_u8() {
            Ok(v) => v,
            Err(_) => {
                return Err(Error::TruncatedPacket);
            },
        };
        proof {
            assert(b.take(1)[0] == b[0]);
            assert(pb2.data() =~= b.skip(1));
            assert(b.skip(1).take(2) =~= b.subrange(1, 3));
        }
        let sess_id = match pb2.le_u16() {
            Ok(v) => v,
            Err(_) => {
                return Err(Error::TruncatedPacket);
            },
        };
        proof {
            assert(pb2.data() =~= b.skip(3));
            assert(b.skip(3).take(1)[0] == b[3]);
        }
        let sec_flags = match pb2.le_u8() {
            Ok(v) => v,
            Err(_) => {
                return Err(Error::TruncatedPacket);
            },
        };
        proof {
            assert(pb2.data() =~= b.skip(4));
            assert(b.skip(4).take(4) =~= b.subrange(4, 8));
        }
        let ctr = match pb2.le_u32() {
            Ok(v) => v,
            Err(_) => {
                return Err(Error::TruncatedPacket);
            },
        };
        proof {
            assert(pb2.data() =~= b.skip(8));
        }
        let has_src = (flags / 4) % 2 == 1;
        let has_dst = flags % 2 == 1;
        let src_nodeid = if has_src {
            match Self::parse_u64(&mut pb2) {
                Ok(v) => {
                    proof {
                        assert(b.skip(8).take(8) =~= b.subrange(8, 16));
                    }
                    Some(v)
                },
                Err(_) => {
                    return Err(Error::TruncatedPacket);
                },
            }
        } else {
            None
        };
        let ghost src_len: int = if has_src {
            8
        } else {
            0
        };
        proof {
            assert(pb2.data() =~= b.skip(8 + src_len));
        }
        let dst_nodeid = if has_dst {
            match Self::parse_u64(&mut pb2) {
                Ok(v) => {
                    proof {
                        assert(b.skip(8 + src_len).take(8) =~= b.subrange(
                            8 + src_len,
                            8 + src_len + 8,
                        ));
                    }
                    Some(v)
                },
                Err(_) => {
                    return Err(Error::TruncatedPacket);
                },
            }
        } else {
            None
        };
        let ghost dst_len: int = if has_dst {
            8
        } else {
            0
        };
        let consumed: usize = 8 + (if has_src {
            8usize
        } else {
            0usize
        }) + (if has_dst {
            8usize
        } else {
            0usize
        });
        pb.advance(consumed);
        proof {
            assert(pb.data() =~= b.skip(8 + src_len + dst_len));
        }
        Ok(PlainHdr { sess_id, sec_flags, ctr, src_nodeid, dst_nodeid })
    }

    /// Consumes a little-endian `u64` from the head of `pb`.
    fn parse_u64(pb: &mut ParseBuf<'_>) -> (r: Result<u64, Error>)
        requires
            old(pb).wf(),
        ensures
            final(pb).wf(),
            final(pb).total() == old(pb).total(),
            if old(pb).data().len() >= 8 {
                &&& r matches Ok(v) && v == spec_u64_from_le_bytes(old(pb).data().take(8))
                &&& final(pb).data() == old(pb).data().skip(8)
            } else {
                r matches Err(e) && e == Error::TruncatedPacket
            },
    {
        let s = pb.as_slice();
        if s.len() < 8 {
            return Err(Error::TruncatedPacket);
        }
        let sub = vstd::slice::slice_subrange(s, 0, 8);
        proof {
            assert(sub@ =~= old(pb).data().take(8));
        }
        let v = vstd::bytes::u64_from_le_bytes(sub);
        pb.advance(8);
        Ok(v)
    }
}

/// The protected message header, carried inside the encrypted payload:
/// exchange id, protocol id and opcode, the initiator and reliability flags,
/// an optional vendor id and an optional piggybacked acknowledgement.
#[derive(Clone, Copy, Debug, PartialEq, Eq)]
pub struct ProtoHdr {
    pub opcode: u8,
    pub exch_id: u16,
    pub proto_id: u16,
    pub initiator: bool,
    pub reliable: bool,
    pub vendor_id: Option<u16>,
    pub ack_ctr: Option<u32>,
}

/// The exchange-flags byte: initiator, acknowledgement, reliability and
/// vendor-id-present bits.
pub open spec fn spec_proto_flags(h: ProtoHdr) -> u8 {
    ((if h.initiator {
        1u8
    } else {
        0u8
    }) + (if h.ack_ctr is Some {
        2u8
    } else {
        0u8
    }) + (if h.reliable {
        4u8
    } else {
        0u8
    }) + (if h.vendor_id is Some {
        16u8
    } else {
        0u8
    })) as u8
}

/// The wire form of a protected header.
pub open spec fn spec_serialize_proto_hdr(h: ProtoHdr) -> Seq<u8> {
    seq![spec_proto_flags(h), h.opcode] + spec_u16_to_le_bytes(h.exch_id) + spec_u16_to_le_bytes(
        h.proto_id,
    ) + (match h.vendor_id {
        Some(v) => spec_u16_to_le_bytes(v),
        None => Seq::empty(),
    }) + (match h.ack_ctr {
        Some(a) => spec_u32_to_le_bytes(a),
        None => Seq::empty(),
    })
}

/// Parses a protected header from the head of `b`; returns it and the rest.
pub open spec fn spec_parse_proto_hdr(b: Seq<u8>) -> Option<(ProtoHdr, Seq<u8>)> {
    if b.len() < 6 {
        None
    } else {
        let flags = b[0];
        let opcode = b[1];
        let exch_id = spec_u16_from_le_bytes(b.subrange(2, 4));
        let proto_id = spec_u16_from_le_bytes(b.subrange(4, 6));
        let initiator = flags % 2 == 1;
        let has_ack = (flags / 2) % 2 == 1;
        let reliable = (flags / 4) % 2 == 1;
        let has_vendor = (flags / 16) % 2 == 1;
        let vlen: int = if has_vendor {
            2
        } else {
            0
        };
        let alen: int = if has_ack {
            4
        } else {
            0
        };
        if b.len() < 6 + vlen + alen {
            None
        } else {
            let vendor_id = if has_vendor {
                Some(spec_u16_from_le_bytes(b.subrange(6, 8)))
            } else {
                None
            };
            let ack_ctr = if has_ack {
                Some(spec_u32_from_le_bytes(b.subrange(6 + vlen, 6 + vlen + 4)))
            } else {
                None
            };
            Some(
                (
                    ProtoHdr { opcode, exch_id, proto_id, initiator, reliable, vendor_id, ack_ctr },
                    b.skip(6 + vlen + alen),
                ),
            )
        }
    }
}

impl ProtoHdr {
    /// Whether this header piggybacks an acknowledgement.
    pub fn is_ack(&self) -> (r: bool)
        ensures
            r == (self.ack_ctr is Some),
    {
        self.ack_ctr.is_some()
    }

    /// The acknowledged counter, when one is piggybacked.
    pub fn get_ack_ctr(&self) -> (r: Option<u32>)
        ensures
            r == self.ack_ctr,
    {
        self.ack_ctr
    }

    /// Piggybacks an acknowledgement of `ctr`.
    pub fn set_ack(&mut self, ctr: u32)
        ensures
            *final(self) == (ProtoHdr { ack_ctr: Some(ctr), ..*old(self) }),
    {
        self.ack_ctr = Some(ctr);
    }

    /// Whether the sender asked for this message to be acknowledged.
    pub fn is_reliable(&self) -> (r: bool)
        ensures
            r == self.reliable,
    {
        self.reliable
    }

    /// Marks this message as needing acknowledgement.
    pub fn set_reliable(&mut self)
        ensures
            *final(self) == (ProtoHdr { reliable: true, ..*old(self) }),
    {
        self.reliable = true;
    }

    /// Appends this header's wire form to `out`.
    pub fn serialize(&self, out: &mut Vec<u8>)
        ensures
            final(out)@ == old(out)@ + spec_serialize_proto_hdr(*self),
    {
        let flags: u8 = (if self.initiator {
            1u8
        } else {
            0u8
        }) + (if self.ack_ctr.is_some() {
            2u8
        } else {
            0u8
        }) + (if self.reliable {
            4u8
        } else {
            0u8
        }) + (if self.vendor_id.is_some() {
            16u8
        } else {
            0u8
        });
        out.push(flags);
        out.push(self.opcode);
        let b2 = vstd::bytes::u16_to_le_bytes(self.exch_id);
        crate::crypto::extend_bytes(out, b2.as_slice());
        let b3 = vstd::bytes::u16_to_le_bytes(self.proto_id);
        crate::crypto::extend_bytes(out, b3.as_slice());
        match &self.vendor_id {
            Some(v) => {
                let bv = vstd::bytes::u16_to_le_bytes(*v);
                crate::crypto::extend_bytes(out, bv.as_slice());
            },
            None => {},
        }
        match &self.ack_ctr {
            Some(a) => {
                let ba = vstd::bytes::u32_to_le_bytes(*a);
                crate::crypto::extend_bytes(out, ba.as_slice());
            },
            None => {},
        }
        proof {
            assert(out@ =~= old(out)@ + spec_serialize_proto_hdr(*self));
        }
    }

    /// Parses a protected header off the head of `pb`.
    pub fn parse(pb: &mut ParseBuf<'_>) -> (r: Result<ProtoHdr, Error>)
        requires
            old(pb).wf(),
        ensures
            final(pb).wf(),
            match r {
                Ok(h) => {
                    &&& spec_parse_proto_hdr(old(pb).data()) == Some((h, final(pb).data()))
                },
                Err(e) => {
                    &&& spec_parse_proto_hdr(old(pb).data()) is None
                    &&& e == Error::TruncatedPacket
                    &&& final(pb).data() == old(pb).data()
                },
            },
    {
        let ghost b = old(pb).data();
        if pb.as_slice().len() < 6 {
            return Err(Error::TruncatedPacket);
        }
        let mut pb2 = ParseBuf::new(pb.as_slice(), pb.as_slice().len());
        proof {
            assert(pb2.data() =~= b);
        }
        let flags = match pb2.le_u8() {
            Ok(v) => v,
            Err(_) => {
                return Err(Error::TruncatedPacket);
            },
        };
        proof {
            assert(b.take(1)[0] == b[0]);
            assert(pb2.data() =~= b.skip(1));
            assert(b.skip(1).take(1)[0] == b[1]);
        }
        let opcode = match pb2.le_u8() {
            Ok(v) => v,
            Err(_) => {
                return Err(Error::TruncatedPacket);
            },
        };
        proof {
            assert(pb2.data() =~= b.skip(2));
            assert(b.skip(2).take(2) =~= b.subrange(2, 4));
        }
        let exch_id = match pb2.le_u16() {
            Ok(v) => v,
            Err(_) => {
                return Err(Error::TruncatedPacket);
            },
        };
        proof {
            assert(pb2.data() =~= b.skip(4));
            assert(b.skip(4).take(2) =~= b.subrange(4, 6));
        }
        let proto_id = match pb2.le_u16() {
            Ok(v) => v,
            Err(_) => {
                return Err(Error::TruncatedPacket);
            },
        };
        proof {
            assert(pb2.data() =~= b.skip(6));
        }
        let initiator = flags % 2 == 1;
        let has_ack = (flags / 2) % 2 == 1;
        let reliable = (flags / 4) % 2 == 1;
        let has_vendor = (flags / 16) % 2 == 1;
        let vendor_id = if has_vendor {
            match pb2.le_u16() {
                Ok(v) => {
                    proof {
                        assert(b.skip(6).take(2) =~= b.subrange(6, 8));
                    }
                    Some(v)
                },
                Err(_) => {
                    return Err(Error::TruncatedPacket);
                },
            }
        } else {
            None
        };
        let ghost vlen: int = if has_vendor {
            2
        } else {
            0
        };
        proof {
            assert(pb2.data() =~= b.skip(6 + vlen));
        }
        let ack_ctr = if has_ack {
            match pb2.le_u32() {
                Ok(v) => {
                    proof {
                        assert(b.skip(6 + vlen).take(4) =~= b.subrange(6 + vlen, 6 + vlen + 4));
                    }
                    Some(v)
                },
                Err(_) => {
                    return Err(Error::TruncatedPacket);
                },
            }
        } else {
            None
        };
        let ghost alen: int = if has_ack {
            4
        } else {
            0
        };
        let consumed: usize = 6 + (if has_vendor {
            2usize
        } else {
            0usize
        }) + (if has_ack {
            4usize
        } else {
            0usize
        });
        pb.advance(consumed);
        proof {
            assert(pb.data() =~= b.skip(6 + vlen + alen));
        }
        Ok(ProtoHdr { opcode, exch_id, proto_id, initiator, reliable, vendor_id, ack_ctr })
    }
}

/// The 13-byte AEAD nonce: security flags, counter, then the source node id
/// (zeros when absent).
pub open spec fn spec_msg_nonce(h: PlainHdr) -> Seq<u8> {
    seq![h.sec_flags] + spec_u32_to_le_bytes(h.ctr) + spec_u64_to_le_bytes(
        match h.src_nodeid {
            Some(x) => x,
            None => 0,
        },
    )
}

/// Builds the AEAD nonce for a message with this plain header.
pub fn msg_nonce(h: &PlainHdr) -> (r: Vec<u8>)
    ensures
        r@ == spec_msg_nonce(*h),
        r@.len() == 13,
{
    let mut out: Vec<u8> = Vec::new();
    out.push(h.sec_flags);
    let b4 = vstd::bytes::u32_to_le_bytes(h.ctr);
    crate::crypto::extend_bytes(&mut out, b4.as_slice());
    let src: u64 = match &h.src_nodeid {
        Some(x) => *x,
        None => 0,
    };
    let b8 = vstd::bytes::u64_to_le_bytes(src);
    crate::crypto::extend_bytes(&mut out, b8.as_slice());
    proof {
        vstd::bytes::lemma_auto_spec_u32_to_from_le_bytes();
        vstd::bytes::lemma_auto_spec_u64_to_from_le_bytes();
        assert(out@ =~= spec_msg_nonce(*h));
    }
    out
}

/// Parsing a serialised plain header yields the header back, with the
/// suffix untouched.
pub proof fn lemma_plain_hdr_round_trip(h: PlainHdr, rest: Seq<u8>)
    ensures
        spec_parse_plain_hdr(spec_serialize_plain_hdr(h) + rest) == Some((h, rest)),
{
    vstd::bytes::lemma_auto_spec_u16_to_from_le_bytes();
    vstd::bytes::lemma_auto_spec_u32_to_from_le_bytes();
    vstd::bytes::lemma_auto_spec_u64_to_from_le_bytes();
    let b = spec_serialize_plain_hdr(h) + rest;
    let src_len: int = if h.src_nodeid is Some {
        8
    } else {
        0
    };
    let dst_len: int = if h.dst_nodeid is Some {
        8
    } else {
        0
    };
    assert(b[0] == spec_plain_flags(h));
    assert(b.subrange(1, 3) =~= spec_u16_to_le_bytes(h.sess_id));
    assert(b[3] == h.sec_flags);
    assert(b.subrange(4, 8) =~= spec_u32_to_le_bytes(h.ctr));
    match h.src_nodeid {
        Some(x) => {
            assert(b.subrange(8, 16) =~= spec_u64_to_le_bytes(x));
        },
        None => {},
    }
    match h.dst_nodeid {
        Some(x) => {
            assert(b.subrange(8 + src_len, 8 + src_len + 8) =~= spec_u64_to_le_bytes(x));
        },
        None => {},
    }
    assert(b.skip(8 + src_len + dst_len) =~= rest);
}

/// Parsing a serialised protected header yields the header back, with the
/// suffix untouched.
pub proof fn lemma_proto_hdr_round_trip(h: ProtoHdr, rest: Seq<u8>)
    ensures
        spec_parse_proto_hdr(spec_serialize_proto_hdr(h) + rest) == Some((h, rest)),
{
    vstd::bytes::lemma_auto_spec_u16_to_from_le_bytes();
    vstd::bytes::lemma_auto_spec_u32_to_from_le_bytes();
    let b = spec_serialize_proto_hdr(h) + rest;
    let vlen: int = if h.vendor_id is Some {
        2
    } else {
        0
    };
    let alen: int = if h.ack_ctr is Some {
        4
    } else {
        0
    };
    assert(b[0] == spec_proto_flags(h));
    assert(b[1] == h.opcode);
    assert(b.subrange(2, 4) =~= spec_u16_to_le_bytes(h.exch_id));
    assert(b.subrange(4, 6) =~= spec_u16_to_le_bytes(h.proto_id));
    match h.vendor_id {
        Some(v) => {
            assert(b.subrange(6, 8) =~= spec_u16_to_le_bytes(v));
        },
        None => {},
    }
    match h.ack_ctr {
        Some(a) => {
            assert(b.subrange(6 + vlen, 6 + vlen + 4) =~= spec_u32_to_le_bytes(a));
        },
        None => {},
    }
    assert(b.skip(6 + vlen + alen) =~= rest);
}

} // verus!
