//! Password-authenticated session establishment, verifier side: the single
//! in-progress-session guard with its discard timeout, the PBKDF parameter
//! exchange, and the PAKE rounds. The SPAKE2+ arithmetic happens outside;
//! its outputs come in as arguments, and every decision over them is made
//! here, with the session keys derived through HKDF on success.

use crate::crypto::{extend_bytes, hkdf_sha256, hkdf_sha256_of, random_vec};
use crate::error::{Error, SCStatusCodes};
use crate::sc_common::{create_sc_status_report, spec_status_report};
use crate::session::{CloneData, SessionMode};
use crate::tlv::{
    encode, get_root_node_struct, spec_children, spec_decode_node, spec_encode_node,
    spec_find_tag, spec_uint_of,
    TLVElement, TLVValue, TagType, TlvNode, TlvTree,
};
use vstd::prelude::*;

verus! {

/// The PBKDF2 iteration count the verifier offers.
pub const ITERATION_COUNT: u32 = 2000;

/// The default commissioning passcode, until one is provisioned.
pub const SPAKE2_PASSWORD: u32 = 123456;

/// An in-progress PASE session older than this many milliseconds is
/// discarded when a new request arrives.
pub const PASE_DISCARD_TIMEOUT_MS: u64 = 60000;

/// The verifier-side SPAKE2+ bookkeeping this library owns: the session-id
/// pair packed into one word, and the protocol context (the request and
/// response bytes of the parameter exchange).
pub struct Spake2P {
    pub app_data: u32,
    pub context: Vec<u8>,
}

/// One in-progress PASE handshake.
pub struct SessionData {
    pub start_time: u64,
    pub exch_id: u16,
    pub peer_addr: u64,
    pub spake2p: Spake2P,
}

/// Whether an in-progress session has outlived the discard timeout.
pub open spec fn spec_sess_expired(start_time: u64, now: u64) -> bool {
    now > start_time + PASE_DISCARD_TIMEOUT_MS
}

impl SessionData {
    /// Whether this session has outlived the discard timeout at `now`.
    pub fn is_sess_expired(&self, now: u64) -> (r: bool)
        ensures
            r == spec_sess_expired(self.start_time, now),
    {
        if self.start_time <= u64::MAX - PASE_DISCARD_TIMEOUT_MS {
            now > self.start_time + PASE_DISCARD_TIMEOUT_MS
        } else {
            false
        }
    }
}

/// Idle, or holding the single admitted handshake.
pub enum PakeState {
    Idle,
    InProgress(SessionData),
}

/// The PASE verifier: commissioning parameters and the single-session guard.
pub struct PAKE {
    pub salt: Vec<u8>,
    pub passwd: u32,
    pub enabled: bool,
    pub state: PakeState,
}

/// The parameter-exchange fields: initiator random under tag 1, initiator
/// session id under tag 2, passcode id under tag 3, and whether the
/// initiator already knows the PBKDF parameters under tag 4.
pub open spec fn spec_pbkdfreq_parse(b: Seq<u8>) -> Option<(Seq<u8>, u16, u16, bool)> {
    match spec_decode_node(b) {
        Some(p) => {
            if !(p.0.value is Struct) {
                None
            } else {
                match spec_children(p.0.value) {
                    Some(cs) => {
                        let rnd = match spec_find_tag(cs, 1) {
                            Some(n) => match n.value {
                                TlvTree::Str8(s) => Some(s),
                                TlvTree::Str16(s) => Some(s),
                                _ => None,
                            },
                            None => None,
                        };
                        let sid = match spec_find_tag(cs, 2) {
                            Some(n) => match spec_uint_of(n.value) {
                                Some(v) => if v <= 0xffff {
                                    Some(v as u16)
                                } else {
                                    None
                                },
                                None => None,
                            },
                            None => None,
                        };
                        let pc = match spec_find_tag(cs, 3) {
                            Some(n) => match spec_uint_of(n.value) {
                                Some(v) => if v <= 0xffff {
                                    Some(v as u16)
                                } else {
                                    None
                                },
                                None => None,
                            },
                            None => None,
                        };
                        let hp = match spec_find_tag(cs, 4) {
                            Some(n) => match n.value {
                                TlvTree::Bool(x) => Some(x),
                                _ => None,
                            },
                            None => None,
                        };
                        match (rnd, sid, pc, hp) {
                            (Some(r), Some(s), Some(p2), Some(h)) => Some((r, s, p2, h)),
                            _ => None,
                        }
                    },
                    None => None,
                }
            }
        },
        None => None,
    }
}

/// The first byte-string element of a PAKE message (tag 1): the initiator's
/// key share in PAKE1, its confirmation in PAKE3.
pub open spec fn spec_pake_param_parse(b: Seq<u8>) -> Option<Seq<u8>> {
    match spec_decode_node(b) {
        Some(p) => {
            if !(p.0.value is Struct) {
                None
            } else {
                match spec_children(p.0.value) {
                    Some(cs) => match spec_find_tag(cs, 1) {
                        Some(n) => match n.value {
                            TlvTree::Str8(s) => Some(s),
                            TlvTree::Str16(s) => Some(s),
                            _ => None,
                        },
                        None => None,
                    },
                    None => None,
                }
            }
        },
        None => None,
    }
}

/// Extracts the single key-share or confirmation parameter of a PAKE1 or
/// PAKE3 message.
pub fn extract_pasepake_1_or_3_params(buf: &[u8]) -> (r: Result<Vec<u8>, Error>)
    ensures
        match r {
            Ok(v) => spec_pake_param_parse(buf@) == Some(v@),
            Err(e) => spec_pake_param_parse(buf@) is None && e == Error::InvalidData,
        },
{
    let root = match get_root_node_struct(buf) {
        Ok(e) => e,
        Err(_) => {
            return Err(Error::InvalidData);
        },
    };
    match root.find_tag(1) {
        Ok(e) => {
            match e.get_slice() {
                Ok(s) => Ok(vstd::slice::slice_to_vec(s)),
                Err(_) => Err(Error::InvalidData),
            }
        },
        Err(_) => Err(Error::InvalidData),
    }
}

/// Extracts the parameter-exchange fields.
pub fn extract_pbkdfreq_params(buf: &[u8]) -> (r: Result<(Vec<u8>, u16, u16, bool), Error>)
    ensures
        match r {
            Ok((rnd, sid, pc, hp)) => spec_pbkdfreq_parse(buf@) == Some((rnd@, sid, pc, hp)),
            Err(e) => spec_pbkdfreq_parse(buf@) is None && e == Error::InvalidData,
        },
{
    let root = match get_root_node_struct(buf) {
        Ok(e) => e,
        Err(_) => {
            return Err(Error::InvalidData);
        },
    };
    let rnd = match root.find_tag(1) {
        Ok(e) => {
            match e.get_slice() {
                Ok(s) => vstd::slice::slice_to_vec(s),
                Err(_) => {
                    return Err(Error::InvalidData);
                },
            }
        },
        Err(_) => {
            return Err(Error::InvalidData);
        },
    };
    let sid = match root.find_tag(2) {
        Ok(e) => {
            match e.get_uint() {
                Ok(v) => {
                    if v <= 0xffff {
                        v as u16
                    } else {
                        return Err(Error::InvalidData);
                    }
                },
                Err(_) => {
                    return Err(Error::InvalidData);
                },
            }
        },
        Err(_) => {
            return Err(Error::InvalidData);
        },
    };
    let pc = match root.find_tag(3) {
        Ok(e) => {
            match e.get_uint() {
                Ok(v) => {
                    if v <= 0xffff {
                        v as u16
                    } else {
                        return Err(Error::InvalidData);
                    }
                },
                Err(_) => {
                    return Err(Error::InvalidData);
                },
            }
        },
        Err(_) => {
            return Err(Error::InvalidData);
        },
    };
    let hp = match root.find_tag(4) {
        Ok(e) => {
            match e.get_bool() {
                Ok(v) => v,
                Err(_) => {
                    return Err(Error::InvalidData);
                },
            }
        },
        Err(_) => {
            return Err(Error::InvalidData);
        },
    };
    Ok((rnd, sid, pc, hp))
}

/// The parameter-exchange response: the initiator's random back, the
/// responder random, the responder session id, and, when the initiator does
/// not know them, the PBKDF parameters.
pub open spec fn spec_pbkdf_resp_tree(
    initiator_random: Seq<u8>,
    our_random: Seq<u8>,
    local_sessid: u16,
    has_params: bool,
    salt: Seq<u8>,
) -> TlvNode {
    let head = seq![
        TlvNode { tag: TagType::Context(1), value: TlvTree::Str8(initiator_random) },
        TlvNode { tag: TagType::Context(2), value: TlvTree::Str8(our_random) },
        TlvNode { tag: TagType::Context(3), value: TlvTree::U16(local_sessid) },
    ];
    let params = seq![
        TlvNode {
            tag: TagType::Context(4),
            value: TlvTree::Struct(
                seq![
                    TlvNode { tag: TagType::Context(1), value: TlvTree::U32(ITERATION_COUNT) },
                    TlvNode { tag: TagType::Context(2), value: TlvTree::Str8(salt) },
                ],
            ),
        },
    ];
    TlvNode {
        tag: TagType::Anonymous,
        value: TlvTree::Struct(
            if has_params {
                head
            } else {
                head + params
            },
        ),
    }
}

/// The PAKE2 response: the verifier's key share and confirmation.
pub open spec fn spec_pake2_resp_tree(p_b: Seq<u8>, c_b: Seq<u8>) -> TlvNode {
    TlvNode {
        tag: TagType::Anonymous,
        value: TlvTree::Struct(
            seq![
                TlvNode { tag: TagType::Context(1), value: TlvTree::Str8(p_b) },
                TlvNode { tag: TagType::Context(2), value: TlvTree::Str8(c_b) },
            ],
        ),
    }
}

/// What the parameter-exchange handler decides: refuse with a status
/// report, or answer and admit the handshake.
pub enum PbkdfAction {
    Status(Vec<u8>),
    Response(Vec<u8>),
}

/// What PAKE3 decides: the status report to send, and the session to
/// install exactly when the confirmation verified.
pub struct Pake3Outcome {
    pub report: Vec<u8>,
    pub clone_data: Option<CloneData>,
}

/// A validated PBKDF parameter request.
pub struct PBKDFParamReq {
    pub initiator_random: Vec<u8>,
    pub initiator_sessid: u16,
    pub passcode_id: u16,
    pub has_params: bool,
}

impl PBKDFParamReq {
    /// Accepts the fields exactly when the initiator random is 32 bytes.
    pub fn new(
        initiator_random_ref: &[u8],
        initiator_sessid: u16,
        passcode_id: u16,
        has_params: bool,
    ) -> (r: Option<PBKDFParamReq>)
        ensures
            match r {
                Some(q) => {
                    &&& initiator_random_ref@.len() == 32
                    &&& q.initiator_random@ == initiator_random_ref@
                    &&& q.initiator_sessid == initiator_sessid
                    &&& q.passcode_id == passcode_id
                    &&& q.has_params == has_params
                },
                None => initiator_random_ref@.len() != 32,
            },
    {
        if initiator_random_ref.len() != 32 {
            None
        } else {
            Some(
                PBKDFParamReq {
                    initiator_random: vstd::slice::slice_to_vec(initiator_random_ref),
                    initiator_sessid,
                    passcode_id,
                    has_params,
                },
            )
        }
    }
}

impl PakeState {
    /// Whether no handshake is admitted.
    pub fn is_idle(&self) -> (r: bool)
        ensures
            r == (*self is Idle),
    {
        match self {
            PakeState::Idle => true,
            PakeState::InProgress(_) => false,
        }
    }

    /// Takes the admitted handshake, leaving the guard idle.
    pub fn take(&mut self) -> (r: Result<SessionData, Error>)
        ensures
            *final(self) is Idle,
            match r {
                Ok(sd) => (*old(self)) matches PakeState::InProgress(s) && s == sd,
                Err(e) => *old(self) is Idle && e == Error::InvalidSignature,
            },
    {
        let mut tmp = PakeState::Idle;
        core::mem::swap(&mut tmp, self);
        match tmp {
            PakeState::InProgress(sd) => Ok(sd),
            PakeState::Idle => Err(Error::InvalidSignature),
        }
    }

    /// Takes the admitted handshake when it belongs to this exchange and
    /// peer; anything else leaves the guard idle and fails. Succeeds exactly
    /// when the admitted handshake matches.
    pub fn take_sess_data(&mut self, exch_id: u16, peer_addr: u64) -> (r: Result<
        SessionData,
        Error,
    >)
        ensures
            *final(self) is Idle,
            match r {
                Ok(sd) => (*old(self)) matches PakeState::InProgress(s) && s == sd && sd.exch_id
                    == exch_id && sd.peer_addr == peer_addr,
                Err(e) => {
                    &&& (e == Error::InvalidSignature || e == Error::InvalidState)
                    &&& (e == Error::InvalidSignature <==> *old(self) is Idle)
                    &&& (e == Error::InvalidState <==> ((*old(self))
                        matches PakeState::InProgress(s) && !(s.exch_id == exch_id && s.peer_addr
                        == peer_addr)))
                },
            },
    {
        let sd = match self.take() {
            Ok(sd) => sd,
            Err(e) => {
                return Err(e);
            },
        };
        if sd.exch_id != exch_id || sd.peer_addr != peer_addr {
            Err(Error::InvalidState)
        } else {
            Ok(sd)
        }
    }

    /// Admits a handshake.
    pub fn make_in_progress(&mut self, spake2p: Spake2P, exch_id: u16, peer_addr: u64, now: u64)
        ensures
            (*final(self)) matches PakeState::InProgress(sd) && sd.start_time == now && sd.exch_id
                == exch_id && sd.peer_addr == peer_addr && sd.spake2p == spake2p,
    {
        *self = PakeState::InProgress(SessionData { start_time: now, exch_id, peer_addr, spake2p });
    }

    /// Puts a taken handshake back.
    pub fn set_sess_data(&mut self, sd: SessionData)
        ensures
            (*final(self)) matches PakeState::InProgress(s) && s == sd,
    {
        *self = PakeState::InProgress(sd);
    }
}

impl PAKE {
    /// A verifier with the default passcode and a fresh random salt, with
    /// the commissioning window closed.
    pub fn new() -> (r: PAKE)
        ensures
            r.salt@.len() == 16,
            r.passwd == SPAKE2_PASSWORD,
            !r.enabled,
            r.state is Idle,
    {
        let salt = random_vec(16);
        PAKE { salt, passwd: SPAKE2_PASSWORD, enabled: false, state: PakeState::Idle }
    }

    /// Handles a PBKDF parameter request: refused while the window is
    /// closed; answered busy (with a little-endian retry hint) while another
    /// handshake younger than the discard timeout is in progress; otherwise
    /// the request is admitted, the response built, and the exchange's
    /// context snapshot taken.
    #[verifier::rlimit(60)]
    #[verifier::spinoff_prover]
    pub fn handle_pbkdfparamrequest(
        &mut self,
        exch_id: u16,
        peer_addr: u64,
        rx_buf: &[u8],
        local_sessid: u16,
        now: u64,
    ) -> (r: Result<PbkdfAction, Error>)
        requires
            old(self).salt@.len() <= 255,
        ensures
            final(self).salt == old(self).salt,
            final(self).passwd == old(self).passwd,
            final(self).enabled == old(self).enabled,
            match r {
                Ok(act) => match act {
                    PbkdfAction::Status(rep) => {
                        if !old(self).enabled {
                            &&& rep@ == spec_status_report(
                                SCStatusCodes::InvalidParameter,
                                Seq::<u8>::empty(),
                            )
                            &&& *final(self) == *old(self)
                        } else {
                            &&& (*old(self)).state matches PakeState::InProgress(sd)
                                && !spec_sess_expired(sd.start_time, now)
                            &&& rep@ == spec_status_report(SCStatusCodes::Busy, seq![0xf4u8, 0x01u8])
                            &&& *final(self) == *old(self)
                        }
                    },
                    PbkdfAction::Response(resp) => {
                        let parsed = spec_pbkdfreq_parse(rx_buf@)->Some_0;
                        let sd2 = (*final(self)).state->InProgress_0;
                        &&& old(self).enabled
                        &&& ((*old(self)).state is Idle || spec_sess_expired(
                            (*old(self)).state->InProgress_0.start_time,
                            now,
                        ))
                        &&& spec_pbkdfreq_parse(rx_buf@) is Some
                        &&& parsed.2 == 0
                        &&& parsed.0.len() == 32
                        &&& (exists|r32: Seq<u8>|
                            r32.len() == 32 && resp@ == spec_encode_node(
                                #[trigger] spec_pbkdf_resp_tree(
                                    parsed.0,
                                    r32,
                                    local_sessid,
                                    parsed.3,
                                    old(self).salt@,
                                ),
                            ))
                        &&& (*final(self)).state is InProgress
                        &&& sd2.start_time == now
                        &&& sd2.exch_id == exch_id
                        &&& sd2.peer_addr == peer_addr
                        &&& sd2.spake2p.app_data == (local_sessid as u32) * 0x10000 + (
                        parsed.1 as u32)
                        &&& sd2.spake2p.context@ == rx_buf@ + resp@
                    },
                },
                Err(e) => {
                    &&& old(self).enabled
                    &&& (e == Error::InvalidData || e == Error::Invalid)
                    &&& (e == Error::InvalidData ==> spec_pbkdfreq_parse(rx_buf@) is None)
                    &&& (e == Error::Invalid ==> (spec_pbkdfreq_parse(rx_buf@) matches Some(
                        (rnd, _sid, pc, _hp),
                    ) && (pc != 0 || rnd.len() != 32)))
                    &&& (*final(self)).state is Idle
                },
            },
    {
        if !self.enabled {
            return Ok(
                PbkdfAction::Status(create_sc_status_report(SCStatusCodes::InvalidParameter, None)),
            );
        }
        let discard: bool = match &self.state {
            PakeState::InProgress(sd) => {
                if sd.is_sess_expired(now) {
                    true
                } else {
                    let hint: [u8; 2] = [0xf4, 0x01];
                    let rep = create_sc_status_report(SCStatusCodes::Busy, Some(hint.as_slice()));
                    proof {
                        assert(hint@ =~= seq![0xf4u8, 0x01u8]);
                    }
                    return Ok(PbkdfAction::Status(rep));
                }
            },
            PakeState::Idle => false,
        };
        if discard {
            self.state = PakeState::Idle;
        }
        let (rnd, sid, pc, hp) = match extract_pbkdfreq_params(rx_buf) {
            Ok(t) => t,
            Err(e) => {
                return Err(e);
            },
        };
        if pc != 0 {
            return Err(Error::Invalid);
        }
        let req = match PBKDFParamReq::new(rnd.as_slice(), sid, pc, hp) {
            Some(q) => q,
            None => {
                return Err(Error::Invalid);
            },
        };
        let our_random = random_vec(32);
        let mut fields: Vec<TLVElement> = Vec::new();
        fields.push(TLVElement { tag: TagType::Context(1), value: TLVValue::Str8(rnd) });
        fields.push(
            TLVElement {
                tag: TagType::Context(2),
                value: TLVValue::Str8(crate::crypto::copy_bytes(&our_random)),
            },
        );
        fields.push(TLVElement { tag: TagType::Context(3), value: TLVValue::U16(local_sessid) });
        if !hp {
            let mut params: Vec<TLVElement> = Vec::new();
            params.push(
                TLVElement { tag: TagType::Context(1), value: TLVValue::U32(ITERATION_COUNT) },
            );
            params.push(
                TLVElement {
                    tag: TagType::Context(2),
                    value: TLVValue::Str8(crate::crypto::copy_bytes(&self.salt)),
                },
            );
            let ghost pseq = params@;
            fields.push(TLVElement { tag: TagType::Context(4), value: TLVValue::Struct(params) });
            proof {
                crate::tlv::lemma_elems_view(pseq);
                assert(crate::tlv::elems_view(pseq) =~= spec_pbkdf_resp_tree(
                    rnd@,
                    our_random@,
                    local_sessid,
                    hp,
                    self.salt@,
                ).value->Struct_0[3].value->Struct_0);
            }
        }
        let elem = TLVElement { tag: TagType::Anonymous, value: TLVValue::Struct(fields) };
        proof {
            let tree = spec_pbkdf_resp_tree(rnd@, our_random@, local_sessid, hp, self.salt@);
            crate::tlv::lemma_elems_view(fields@);
            assert(crate::tlv::elems_view(fields@) =~= tree.value->Struct_0);
            crate::tlv::lemma_wf_nodes(crate::tlv::elems_view(fields@));
            if !hp {
                crate::tlv::lemma_wf_nodes(tree.value->Struct_0[3].value->Struct_0);
            }
            assert forall|k: int|
                0 <= k < tree.value->Struct_0.len() implies crate::tlv::wf_tree(
                #[trigger] tree.value->Struct_0[k].value,
            ) by {
                if k == 3 && !hp {
                    assert(crate::tlv::wf_nodes(tree.value->Struct_0[3].value->Struct_0));
                }
            }
            assert(crate::tlv::wf_tree(elem@.value));
        }
        let resp = encode(&elem);
        let mut context: Vec<u8> = Vec::new();
        extend_bytes(&mut context, rx_buf);
        extend_bytes(&mut context, resp.as_slice());
        proof {
            assert(context@ =~= rx_buf@ + resp@);
        }
        let app_data: u32 = (local_sessid as u32) * 0x10000 + (sid as u32);
        self.state.make_in_progress(Spake2P { app_data, context }, exch_id, peer_addr, now);
        proof {
            let parsed = spec_pbkdfreq_parse(rx_buf@)->Some_0;
            assert(parsed.0 == rnd@ && parsed.3 == hp);
            assert(old(self).salt@ == self.salt@);
            assert(resp@ == spec_encode_node(
                spec_pbkdf_resp_tree(parsed.0, our_random@, local_sessid, parsed.3, old(self).salt@),
            ));
            assert(exists|r32: Seq<u8>|
                r32.len() == 32 && resp@ =~= spec_encode_node(
                    #[trigger] spec_pbkdf_resp_tree(
                        parsed.0,
                        r32,
                        local_sessid,
                        parsed.3,
                        old(self).salt@,
                    ),
                ));
        }
        Ok(PbkdfAction::Response(resp))
    }

    /// Handles PAKE1: the admitted handshake must belong to this exchange
    /// and peer; the verifier's key share and confirmation, computed outside
    /// from the passcode, iteration count, salt and context, are sent back.
    pub fn handle_pasepake1(
        &mut self,
        exch_id: u16,
        peer_addr: u64,
        rx_buf: &[u8],
        p_b: &[u8],
        c_b: &[u8],
    ) -> (r: Result<Vec<u8>, Error>)
        requires
            p_b@.len() <= 255,
            c_b@.len() <= 255,
        ensures
            final(self).salt == old(self).salt,
            final(self).passwd == old(self).passwd,
            final(self).enabled == old(self).enabled,
            match r {
                Ok(resp) => {
                    &&& (*old(self)).state matches PakeState::InProgress(sd) && sd.exch_id
                        == exch_id && sd.peer_addr == peer_addr
                    &&& spec_pake_param_parse(rx_buf@) is Some
                    &&& resp@ == spec_encode_node(spec_pake2_resp_tree(p_b@, c_b@))
                    &&& final(self).state == old(self).state
                },
                Err(e) => {
                    &&& (e == Error::InvalidSignature || e == Error::InvalidState || e
                        == Error::InvalidData)
                    &&& (*final(self)).state is Idle
                    &&& (e == Error::InvalidSignature <==> (*old(self)).state is Idle)
                    &&& (e == Error::InvalidState <==> ((*old(self)).state
                        matches PakeState::InProgress(sd) && !(sd.exch_id == exch_id
                        && sd.peer_addr == peer_addr)))
                    &&& (e == Error::InvalidData <==> ((*old(self)).state
                        matches PakeState::InProgress(sd) && sd.exch_id == exch_id && sd.peer_addr
                        == peer_addr && spec_pake_param_parse(rx_buf@) is None))
                },
            },
    {
        let sd = match self.state.take_sess_data(exch_id, peer_addr) {
            Ok(sd) => sd,
            Err(e) => {
                return Err(e);
            },
        };
        let _pa = match extract_pasepake_1_or_3_params(rx_buf) {
            Ok(v) => v,
            Err(e) => {
                return Err(e);
            },
        };
        let mut fields: Vec<TLVElement> = Vec::new();
        fields.push(
            TLVElement {
                tag: TagType::Context(1),
                value: TLVValue::Str8(vstd::slice::slice_to_vec(p_b)),
            },
        );
        fields.push(
            TLVElement {
                tag: TagType::Context(2),
                value: TLVValue::Str8(vstd::slice::slice_to_vec(c_b)),
            },
        );
        let elem = TLVElement { tag: TagType::Anonymous, value: TLVValue::Struct(fields) };
        proof {
            crate::tlv::lemma_elems_view(fields@);
            assert(crate::tlv::elems_view(fields@) =~= spec_pake2_resp_tree(
                p_b@,
                c_b@,
            ).value->Struct_0);
            crate::tlv::lemma_wf_nodes(crate::tlv::elems_view(fields@));
        }
        let resp = encode(&elem);
        self.state.set_sess_data(sd);
        Ok(resp)
    }

    /// Handles PAKE3: the admitted handshake must belong to this exchange
    /// and peer. The confirmation was checked outside; exactly when it
    /// verified, the session keys are derived from the shared secret and
    /// handed out. Either way the window closes and the guard goes idle.
    pub fn handle_pasepake3(
        &mut self,
        exch_id: u16,
        peer_addr: u64,
        rx_buf: &[u8],
        verified_ok: bool,
        ke: &[u8],
    ) -> (r: Result<Pake3Outcome, Error>)
        ensures
            final(self).salt == old(self).salt,
            final(self).passwd == old(self).passwd,
            match r {
                Ok(out) => {
                    &&& (*old(self)).state matches PakeState::InProgress(sd) && sd.exch_id
                        == exch_id && sd.peer_addr == peer_addr
                    &&& spec_pake_param_parse(rx_buf@) is Some
                    &&& (*final(self)).state is Idle
                    &&& !final(self).enabled
                    &&& ((out.clone_data is Some) <==> verified_ok)
                    &&& if verified_ok {
                        let keys = hkdf_sha256_of(
                            Seq::<u8>::empty(),
                            ke@,
                            crate::case::spec_sessionkeys_info(),
                            48,
                        );
                        let sd = (*old(self)).state->InProgress_0;
                        &&& out.report@ == spec_status_report(
                            SCStatusCodes::SessionEstablishmentSuccess,
                            Seq::<u8>::empty(),
                        )
                        &&& out.clone_data matches Some(cd)
                        &&& cd.mode == SessionMode::Pase
                        &&& cd.peer_sess_id == (sd.spake2p.app_data % 0x10000) as u16
                        &&& cd.local_sess_id == ((sd.spake2p.app_data / 0x10000) % 0x10000) as u16
                        &&& cd.dec_key@ == keys.subrange(0, 16)
                        &&& cd.enc_key@ == keys.subrange(16, 32)
                        &&& cd.att_challenge@ == keys.subrange(32, 48)
                    } else {
                        &&& out.report@ == spec_status_report(
                            SCStatusCodes::InvalidParameter,
                            Seq::<u8>::empty(),
                        )
                        &&& out.clone_data is None
                    }
                },
                Err(e) => {
                    &&& (e == Error::InvalidSignature || e == Error::InvalidState || e
                        == Error::InvalidData)
                    &&& (*final(self)).state is Idle
                    &&& (e == Error::InvalidSignature <==> (*old(self)).state is Idle)
                    &&& (e == Error::InvalidState <==> ((*old(self)).state
                        matches PakeState::InProgress(sd) && !(sd.exch_id == exch_id
                        && sd.peer_addr == peer_addr)))
                    &&& (e == Error::InvalidData <==> ((*old(self)).state
                        matches PakeState::InProgress(sd) && sd.exch_id == exch_id && sd.peer_addr
                        == peer_addr && spec_pake_param_parse(rx_buf@) is None))
                    &&& final(self).enabled == old(self).enabled
                },
            },
    {
        let sd = match self.state.take_sess_data(exch_id, peer_addr) {
            Ok(sd) => sd,
            Err(e) => {
                return Err(e);
            },
        };
        let _ca = match extract_pasepake_1_or_3_params(rx_buf) {
            Ok(v) => v,
            Err(e) => {
                return Err(e);
            },
        };
        let outcome: Pake3Outcome;
        if verified_ok {
            let info = crate::case::sessionkeys_info();
            let mut keys: Vec<u8> = Vec::new();
            let mut i: usize = 0;
            while i < 48
                invariant
                    i <= 48,
                    keys@.len() == i,
                decreases 48 - i,
            {
                keys.push(0);
                i = i + 1;
            }
            let empty_salt: [u8; 0] = [];
            proof {
                assert(empty_salt@ =~= Seq::<u8>::empty());
            }
            hkdf_sha256(empty_salt.as_slice(), ke, info.as_slice(), &mut keys);
            let peer_sessid: u16 = (sd.spake2p.app_data % 0x10000) as u16;
            let local_sessid: u16 = ((sd.spake2p.app_data / 0x10000) % 0x10000) as u16;
            let mut cd = CloneData::new(peer_sessid, local_sessid, SessionMode::Pase);
            cd.dec_key = crate::case::copy_range(&keys, 0, 16);
            cd.enc_key = crate::case::copy_range(&keys, 16, 32);
            cd.att_challenge = crate::case::copy_range(&keys, 32, 48);
            outcome = Pake3Outcome {
                report: create_sc_status_report(SCStatusCodes::SessionEstablishmentSuccess, None),
                clone_data: Some(cd),
            };
        } else {
            outcome = Pake3Outcome {
                report: create_sc_status_report(SCStatusCodes::InvalidParameter, None),
                clone_data: None,
            };
        }
        self.disable();
        Ok(outcome)
    }

    /// Opens the commissioning window.
    pub fn enable(&mut self)
        ensures
            *final(self) == (PAKE { enabled: true, ..*old(self) }),
    {
        self.enabled = true;
    }

    /// Closes the commissioning window.
    pub fn disable(&mut self)
        ensures
            *final(self) == (PAKE { enabled: false, ..*old(self) }),
    {
        self.enabled = false;
    }
}

} // verus!
