//! Certificate-authenticated session establishment, responder side:
//! destination-id matching over the fabric table, the running transcript,
//! the Sigma2 message and its to-be-signed and to-be-encrypted bodies, and
//! the Sigma3 validations and final key derivation. Elliptic-curve and AEAD
//! operations happen outside; their results come in as arguments, and every
//! decision over them is made here.

use crate::crypto::{extend_bytes, hkdf_sha256, hkdf_sha256_of, sha256, sha256_of};
use crate::error::{Error, SCStatusCodes};
use crate::fabric::{Cert, Fabric, FabricMgr};
use crate::session::{CloneData, SessionMode};
use crate::tlv::{
    encode, spec_children, spec_decode_node, spec_encode_node, spec_find_tag, spec_uint_of,
    TLVElement, TLVValue, TagType, TlvNode, TlvTree,
};
use vstd::prelude::*;

verus! {

/// Where the handshake stands.
#[derive(Clone, Copy, Debug, PartialEq, Eq, Structural)]
pub enum CaseState {
    Sigma1Rx,
    Sigma3Rx,
}

/// The responder's handshake state, parked on the exchange between Sigma1
/// and Sigma3: ids, the running transcript, and the ECDH material.
pub struct CaseSession {
    pub state: CaseState,
    pub peer_sessid: u16,
    pub local_sessid: u16,
    pub tt: Vec<u8>,
    pub shared_secret: Vec<u8>,
    pub our_pub_key: Vec<u8>,
    pub peer_pub_key: Vec<u8>,
    pub local_fabric_idx: usize,
}

impl CaseSession {
    pub open spec fn wf(&self) -> bool {
        &&& self.shared_secret@.len() == 32
        &&& self.our_pub_key@.len() == 65
        &&& self.peer_pub_key@.len() == 65
    }

    /// A fresh session awaiting Sigma1 processing, with an empty transcript.
    pub fn new(peer_sessid: u16, local_sessid: u16) -> (r: Result<CaseSession, Error>)
        ensures
            r matches Ok(s) && s.wf() && s.state == CaseState::Sigma1Rx && s.peer_sessid
                == peer_sessid && s.local_sessid == local_sessid && s.tt@ == Seq::<u8>::empty()
                && s.local_fabric_idx == 0,
    {
        let mut shared_secret: Vec<u8> = Vec::new();
        let mut our_pub_key: Vec<u8> = Vec::new();
        let mut peer_pub_key: Vec<u8> = Vec::new();
        let mut i: usize = 0;
        while i < 65
            invariant
                i <= 65,
                our_pub_key@.len() == i,
                peer_pub_key@.len() == i,
                shared_secret@.len() == (if i < 32 {
                    i as int
                } else {
                    32int
                }),
            decreases 65 - i,
        {
            if i < 32 {
                shared_secret.push(0);
            }
            our_pub_key.push(0);
            peer_pub_key.push(0);
            i = i + 1;
        }
        Ok(
            CaseSession {
                state: CaseState::Sigma1Rx,
                peer_sessid,
                local_sessid,
                tt: Vec::new(),
                shared_secret,
                our_pub_key,
                peer_pub_key,
                local_fabric_idx: 0,
            },
        )
    }
}

/// The HKDF info string "SessionKeys".
pub open spec fn spec_sessionkeys_info() -> Seq<u8> {
    seq![0x53u8, 0x65u8, 0x73u8, 0x73u8, 0x69u8, 0x6fu8, 0x6eu8, 0x4bu8, 0x65u8, 0x79u8, 0x73u8]
}

/// The HKDF info string "Sigma2".
pub open spec fn spec_sigma2_info() -> Seq<u8> {
    seq![0x53u8, 0x69u8, 0x67u8, 0x6du8, 0x61u8, 0x32u8]
}

/// The HKDF info string "Sigma3".
pub open spec fn spec_sigma3_info() -> Seq<u8> {
    seq![0x53u8, 0x69u8, 0x67u8, 0x6du8, 0x61u8, 0x33u8]
}

/// Builds the "SessionKeys" info bytes.
pub(crate) fn sessionkeys_info() -> (r: Vec<u8>)
    ensures
        r@ == spec_sessionkeys_info(),
{
    let mut v: Vec<u8> = Vec::new();
    v.push(0x53);
    v.push(0x65);
    v.push(0x73);
    v.push(0x73);
    v.push(0x69);
    v.push(0x6f);
    v.push(0x6e);
    v.push(0x4b);
    v.push(0x65);
    v.push(0x79);
    v.push(0x73);
    proof {
        assert(v@ =~= spec_sessionkeys_info());
    }
    v
}

/// The 48 bytes of session key material CASE derives: HKDF over the shared
/// secret, salted with the identity protection key and the transcript hash.
pub open spec fn spec_case_session_keys(ipk: Seq<u8>, tt: Seq<u8>, shared: Seq<u8>) -> Seq<u8> {
    hkdf_sha256_of(ipk + sha256_of(tt), shared, spec_sessionkeys_info(), 48)
}

/// The Sigma2 encryption key: HKDF salted with the identity protection key,
/// the responder random, the responder public key and the transcript hash.
pub open spec fn spec_sigma2_key(
    ipk: Seq<u8>,
    our_random: Seq<u8>,
    our_pub: Seq<u8>,
    tt: Seq<u8>,
    shared: Seq<u8>,
) -> Seq<u8> {
    hkdf_sha256_of(ipk + our_random + our_pub + sha256_of(tt), shared, spec_sigma2_info(), 16)
}

/// The Sigma3 decryption key: HKDF salted with the identity protection key
/// and the transcript hash.
pub open spec fn spec_sigma3_key(ipk: Seq<u8>, tt: Seq<u8>, shared: Seq<u8>) -> Seq<u8> {
    hkdf_sha256_of(ipk + sha256_of(tt), shared, spec_sigma3_info(), 16)
}

/// Whether the initiator's certificates belong to the fabric: the
/// intermediate certificate names no other fabric (0 standing for none) and
/// the operational certificate names this one.
pub open spec fn spec_certs_valid(fabric: Fabric, noc: Cert, icac: Cert) -> bool {
    &&& (icac.fabric_id == 0 || icac.fabric_id == fabric.fabric_id)
    &&& noc.fabric_id == fabric.fabric_id
}

/// A copy of `v[start..end]`.
pub fn copy_range(v: &Vec<u8>, start: usize, end: usize) -> (r: Vec<u8>)
    requires
        start <= end <= v@.len(),
    ensures
        r@ == v@.subrange(start as int, end as int),
{
    vstd::slice::slice_to_vec(vstd::slice::slice_subrange(v.as_slice(), start, end))
}

/// A byte-string field of a decoded struct.
pub open spec fn spec_slice_field(cs: Seq<TlvNode>, tag: u8) -> Option<Seq<u8>> {
    match spec_find_tag(cs, tag) {
        Some(n) => match n.value {
            TlvTree::Str8(s) => Some(s),
            TlvTree::Str16(s) => Some(s),
            _ => None,
        },
        None => None,
    }
}

/// An unsigned field of a decoded struct, within a bound.
pub open spec fn spec_uint_field(cs: Seq<TlvNode>, tag: u8, bound: u64) -> Option<u64> {
    match spec_find_tag(cs, tag) {
        Some(n) => match spec_uint_of(n.value) {
            Some(v) => if v <= bound {
                Some(v)
            } else {
                None
            },
            None => None,
        },
        None => None,
    }
}

/// The fields of a Sigma1 message: initiator random under tag 1, the
/// initiator's session id under tag 2, the destination id under tag 3 and
/// the initiator's ephemeral public key under tag 4.
pub open spec fn spec_sigma1_parse(b: Seq<u8>) -> Option<(Seq<u8>, u16, Seq<u8>, Seq<u8>)> {
    match spec_decode_node(b) {
        Some(p) => match spec_children(p.0.value) {
            Some(cs) => {
                if !(p.0.value is Struct) {
                    None
                } else {
                    match (
                        spec_slice_field(cs, 1),
                        spec_uint_field(cs, 2, 0xffff),
                        spec_slice_field(cs, 3),
                        spec_slice_field(cs, 4),
                    ) {
                        (Some(rnd), Some(sid), Some(dst), Some(pk)) => Some(
                            (rnd, sid as u16, dst, pk),
                        ),
                        _ => None,
                    }
                }
            },
            None => None,
        },
        None => None,
    }
}

/// The fields of a decrypted Sigma3 body: the initiator's operational
/// certificate under tag 1, its intermediate certificate under tag 2, and
/// the signature under tag 3.
pub open spec fn spec_sigma3_parse(b: Seq<u8>) -> Option<(Seq<u8>, Seq<u8>, Seq<u8>)> {
    match spec_decode_node(b) {
        Some(p) => match spec_children(p.0.value) {
            Some(cs) => {
                if !(p.0.value is Struct) {
                    None
                } else {
                    match (spec_slice_field(cs, 1), spec_slice_field(cs, 2), spec_slice_field(
                        cs,
                        3,
                    )) {
                        (Some(noc), Some(icac), Some(sig)) => Some((noc, icac, sig)),
                        _ => None,
                    }
                }
            },
            None => None,
        },
        None => None,
    }
}

/// Reads a byte-string field.
fn get_slice_field(root: &TLVElement, tag: u8) -> (r: Option<Vec<u8>>)
    requires
        spec_children(root@.value) is Some,
    ensures
        match r {
            Some(v) => spec_slice_field(spec_children(root@.value)->Some_0, tag) == Some(v@),
            None => spec_slice_field(spec_children(root@.value)->Some_0, tag) is None,
        },
{
    match root.find_tag(tag) {
        Ok(e) => {
            match e.get_slice() {
                Ok(s) => Some(vstd::slice::slice_to_vec(s)),
                Err(_) => None,
            }
        },
        Err(_) => None,
    }
}

/// Reads an unsigned field within a bound.
fn get_uint_field(root: &TLVElement, tag: u8, bound: u64) -> (r: Option<u64>)
    requires
        spec_children(root@.value) is Some,
    ensures
        r == spec_uint_field(spec_children(root@.value)->Some_0, tag, bound),
{
    match root.find_tag(tag) {
        Ok(e) => {
            match e.get_uint() {
                Ok(v) => {
                    if v <= bound {
                        Some(v)
                    } else {
                        None
                    }
                },
                Err(_) => None,
            }
        },
        Err(_) => None,
    }
}

/// A four-field TLV struct of byte strings under context tags 1 to 4.
pub open spec fn spec_bstr4_tree(a: Seq<u8>, b: Seq<u8>, c: Seq<u8>, d: Seq<u8>) -> TlvNode {
    TlvNode {
        tag: TagType::Anonymous,
        value: TlvTree::Struct(
            seq![
                TlvNode { tag: TagType::Context(1), value: TlvTree::Str8(a) },
                TlvNode { tag: TagType::Context(2), value: TlvTree::Str8(b) },
                TlvNode { tag: TagType::Context(3), value: TlvTree::Str8(c) },
                TlvNode { tag: TagType::Context(4), value: TlvTree::Str8(d) },
            ],
        ),
    }
}

/// Encodes a four-field byte-string struct.
fn encode_bstr4(a: &[u8], b: &[u8], c: &[u8], d: &[u8]) -> (r: Result<Vec<u8>, Error>)
    ensures
        match r {
            Ok(v) => {
                &&& a@.len() <= 255 && b@.len() <= 255 && c@.len() <= 255 && d@.len() <= 255
                &&& v@ == spec_encode_node(spec_bstr4_tree(a@, b@, c@, d@))
            },
            Err(e) => {
                &&& (a@.len() > 255 || b@.len() > 255 || c@.len() > 255 || d@.len() > 255)
                &&& e == Error::NoSpace
            },
        },
{
    if a.len() > 255 || b.len() > 255 || c.len() > 255 || d.len() > 255 {
        return Err(Error::NoSpace);
    }
    let mut fields: Vec<TLVElement> = Vec::new();
    fields.push(
        TLVElement { tag: TagType::Context(1), value: TLVValue::Str8(vstd::slice::slice_to_vec(a)) },
    );
    fields.push(
        TLVElement { tag: TagType::Context(2), value: TLVValue::Str8(vstd::slice::slice_to_vec(b)) },
    );
    fields.push(
        TLVElement { tag: TagType::Context(3), value: TLVValue::Str8(vstd::slice::slice_to_vec(c)) },
    );
    fields.push(
        TLVElement { tag: TagType::Context(4), value: TLVValue::Str8(vstd::slice::slice_to_vec(d)) },
    );
    let elem = TLVElement { tag: TagType::Anonymous, value: TLVValue::Struct(fields) };
    proof {
        crate::tlv::lemma_elems_view(fields@);
        assert(crate::tlv::elems_view(fields@) =~= spec_bstr4_tree(
            a@,
            b@,
            c@,
            d@,
        ).value->Struct_0);
        crate::tlv::lemma_wf_nodes(crate::tlv::elems_view(fields@));
    }
    Ok(encode(&elem))
}

/// The Sigma2 message: responder random, responder session id, responder
/// ephemeral public key, and the encrypted body.
pub open spec fn spec_sigma2_msg_tree(
    rand: Seq<u8>,
    sessid: u16,
    our_pub: Seq<u8>,
    enc: Seq<u8>,
) -> TlvNode {
    TlvNode {
        tag: TagType::Anonymous,
        value: TlvTree::Struct(
            seq![
                TlvNode { tag: TagType::Context(1), value: TlvTree::Str8(rand) },
                TlvNode { tag: TagType::Context(2), value: TlvTree::U16(sessid) },
                TlvNode { tag: TagType::Context(3), value: TlvTree::Str8(our_pub) },
                TlvNode { tag: TagType::Context(4), value: TlvTree::Str16(enc) },
            ],
        ),
    }
}

/// What handling Sigma1 decides: refuse with a status report, or proceed
/// with the handshake state to park on the exchange.
pub enum CaseSigma1Action {
    Status(SCStatusCodes),
    Session(CaseSession),
}

/// What handling Sigma3 decides: the status to report, and the session to
/// install exactly when establishment succeeded.
pub struct CaseSigma3Outcome {
    pub status: SCStatusCodes,
    pub clone_data: Option<CloneData>,
}

/// The CASE responder.
pub struct Case {
    pub dummy_ipk: Vec<u8>,
}

impl Case {
    /// A responder with the all-zero identity protection key used until
    /// operational IPKs are provisioned.
    pub fn new() -> (r: Case)
        ensures
            r.dummy_ipk@ == Seq::new(16, |i: int| 0u8),
            r.dummy_ipk@.len() == 16,
    {
        let mut dummy_ipk: Vec<u8> = Vec::new();
        let mut i: usize = 0;
        while i < 16
            invariant
                i <= 16,
                dummy_ipk@.len() == i,
                forall|j: int| 0 <= j < i ==> dummy_ipk@[j] == 0u8,
            decreases 16 - i,
        {
            dummy_ipk.push(0);
            i = i + 1;
        }
        proof {
            assert(dummy_ipk@ =~= Seq::new(16, |i: int| 0u8));
        }
        Case { dummy_ipk }
    }

    /// Handles Sigma1: parses it, matches the destination id against the
    /// fabric table, and on a match builds the handshake state around the
    /// supplied ephemeral public key and ECDH shared secret, with the Sigma1
    /// bytes opening the transcript. No key is installed here.
    pub fn handle_casesigma1(
        &self,
        fabric_mgr: &FabricMgr,
        rx_buf: &[u8],
        local_sessid: u16,
        our_pub_key: &[u8],
        shared_secret: &[u8],
    ) -> (r: Result<CaseSigma1Action, Error>)
        requires
            fabric_mgr.wf(),
        ensures
            match r {
                Ok(act) => match act {
                    CaseSigma1Action::Status(st) => {
                        &&& st == SCStatusCodes::NoSharedTrustRoots
                        &&& spec_sigma1_parse(rx_buf@) matches Some((rnd, _, dst, pk))
                        &&& forall|j: int|
                            0 < j < fabric_mgr.fabrics@.len()
                                ==> match #[trigger] fabric_mgr.fabrics@[j] {
                                Some(f) => f.spec_dest_id(rnd) != dst,
                                None => true,
                            }
                    },
                    CaseSigma1Action::Session(s) => {
                        &&& spec_sigma1_parse(rx_buf@) matches Some((rnd, sid, dst, pk))
                        &&& s.wf()
                        &&& s.state == CaseState::Sigma1Rx
                        &&& s.peer_sessid == sid
                        &&& s.local_sessid == local_sessid
                        &&& s.tt@ == rx_buf@
                        &&& s.shared_secret@ == shared_secret@
                        &&& s.our_pub_key@ == our_pub_key@
                        &&& s.peer_pub_key@ == pk
                        &&& 0 < s.local_fabric_idx < fabric_mgr.fabrics@.len()
                        &&& fabric_mgr.fabrics@[s.local_fabric_idx as int] matches Some(f)
                            && f.spec_dest_id(rnd) == dst
                    },
                },
                Err(e) => {
                    &&& (e == Error::InvalidData || e == Error::Invalid)
                    &&& (e == Error::InvalidData ==> spec_sigma1_parse(rx_buf@) is None)
                    &&& (e == Error::Invalid ==> (spec_sigma1_parse(rx_buf@) matches Some(
                        (_rnd, _sid, _dst, pk),
                    ) ==> (pk.len() != 65 || our_pub_key@.len() != 65 || shared_secret@.len()
                        != 32)))
                },
            },
    {
        let root = match crate::tlv::get_root_node_struct(rx_buf) {
            Ok(e) => e,
            Err(_) => {
                return Err(Error::InvalidData);
            },
        };
        let initiator_random = match get_slice_field(&root, 1) {
            Some(v) => v,
            None => {
                return Err(Error::InvalidData);
            },
        };
        let initiator_sessid = match get_uint_field(&root, 2, 0xffff) {
            Some(v) => v,
            None => {
                return Err(Error::InvalidData);
            },
        };
        let dest_id = match get_slice_field(&root, 3) {
            Some(v) => v,
            None => {
                return Err(Error::InvalidData);
            },
        };
        let peer_pub_key = match get_slice_field(&root, 4) {
            Some(v) => v,
            None => {
                return Err(Error::InvalidData);
            },
        };
        if peer_pub_key.len() != 65 || our_pub_key.len() != 65 || shared_secret.len() != 32 {
            return Err(Error::Invalid);
        }
        let local_fabric_idx = match fabric_mgr.match_dest_id(
            initiator_random.as_slice(),
            dest_id.as_slice(),
        ) {
            Ok(i) => i,
            Err(_) => {
                return Ok(CaseSigma1Action::Status(SCStatusCodes::NoSharedTrustRoots));
            },
        };
        let mut session = match CaseSession::new(initiator_sessid as u16, local_sessid) {
            Ok(s) => s,
            Err(e) => {
                return Err(e);
            },
        };
        extend_bytes(&mut session.tt, rx_buf);
        session.local_fabric_idx = local_fabric_idx;
        session.peer_pub_key = peer_pub_key;
        session.our_pub_key = vstd::slice::slice_to_vec(our_pub_key);
        session.shared_secret = vstd::slice::slice_to_vec(shared_secret);
        Ok(CaseSigma1Action::Session(session))
    }

    /// Derives the Sigma2 encryption key for this handshake state and the
    /// responder random.
    pub fn get_sigma2_key(&self, ipk: &[u8], our_random: &[u8], session: &CaseSession) -> (r: Vec<
        u8,
    >)
        requires
            ipk@.len() + our_random@.len() + session.our_pub_key@.len() + 32 <= usize::MAX,
        ensures
            r@ == spec_sigma2_key(
                ipk@,
                our_random@,
                session.our_pub_key@,
                session.tt@,
                session.shared_secret@,
            ),
            r@.len() == 16,
    {
        let mut salt: Vec<u8> = Vec::new();
        extend_bytes(&mut salt, ipk);
        extend_bytes(&mut salt, our_random);
        extend_bytes(&mut salt, session.our_pub_key.as_slice());
        let tt_hash = sha256(session.tt.as_slice());
        extend_bytes(&mut salt, tt_hash.as_slice());
        let mut info: Vec<u8> = Vec::new();
        info.push(0x53);
        info.push(0x69);
        info.push(0x67);
        info.push(0x6d);
        info.push(0x61);
        info.push(0x32);
        proof {
            assert(info@ =~= spec_sigma2_info());
        }
        let mut key: Vec<u8> = Vec::new();
        let mut i: usize = 0;
        while i < 16
            invariant
                i <= 16,
                key@.len() == i,
            decreases 16 - i,
        {
            key.push(0);
            i = i + 1;
        }
        hkdf_sha256(salt.as_slice(), session.shared_secret.as_slice(), info.as_slice(), &mut key);
        key
    }

    /// Derives the Sigma3 decryption key for this handshake state.
    pub fn get_sigma3_key(&self, ipk: &[u8], session: &CaseSession) -> (r: Vec<u8>)
        requires
            ipk@.len() + 32 <= usize::MAX,
        ensures
            r@ == spec_sigma3_key(ipk@, session.tt@, session.shared_secret@),
            r@.len() == 16,
    {
        let mut salt: Vec<u8> = Vec::new();
        extend_bytes(&mut salt, ipk);
        let tt_hash = sha256(session.tt.as_slice());
        extend_bytes(&mut salt, tt_hash.as_slice());
        let mut info: Vec<u8> = Vec::new();
        info.push(0x53);
        info.push(0x69);
        info.push(0x67);
        info.push(0x6d);
        info.push(0x61);
        info.push(0x33);
        proof {
            assert(info@ =~= spec_sigma3_info());
        }
        let mut key: Vec<u8> = Vec::new();
        let mut i: usize = 0;
        while i < 16
            invariant
                i <= 16,
                key@.len() == i,
            decreases 16 - i,
        {
            key.push(0);
            i = i + 1;
        }
        hkdf_sha256(salt.as_slice(), session.shared_secret.as_slice(), info.as_slice(), &mut key);
        key
    }

    /// The Sigma2 to-be-signed body: the responder's certificates and the
    /// two ephemeral public keys; its signature is computed outside with the
    /// fabric's operational key.
    pub fn get_sigma2_sign_tbs(
        &self,
        noc: &[u8],
        icac: &[u8],
        our_pub: &[u8],
        peer_pub: &[u8],
    ) -> (r: Result<Vec<u8>, Error>)
        ensures
            match r {
                Ok(v) => {
                    &&& noc@.len() <= 255 && icac@.len() <= 255 && our_pub@.len() <= 255
                        && peer_pub@.len() <= 255
                    &&& v@ == spec_encode_node(spec_bstr4_tree(noc@, icac@, our_pub@, peer_pub@))
                },
                Err(e) => {
                    &&& (noc@.len() > 255 || icac@.len() > 255 || our_pub@.len() > 255
                        || peer_pub@.len() > 255)
                    &&& e == Error::NoSpace
                },
            },
    {
        encode_bstr4(noc, icac, our_pub, peer_pub)
    }

    /// The Sigma3 to-be-signed body: the initiator's certificates, then the
    /// initiator's and the responder's ephemeral public keys; its signature
    /// is checked outside with the initiator certificate's public key.
    pub fn get_sigma3_sign_tbs(
        &self,
        noc: &[u8],
        icac: &[u8],
        peer_pub: &[u8],
        our_pub: &[u8],
    ) -> (r: Result<Vec<u8>, Error>)
        ensures
            match r {
                Ok(v) => {
                    &&& noc@.len() <= 255 && icac@.len() <= 255 && peer_pub@.len() <= 255
                        && our_pub@.len() <= 255
                    &&& v@ == spec_encode_node(spec_bstr4_tree(noc@, icac@, peer_pub@, our_pub@))
                },
                Err(e) => {
                    &&& (noc@.len() > 255 || icac@.len() > 255 || peer_pub@.len() > 255
                        || our_pub@.len() > 255)
                    &&& e == Error::NoSpace
                },
            },
    {
        encode_bstr4(noc, icac, peer_pub, our_pub)
    }

    /// The Sigma2 to-be-encrypted body: the responder's certificates, the
    /// signature computed outside, and a resumption id; it is encrypted
    /// outside under the Sigma2 key.
    pub fn get_sigma2_tbe(
        &self,
        noc: &[u8],
        icac: &[u8],
        signature: &[u8],
        resumption_id: &[u8],
    ) -> (r: Result<Vec<u8>, Error>)
        ensures
            match r {
                Ok(v) => {
                    &&& noc@.len() <= 255 && icac@.len() <= 255 && signature@.len() <= 255
                        && resumption_id@.len() <= 255
                    &&& v@ == spec_encode_node(
                        spec_bstr4_tree(noc@, icac@, signature@, resumption_id@),
                    )
                },
                Err(e) => {
                    &&& (noc@.len() > 255 || icac@.len() > 255 || signature@.len() > 255
                        || resumption_id@.len() > 255)
                    &&& e == Error::NoSpace
                },
            },
    {
        encode_bstr4(noc, icac, signature, resumption_id)
    }

    /// Assembles the Sigma2 message around the encrypted body and folds the
    /// sent bytes into the transcript.
    pub fn build_sigma2_msg(
        &self,
        session: &mut CaseSession,
        our_random: &[u8],
        encrypted: &[u8],
    ) -> (r: Result<Vec<u8>, Error>)
        ensures
            match r {
                Ok(v) => {
                    &&& our_random@.len() <= 255 && old(session).our_pub_key@.len() <= 255
                        && encrypted@.len() <= 65535
                    &&& v@ == spec_encode_node(
                        spec_sigma2_msg_tree(
                            our_random@,
                            old(session).local_sessid,
                            old(session).our_pub_key@,
                            encrypted@,
                        ),
                    )
                    &&& *final(session) == (CaseSession {
                        tt: final(session).tt,
                        ..*old(session)
                    })
                    &&& final(session).tt@ == old(session).tt@ + v@
                },
                Err(e) => {
                    &&& (our_random@.len() > 255 || old(session).our_pub_key@.len() > 255
                        || encrypted@.len() > 65535)
                    &&& e == Error::NoSpace
                    &&& *final(session) == *old(session)
                },
            },
    {
        if our_random.len() > 255 || session.our_pub_key.len() > 255 || encrypted.len() > 65535 {
            return Err(Error::NoSpace);
        }
        let mut fields: Vec<TLVElement> = Vec::new();
        fields.push(
            TLVElement {
                tag: TagType::Context(1),
                value: TLVValue::Str8(vstd::slice::slice_to_vec(our_random)),
            },
        );
        fields.push(
            TLVElement { tag: TagType::Context(2), value: TLVValue::U16(session.local_sessid) },
        );
        fields.push(
            TLVElement {
                tag: TagType::Context(3),
                value: TLVValue::Str8(crate::crypto::copy_bytes(&session.our_pub_key)),
            },
        );
        fields.push(
            TLVElement {
                tag: TagType::Context(4),
                value: TLVValue::Str16(vstd::slice::slice_to_vec(encrypted)),
            },
        );
        let elem = TLVElement { tag: TagType::Anonymous, value: TLVValue::Struct(fields) };
        proof {
            crate::tlv::lemma_elems_view(fields@);
            assert(crate::tlv::elems_view(fields@) =~= spec_sigma2_msg_tree(
                our_random@,
                session.local_sessid,
                session.our_pub_key@,
                encrypted@,
            ).value->Struct_0);
            crate::tlv::lemma_wf_nodes(crate::tlv::elems_view(fields@));
        }
        let msg = encode(&elem);
        extend_bytes(&mut session.tt, msg.as_slice());
        Ok(msg)
    }

    /// Checks the initiator's certificates against the matched fabric: the
    /// intermediate certificate's fabric id (0 when it carries none) and the
    /// operational certificate's fabric id must be the fabric's. Chain
    /// signatures are checked outside.
    pub fn validate_certs(fabric: &Fabric, noc: &Cert, icac: &Cert) -> (r: Result<(), Error>)
        ensures
            r is Ok <==> spec_certs_valid(*fabric, *noc, *icac),
            r is Err ==> r == Err::<(), Error>(Error::Invalid),
    {
        if icac.fabric_id != 0 && icac.fabric_id != fabric.fabric_id {
            return Err(Error::Invalid);
        }
        if noc.fabric_id != fabric.fabric_id {
            return Err(Error::Invalid);
        }
        Ok(())
    }

    /// Parses a decrypted Sigma3 body into the initiator's certificates and
    /// the signature.
    pub fn parse_sigma3_tbe(decrypted: &[u8]) -> (r: Result<(Vec<u8>, Vec<u8>, Vec<u8>), Error>)
        ensures
            match r {
                Ok((noc, icac, sig)) => spec_sigma3_parse(decrypted@) == Some(
                    (noc@, icac@, sig@),
                ),
                Err(e) => spec_sigma3_parse(decrypted@) is None && e == Error::InvalidData,
            },
    {
        let root = match crate::tlv::get_root_node_struct(decrypted) {
            Ok(e) => e,
            Err(_) => {
                return Err(Error::InvalidData);
            },
        };
        let noc = match get_slice_field(&root, 1) {
            Some(v) => v,
            None => {
                return Err(Error::InvalidData);
            },
        };
        let icac = match get_slice_field(&root, 2) {
            Some(v) => v,
            None => {
                return Err(Error::InvalidData);
            },
        };
        let sig = match get_slice_field(&root, 3) {
            Some(v) => v,
            None => {
                return Err(Error::InvalidData);
            },
        };
        Ok((noc, icac, sig))
    }

    /// Handles Sigma3, after the body was decrypted outside with the Sigma3
    /// key and the initiator's certificates were parsed and their chain and
    /// signature checked outside: decides the status, and derives and hands
    /// out session keys exactly when every check passed. Until then no
    /// session material leaves this function.
    pub fn handle_casesigma3(
        &self,
        fabric_mgr: &FabricMgr,
        session: &mut CaseSession,
        rx_buf: &[u8],
        noc_cert: &Cert,
        icac_cert: &Cert,
        chain_valid: bool,
        sig_valid: bool,
    ) -> (r: Result<CaseSigma3Outcome, Error>)
        requires
            fabric_mgr.wf(),
            old(session).wf(),
    ensures
            match r {
                Ok(out) => {
                    &&& old(session).state == CaseState::Sigma1Rx
                    &&& final(session).state == CaseState::Sigma3Rx
                    &&& ((out.clone_data is Some) <==> out.status
                        == SCStatusCodes::SessionEstablishmentSuccess)
                    &&& {
                        let idx = old(session).local_fabric_idx as int;
                        if idx >= fabric_mgr.fabrics@.len() || fabric_mgr.fabrics@[idx] is None {
                            &&& out.status == SCStatusCodes::NoSharedTrustRoots
                            &&& out.clone_data is None
                            &&& final(session).tt@ == old(session).tt@
                        } else {
                            let f = fabric_mgr.fabrics@[idx]->Some_0;
                            if spec_certs_valid(f, *noc_cert, *icac_cert) && chain_valid
                                && sig_valid {
                                let tt2 = old(session).tt@ + rx_buf@;
                                let keys = spec_case_session_keys(
                                    f.ipk@,
                                    tt2,
                                    old(session).shared_secret@,
                                );
                                &&& out.status == SCStatusCodes::SessionEstablishmentSuccess
                                &&& out.clone_data matches Some(cd)
                                &&& cd.mode == SessionMode::Case(
                                    old(session).local_fabric_idx as u8,
                                )
                                &&& cd.peer_sess_id == old(session).peer_sessid
                                &&& cd.local_sess_id == old(session).local_sessid
                                &&& cd.dec_key@ == keys.subrange(0, 16)
                                &&& cd.enc_key@ == keys.subrange(16, 32)
                                &&& cd.att_challenge@ == keys.subrange(32, 48)
                                &&& final(session).tt@ == tt2
                            } else {
                                &&& out.status == SCStatusCodes::InvalidParameter
                                &&& out.clone_data is None
                                &&& final(session).tt@ == old(session).tt@
                            }
                        }
                    }
                },
                Err(e) => {
                    &&& old(session).state != CaseState::Sigma1Rx
                    &&& e == Error::Invalid
                    &&& *final(session) == *old(session)
                },
            },
    {
        let st_ok = match session.state {
            CaseState::Sigma1Rx => true,
            _ => false,
        };
        if !st_ok {
            return Err(Error::Invalid);
        }
        session.state = CaseState::Sigma3Rx;
        let idx = session.local_fabric_idx;
        let fabric = match fabric_mgr.get_fabric(idx) {
            Some(f) => f,
            None => {
                return Ok(
                    CaseSigma3Outcome {
                        status: SCStatusCodes::NoSharedTrustRoots,
                        clone_data: None,
                    },
                );
            },
        };
        let certs_ok = match Case::validate_certs(fabric, noc_cert, icac_cert) {
            Ok(()) => true,
            Err(_) => false,
        };
        if !certs_ok || !chain_valid || !sig_valid {
            return Ok(
                CaseSigma3Outcome { status: SCStatusCodes::InvalidParameter, clone_data: None },
            );
        }
        extend_bytes(&mut session.tt, rx_buf);
        let cd = self.get_session_clone_data(fabric.ipk.as_slice(), session);
        Ok(
            CaseSigma3Outcome {
                status: SCStatusCodes::SessionEstablishmentSuccess,
                clone_data: Some(cd),
            },
        )
    }

    /// What the session store installs for a finished handshake: the mode
    /// bound to the matched fabric slot, the session-id pair, and the three
    /// 16-byte keys split out of the derived key material.
    pub fn get_session_clone_data(&self, ipk: &[u8], session: &CaseSession) -> (cd: CloneData)
        requires
            ipk@.len() + 32 <= usize::MAX,
            session.local_fabric_idx <= 255,
        ensures
            ({
                let keys = spec_case_session_keys(ipk@, session.tt@, session.shared_secret@);
                &&& cd.mode == SessionMode::Case(session.local_fabric_idx as u8)
                &&& cd.peer_sess_id == session.peer_sessid
                &&& cd.local_sess_id == session.local_sessid
                &&& cd.dec_key@ == keys.subrange(0, 16)
                &&& cd.enc_key@ == keys.subrange(16, 32)
                &&& cd.att_challenge@ == keys.subrange(32, 48)
            }),
    {
        let keys = self.get_session_keys(
            ipk,
            session.tt.as_slice(),
            session.shared_secret.as_slice(),
        );
        let mut cd = CloneData::new(
            session.peer_sessid,
            session.local_sessid,
            SessionMode::Case(session.local_fabric_idx as u8),
        );
        cd.dec_key = copy_range(&keys, 0, 16);
        cd.enc_key = copy_range(&keys, 16, 32);
        cd.att_challenge = copy_range(&keys, 32, 48);
        cd
    }

    /// Derives the 48 bytes of session key material for this handshake
    /// state's transcript.
    pub fn get_session_keys(&self, ipk: &[u8], tt: &[u8], shared_secret: &[u8]) -> (r: Vec<u8>)
        requires
            ipk@.len() + 32 <= usize::MAX,
        ensures
            r@ == spec_case_session_keys(ipk@, tt@, shared_secret@),
            r@.len() == 48,
    {
        let mut salt: Vec<u8> = Vec::new();
        extend_bytes(&mut salt, ipk);
        let tt_hash = sha256(tt);
        extend_bytes(&mut salt, tt_hash.as_slice());
        let info = sessionkeys_info();
        let mut key: Vec<u8> = Vec::new();
        let mut i: usize = 0;
        while i < 48
            invariant
                i <= 48,
                key@.len() == i,
            decreases 48 - i,
        {
            key.push(0);
            i = i + 1;
        }
        hkdf_sha256(salt.as_slice(), shared_secret, info.as_slice(), &mut key);
        key
    }
}

} // verus!
