//! Commissioned fabrics: certificates are modelled by the fields the logic
//! reads (ids and public key), the compressed fabric id is derived through
//! HKDF-SHA-256, and CASE destination identifiers are matched by recomputing
//! the HMAC over each fabric's parameters.

use crate::crypto::{hkdf_sha256, hkdf_sha256_of, hmac_sha256, spec_hmac_sha256};
use crate::error::Error;
use vstd::bytes::{spec_u64_to_le_bytes, u64_to_le_bytes};
use vstd::prelude::*;

verus! {

/// An operational certificate, as the session logic reads it: the raw bytes
/// are carried through, the ids and the subject public key are fields.
pub struct Cert {
    pub raw: Vec<u8>,
    pub fabric_id: u64,
    pub node_id: u64,
    pub pubkey: Vec<u8>,
}

impl Cert {
    /// An uncompressed P-256 point is 65 bytes.
    pub open spec fn wf(&self) -> bool {
        self.pubkey@.len() == 65
    }

    pub fn new(raw: Vec<u8>, fabric_id: u64, node_id: u64, pubkey: Vec<u8>) -> (r: Cert)
        requires
            pubkey@.len() == 65,
        ensures
            r.wf(),
            r.raw@ == raw@,
            r.fabric_id == fabric_id,
            r.node_id == node_id,
            r.pubkey@ == pubkey@,
    {
        Cert { raw, fabric_id, node_id, pubkey }
    }

    pub fn get_fabric_id(&self) -> (r: u64)
        ensures
            r == self.fabric_id,
    {
        self.fabric_id
    }

    pub fn get_node_id(&self) -> (r: u64)
        ensures
            r == self.node_id,
    {
        self.node_id
    }

    pub fn get_pubkey(&self) -> (r: &[u8])
        ensures
            r@ == self.pubkey@,
    {
        self.pubkey.as_slice()
    }
}

impl Default for Cert {
    /// The empty certificate: zero ids, a zeroed public key.
    fn default() -> (r: Cert)
        ensures
            r.wf(),
            r.fabric_id == 0,
            r.node_id == 0,
            r.raw@.len() == 0,
            r.pubkey@ == Seq::new(65, |i: int| 0u8),
    {
        let mut pubkey: Vec<u8> = Vec::new();
        let mut i: usize = 0;
        while i < 65
            invariant
                i <= 65,
                pubkey@.len() == i,
                forall|j: int| 0 <= j < i ==> pubkey@[j] == 0u8,
            decreases 65 - i,
        {
            pubkey.push(0);
            i = i + 1;
        }
        proof {
            assert(pubkey@ =~= Seq::new(65, |j: int| 0u8));
        }
        Cert { raw: Vec::new(), fabric_id: 0, node_id: 0, pubkey }
    }
}

/// An operational key pair, as the logic reads it: the public key. Signing
/// happens outside this library and its results are taken as inputs.
pub struct KeyPair {
    pub pub_key: Vec<u8>,
}

impl KeyPair {
    pub open spec fn wf(&self) -> bool {
        self.pub_key@.len() == 65
    }

    /// A placeholder key pair with a zeroed public key.
    pub fn dummy() -> (r: KeyPair)
        ensures
            r.wf(),
            r.pub_key@ == Seq::new(65, |i: int| 0u8),
    {
        let c = Cert::default();
        KeyPair { pub_key: c.pubkey }
    }
}

/// The big-endian bytes of a `u64`.
pub open spec fn spec_u64_to_be_bytes(x: u64) -> Seq<u8> {
    seq![
        ((x / 0x100000000000000) % 256) as u8,
        ((x / 0x1000000000000) % 256) as u8,
        ((x / 0x10000000000) % 256) as u8,
        ((x / 0x100000000) % 256) as u8,
        ((x / 0x1000000) % 256) as u8,
        ((x / 0x10000) % 256) as u8,
        ((x / 0x100) % 256) as u8,
        (x % 256) as u8,
    ]
}

/// The big-endian bytes of a `u64`, as a buffer.
pub fn u64_to_be_bytes(x: u64) -> (r: Vec<u8>)
    ensures
        r@ == spec_u64_to_be_bytes(x),
        r@.len() == 8,
{
    let mut out: Vec<u8> = Vec::new();
    out.push(((x / 0x100000000000000) % 256) as u8);
    out.push(((x / 0x1000000000000) % 256) as u8);
    out.push(((x / 0x10000000000) % 256) as u8);
    out.push(((x / 0x100000000) % 256) as u8);
    out.push(((x / 0x1000000) % 256) as u8);
    out.push(((x / 0x10000) % 256) as u8);
    out.push(((x / 0x100) % 256) as u8);
    out.push((x % 256) as u8);
    proof {
        assert(out@ =~= spec_u64_to_be_bytes(x));
    }
    out
}

/// The HKDF info string "CompressedFabric".
pub open spec fn spec_compressed_fabric_info() -> Seq<u8> {
    seq![
        0x43u8,
        0x6fu8,
        0x6du8,
        0x70u8,
        0x72u8,
        0x65u8,
        0x73u8,
        0x73u8,
        0x65u8,
        0x64u8,
        0x46u8,
        0x61u8,
        0x62u8,
        0x72u8,
        0x69u8,
        0x63u8,
    ]
}

/// The compressed fabric id: HKDF-SHA-256 with the big-endian fabric id as
/// salt, the root public key without its leading point-format byte as input
/// key material, the info string "CompressedFabric", and 8 output bytes.
pub open spec fn spec_compressed_fabric_id(root_pubkey: Seq<u8>, fabric_id: u64) -> Seq<u8> {
    hkdf_sha256_of(
        spec_u64_to_be_bytes(fabric_id),
        root_pubkey.skip(1),
        spec_compressed_fabric_info(),
        8,
    )
}

/// Derives the compressed fabric id for a root public key and fabric id.
pub fn get_compressed_id(root_pubkey: &[u8], fabric_id: u64) -> (r: Vec<u8>)
    requires
        root_pubkey@.len() == 65,
    ensures
        r@ == spec_compressed_fabric_id(root_pubkey@, fabric_id),
        r@.len() == 8,
{
    let salt = u64_to_be_bytes(fabric_id);
    let ikm = vstd::slice::slice_subrange(root_pubkey, 1, 65);
    proof {
        assert(ikm@ =~= root_pubkey@.skip(1));
    }
    let mut info: Vec<u8> = Vec::new();
    info.push(0x43);
    info.push(0x6f);
    info.push(0x6d);
    info.push(0x70);
    info.push(0x72);
    info.push(0x65);
    info.push(0x73);
    info.push(0x73);
    info.push(0x65);
    info.push(0x64);
    info.push(0x46);
    info.push(0x61);
    info.push(0x62);
    info.push(0x72);
    info.push(0x69);
    info.push(0x63);
    proof {
        assert(info@ =~= spec_compressed_fabric_info());
    }
    let mut out: Vec<u8> = Vec::new();
    let mut i: usize = 0;
    while i < 8
        invariant
            i <= 8,
            out@.len() == i,
        decreases 8 - i,
    {
        out.push(0);
        i = i + 1;
    }
    hkdf_sha256(salt.as_slice(), ikm, info.as_slice(), &mut out);
    out
}

/// A commissioned trust context.
pub struct Fabric {
    pub node_id: u64,
    pub fabric_id: u64,
    pub key_pair: KeyPair,
    pub root_ca: Cert,
    pub icac: Cert,
    pub noc: Cert,
    pub ipk: Vec<u8>,
    pub compressed_id: Vec<u8>,
}

impl Fabric {
    /// The ids come from the operational certificate; the compressed id is
    /// exactly the HKDF derivation over the root key and fabric id; the
    /// identity protection key is 16 bytes.
    pub open spec fn wf(&self) -> bool {
        &&& self.root_ca.wf()
        &&& self.icac.wf()
        &&& self.noc.wf()
        &&& self.key_pair.wf()
        &&& self.ipk@.len() == 16
        &&& self.node_id == self.noc.node_id
        &&& self.fabric_id == self.noc.fabric_id
        &&& self.compressed_id@ == spec_compressed_fabric_id(
            self.root_ca.pubkey@,
            self.fabric_id,
        )
        &&& self.compressed_id@.len() == 8
    }

    /// Builds a fabric from its certificates, key pair and identity
    /// protection key, deriving the compressed id.
    pub fn new(key_pair: KeyPair, root_ca: Cert, icac: Cert, noc: Cert, ipk: Vec<u8>) -> (r: Result<
        Fabric,
        Error,
    >)
        requires
            key_pair.wf(),
            root_ca.wf(),
            icac.wf(),
            noc.wf(),
            ipk@.len() == 16,
        ensures
            r matches Ok(f) && f.wf() && f.node_id == noc.node_id && f.fabric_id == noc.fabric_id
                && f.root_ca.pubkey@ == root_ca.pubkey@ && f.ipk@ == ipk@,
    {
        let node_id = noc.get_node_id();
        let fabric_id = noc.get_fabric_id();
        let compressed_id = get_compressed_id(root_ca.get_pubkey(), fabric_id);
        Ok(Fabric { node_id, fabric_id, key_pair, root_ca, icac, noc, ipk, compressed_id })
    }

    /// The placeholder fabric that occupies the reserved first slot.
    pub fn dummy() -> (r: Result<Fabric, Error>)
        ensures
            r matches Ok(f) && f.wf() && f.node_id == 0 && f.fabric_id == 0,
    {
        let key_pair = KeyPair::dummy();
        let root_ca = Cert::default();
        let icac = Cert::default();
        let noc = Cert::default();
        let mut ipk: Vec<u8> = Vec::new();
        let mut i: usize = 0;
        while i < 16
            invariant
                i <= 16,
                ipk@.len() == i,
            decreases 16 - i,
        {
            ipk.push(0);
            i = i + 1;
        }
        let compressed_id = get_compressed_id(root_ca.get_pubkey(), 0);
        Ok(Fabric { node_id: 0, fabric_id: 0, key_pair, root_ca, icac, noc, ipk, compressed_id })
    }

    /// The CASE destination identifier this fabric expects for a given
    /// initiator random: an HMAC under the identity protection key over the
    /// random, the root public key and the little-endian fabric and node ids.
    pub open spec fn spec_dest_id(&self, random: Seq<u8>) -> Seq<u8> {
        spec_hmac_sha256(
            self.ipk@,
            random + self.root_ca.pubkey@ + spec_u64_to_le_bytes(self.fabric_id)
                + spec_u64_to_le_bytes(self.node_id),
        )
    }

    /// Computes the destination identifier this fabric expects.
    pub fn compute_dest_id(&self, random: &[u8]) -> (r: Vec<u8>)
        requires
            self.wf(),
        ensures
            r@ == self.spec_dest_id(random@),
            r@.len() == 32,
    {
        let mut msg: Vec<u8> = Vec::new();
        crate::crypto::extend_bytes(&mut msg, random);
        crate::crypto::extend_bytes(&mut msg, self.root_ca.pubkey.as_slice());
        let fid = u64_to_le_bytes(self.fabric_id);
        crate::crypto::extend_bytes(&mut msg, fid.as_slice());
        let nid = u64_to_le_bytes(self.node_id);
        crate::crypto::extend_bytes(&mut msg, nid.as_slice());
        hmac_sha256(self.ipk.as_slice(), msg.as_slice())
    }
}

/// Compares two byte strings.
pub fn eq_bytes(a: &[u8], b: &[u8]) -> (r: bool)
    ensures
        r == (a@ == b@),
{
    if a.len() != b.len() {
        proof {
            assert(a@.len() != b@.len());
        }
        return false;
    }
    let n = a.len();
    let mut i: usize = 0;
    while i < n
        invariant
            i <= n,
            n == a@.len() == b@.len(),
            forall|j: int| 0 <= j < i ==> a@[j] == b@[j],
        decreases n - i,
    {
        if a[i] != b[i] {
            return false;
        }
        i = i + 1;
    }
    proof {
        assert(a@ =~= b@);
    }
    true
}

/// At most this many fabrics, the first slot being reserved.
pub const MAX_SUPPORTED_FABRICS: usize = 3;

/// The bounded fabric table. Outward fabric indices are the table indices;
/// index 0 is the reserved placeholder.
pub struct FabricMgr {
    pub fabrics: Vec<Option<Fabric>>,
}

impl FabricMgr {
    pub open spec fn wf(&self) -> bool {
        &&& self.fabrics@.len() == MAX_SUPPORTED_FABRICS
        &&& forall|i: int|
            0 <= i < self.fabrics@.len() ==> match #[trigger] self.fabrics@[i] {
                Some(f) => f.wf(),
                None => true,
            }
        &&& self.fabrics@[0] is Some
    }

    /// A table with the zero placeholder fabric in the reserved slot and
    /// every other slot empty.
    pub fn new() -> (r: Result<FabricMgr, Error>)
        ensures
            r matches Ok(m) && m.wf() && m.fabrics@.len() == MAX_SUPPORTED_FABRICS
                && (m.fabrics@[0] matches Some(f) && f.fabric_id == 0 && f.node_id == 0)
                && m.fabrics@[1] is None && m.fabrics@[2] is None,
    {
        let dummy = match Fabric::dummy() {
            Ok(f) => f,
            Err(e) => {
                return Err(e);
            },
        };
        let mut fabrics: Vec<Option<Fabric>> = Vec::new();
        fabrics.push(Some(dummy));
        fabrics.push(None);
        fabrics.push(None);
        Ok(FabricMgr { fabrics })
    }

    /// Stores a fabric in the first free slot and returns that slot, or
    /// fails with `NoSpace` when every slot is taken.
    pub fn add(&mut self, f: Fabric) -> (r: Result<u8, Error>)
        requires
            old(self).wf(),
            f.wf(),
        ensures
            final(self).wf(),
            match r {
                Ok(i) => {
                    &&& 0 < i < MAX_SUPPORTED_FABRICS
                    &&& old(self).fabrics@[i as int] is None
                    &&& final(self).fabrics@ == old(self).fabrics@.update(i as int, Some(f))
                    &&& forall|j: int|
                        0 <= j < i ==> (#[trigger] old(self).fabrics@[j]) is Some
                },
                Err(e) => {
                    &&& e == Error::NoSpace
                    &&& final(self).fabrics@ == old(self).fabrics@
                    &&& forall|j: int|
                        0 <= j < old(self).fabrics@.len() ==> (#[trigger] old(
                            self,
                        ).fabrics@[j]) is Some
                },
            },
    {
        let n = self.fabrics.len();
        let mut i: usize = 0;
        while i < n
            invariant
                i <= n,
                n == self.fabrics@.len(),
                n == MAX_SUPPORTED_FABRICS,
                old(self).wf(),
                f.wf(),
                self.fabrics@ == old(self).fabrics@,
                forall|j: int| 0 <= j < i ==> (#[trigger] self.fabrics@[j]) is Some,
            decreases n - i,
        {
            if self.fabrics[i].is_none() {
                self.fabrics.set(i, Some(f));
                proof {
                    assert(self.fabrics@ =~= old(self).fabrics@.update(i as int, Some(f)));
                    assert(i > 0) by {
                        assert(old(self).fabrics@[0] is Some);
                    }
                    assert forall|j: int| 0 <= j < self.fabrics@.len() implies match #[trigger] self.fabrics@[j] {
                        Some(g) => g.wf(),
                        None => true,
                    } by {
                        if j != i {
                            assert(self.fabrics@[j] == old(self).fabrics@[j]);
                        }
                    }
                }
                return Ok(i as u8);
            }
            i = i + 1;
        }
        Err(Error::NoSpace)
    }

    /// Returns the fabric at `idx` when one is stored there.
    pub fn get_fabric(&self, idx: usize) -> (r: Option<&Fabric>)
        requires
            self.wf(),
        ensures
            match r {
                Some(f) => idx < self.fabrics@.len() && self.fabrics@[idx as int] == Some(*f)
                    && f.wf(),
                None => idx >= self.fabrics@.len() || self.fabrics@[idx as int] is None,
            },
    {
        if idx >= self.fabrics.len() {
            return None;
        }
        match &self.fabrics[idx] {
            Some(f) => Some(f),
            None => None,
        }
    }

    /// Matches a CASE destination identifier: recomputes the identifier each
    /// commissioned fabric expects for this initiator random and returns the
    /// first fabric slot whose identifier equals the candidate. The reserved
    /// slot never matches.
    pub fn match_dest_id(&self, random: &[u8], target: &[u8]) -> (r: Result<usize, Error>)
        requires
            self.wf(),
        ensures
            match r {
                Ok(i) => {
                    &&& 0 < i < self.fabrics@.len()
                    &&& self.fabrics@[i as int] matches Some(f) && f.spec_dest_id(random@)
                        == target@
                },
                Err(e) => {
                    &&& e == Error::NotFound
                    &&& forall|j: int|
                        0 < j < self.fabrics@.len() ==> match #[trigger] self.fabrics@[j] {
                            Some(f) => f.spec_dest_id(random@) != target@,
                            None => true,
                        }
                },
            },
    {
        let n = self.fabrics.len();
        let mut i: usize = 1;
        while i < n
            invariant
                1 <= i <= n,
                self.wf(),
                n == self.fabrics@.len(),
                forall|j: int|
                    0 < j < i ==> match #[trigger] self.fabrics@[j] {
                        Some(f) => f.spec_dest_id(random@) != target@,
                        None => true,
                    },
            decreases n - i,
        {
            match &self.fabrics[i] {
                Some(f) => {
                    let expected = f.compute_dest_id(random);
                    if eq_bytes(expected.as_slice(), target) {
                        return Ok(i);
                    }
                },
                None => {},
            }
            i = i + 1;
        }
        Err(Error::NotFound)
    }
}

/// For one root public key and fabric id the compressed fabric id is one
/// 8-byte value, whatever else the two fabrics hold: the determinism law.
pub proof fn lemma_compressed_id_deterministic(f1: Fabric, f2: Fabric)
    requires
        f1.wf(),
        f2.wf(),
        f1.root_ca.pubkey@ == f2.root_ca.pubkey@,
        f1.fabric_id == f2.fabric_id,
    ensures
        f1.compressed_id@ == f2.compressed_id@,
        f1.compressed_id@.len() == 8,
{
}

} // verus!
