//! Cryptographic primitives the secure channel relies on: SHA-256 and
//! HKDF-SHA-256 are called in outside crates and their results are named;
//! HMAC-SHA-256 is built here from SHA-256 by the RFC 2104 construction.

use vstd::prelude::*;

verus! {

/// The SHA-256 digest of `data`; 32 bytes, a function of the bytes alone.
pub uninterp spec fn sha256_of(data: Seq<u8>) -> Seq<u8>;

/// The RFC 5869 HKDF-SHA-256 output key material of length `len` for
/// `(salt, ikm, info)`; a function of those four alone.
pub uninterp spec fn hkdf_sha256_of(salt: Seq<u8>, ikm: Seq<u8>, info: Seq<u8>, len: nat) -> Seq<
    u8,
>;

/// Relies on sha2::Sha256 through digest's Digest::digest: SHA-256 of the
/// input, a function of the input bytes alone; the digest is 32 bytes.
#[verifier::external_body]
pub fn sha256(data: &[u8]) -> (r: Vec<u8>)
    ensures
        r@ == sha256_of(data@),
        r@.len() == 32,
{
    <sha2::Sha256 as sha2::Digest>::digest(data).to_vec()
}

/// Relies on hkdf::Hkdf::<sha2::Sha256>::new and Hkdf::expand: RFC 5869
/// HKDF-SHA-256, a function of salt, ikm, info and the requested length
/// alone. expand fails only when more than 255 * 32 bytes are requested,
/// which the precondition rules out; the output buffer keeps its length.
#[verifier::external_body]
pub fn hkdf_sha256(salt: &[u8], ikm: &[u8], info: &[u8], out: &mut Vec<u8>)
    requires
        old(out)@.len() <= 8160,
    ensures
        final(out)@ == hkdf_sha256_of(salt@, ikm@, info@, old(out)@.len() as nat),
        final(out)@.len() == old(out)@.len(),
{
    let h = hkdf::Hkdf::<sha2::Sha256>::new(Some(salt), ikm);
    h.expand(info, out.as_mut_slice()).expect("output length was checked");
}

/// Relies on rand::fill: overwrites the buffer from the thread-local CSPRNG.
/// Nothing is promised of the values; the buffer keeps its length.
#[verifier::external_body]
pub fn fill_random(out: &mut Vec<u8>)
    ensures
        final(out)@.len() == old(out)@.len(),
{
    rand::fill(out.as_mut_slice());
}

/// Returns `len` bytes from the CSPRNG.
pub fn random_vec(len: usize) -> (r: Vec<u8>)
    ensures
        r@.len() == len,
{
    let mut out: Vec<u8> = Vec::new();
    let mut i: usize = 0;
    while i < len
        invariant
            out@.len() == i,
            i <= len,
        decreases len - i,
    {
        out.push(0);
        i = i + 1;
    }
    fill_random(&mut out);
    out
}

/// The SHA-256 block-sized key: `key` zero-padded to 64 bytes.
pub open spec fn spec_hmac_block_key(key: Seq<u8>) -> Seq<u8>
    recommends
        key.len() <= 64,
{
    key + Seq::new((64 - key.len()) as nat, |i: int| 0u8)
}

/// The RFC 2104 HMAC-SHA-256 of `msg` under `key` (key at most one block).
pub open spec fn spec_hmac_sha256(key: Seq<u8>, msg: Seq<u8>) -> Seq<u8>
    recommends
        key.len() <= 64,
{
    let k0 = spec_hmac_block_key(key);
    let ipad = Seq::new(64, |i: int| (k0[i] ^ 0x36) as u8);
    let opad = Seq::new(64, |i: int| (k0[i] ^ 0x5c) as u8);
    sha256_of(opad + sha256_of(ipad + msg))
}

/// HMAC-SHA-256 by the RFC 2104 construction over the SHA-256 primitive.
pub fn hmac_sha256(key: &[u8], msg: &[u8]) -> (r: Vec<u8>)
    requires
        key@.len() <= 64,
    ensures
        r@ == spec_hmac_sha256(key@, msg@),
        r@.len() == 32,
{
    let klen = key.len();
    let mut inner: Vec<u8> = Vec::new();
    let mut outer: Vec<u8> = Vec::new();
    let mut i: usize = 0;
    while i < 64
        invariant
            i <= 64,
            klen == key@.len() <= 64,
            inner@.len() == i,
            outer@.len() == i,
            forall|j: int|
                0 <= j < i ==> inner@[j] == (spec_hmac_block_key(key@)[j] ^ 0x36) as u8,
            forall|j: int|
                0 <= j < i ==> outer@[j] == (spec_hmac_block_key(key@)[j] ^ 0x5c) as u8,
        decreases 64 - i,
    {
        let kb: u8 = if i < klen {
            key[i]
        } else {
            0
        };
        inner.push(kb ^ 0x36);
        outer.push(kb ^ 0x5c);
        i = i + 1;
    }
    let mut inner_msg = inner;
    let ghost ipad = inner_msg@;
    let mut j: usize = 0;
    let mlen = msg.len();
    while j < mlen
        invariant
            j <= mlen,
            mlen == msg@.len(),
            inner_msg@ == ipad + msg@.take(j as int),
        decreases mlen - j,
    {
        inner_msg.push(msg[j]);
        proof {
            assert(inner_msg@ =~= ipad + msg@.take(j + 1));
        }
        j = j + 1;
    }
    proof {
        assert(msg@.take(mlen as int) =~= msg@);
    }
    let inner_hash = sha256(inner_msg.as_slice());
    let mut outer_msg = outer;
    let ghost opad = outer_msg@;
    let mut k: usize = 0;
    while k < inner_hash.len()
        invariant
            k <= inner_hash@.len(),
            outer_msg@ == opad + inner_hash@.take(k as int),
        decreases inner_hash@.len() - k,
    {
        let b = inner_hash[k];
        outer_msg.push(b);
        proof {
            assert(outer_msg@ =~= opad + inner_hash@.take(k + 1));
        }
        k = k + 1;
    }
    proof {
        assert(inner_hash@.take(inner_hash@.len() as int) =~= inner_hash@);
        assert(ipad =~= Seq::new(64, |i: int| (spec_hmac_block_key(key@)[i] ^ 0x36) as u8));
        assert(opad =~= Seq::new(64, |i: int| (spec_hmac_block_key(key@)[i] ^ 0x5c) as u8));
    }
    sha256(outer_msg.as_slice())
}

/// A copy of the bytes.
pub fn copy_bytes(src: &Vec<u8>) -> (r: Vec<u8>)
    ensures
        r@ == src@,
{
    vstd::slice::slice_to_vec(src.as_slice())
}

/// Appends `src` to `dst`.
pub fn extend_bytes(dst: &mut Vec<u8>, src: &[u8])
    ensures
        final(dst)@ == old(dst)@ + src@,
{
    let mut j: usize = 0;
    let slen = src.len();
    while j < slen
        invariant
            j <= slen,
            slen == src@.len(),
            dst@ == old(dst)@ + src@.take(j as int),
        decreases slen - j,
    {
        dst.push(src[j]);
        proof {
            assert(dst@ =~= old(dst)@ + src@.take(j + 1));
        }
        j = j + 1;
    }
    proof {
        assert(src@.take(slen as int) =~= src@);
    }
}

} // verus!
