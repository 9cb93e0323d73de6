//! Hashing and signature verification.
//!
//! The hash digests and the signature verdict are named, opaque
//! functions of their input bytes; the outside crates compute them.
//! The Ethereum signed-message hash is built here from the Keccak-256
//! digest, so its structure is verified.

use vstd::prelude::*;

use crate::error::Error;
use k256::ecdsa::signature::hazmat::PrehashVerifier;
use sha3::Digest;

verus! {

/// The Blake2b-256 digest (`ckb-default-hash` personalization) of a byte string.
pub uninterp spec fn blake2b256_of(data: Seq<u8>) -> Seq<u8>;

/// The Keccak-256 digest of a byte string.
pub uninterp spec fn keccak256_of(data: Seq<u8>) -> Seq<u8>;

/// The ECDSA verdict over the secp256k1 curve: whether `sig_der` is a
/// valid DER-encoded signature of the 32-byte prehash `msg_hash` under
/// the SEC1-encoded public key `pub_key`.
pub uninterp spec fn ecdsa_verified(msg_hash: Seq<u8>, sig_der: Seq<u8>, pub_key: Seq<u8>) -> bool;

/// Relies on blake2b_ref's Blake2b (builder with output length 32 and
/// the ledger's default personalization): a 32-byte digest that depends
/// on the input bytes alone.
#[verifier::external_body]
pub fn blake2b256(data: &[u8]) -> (r: Vec<u8>)
    ensures
        r@ == blake2b256_of(data@),
        r@.len() == 32,
{
    let mut output = [0u8; 32];
    let mut hasher = blake2b_ref::Blake2bBuilder::new(32).personal(b"ckb-default-hash").build();
    hasher.update(data);
    hasher.finalize(&mut output);
    output.to_vec()
}

/// Relies on sha3's Keccak256: a 32-byte digest that depends on the
/// input bytes alone.
#[verifier::external_body]
fn keccak256(data: &[u8]) -> (r: Vec<u8>)
    ensures
        r@ == keccak256_of(data@),
        r@.len() == 32,
{
    sha3::Keccak256::digest(data).to_vec()
}

/// Relies on k256's ECDSA verification (ecdsa's `Signature::from_der`,
/// `VerifyingKey::from_sec1_bytes` and `PrehashVerifier::verify_prehash`):
/// the verdict depends on the three byte strings alone. A signature or
/// key that does not decode fails verification.
#[verifier::external_body]
fn ecdsa_check(msg_hash: &[u8], sig: &[u8], key: &[u8]) -> (r: bool)
    ensures
        r == ecdsa_verified(msg_hash@, sig@, key@),
{
    let signature = match k256::ecdsa::Signature::from_der(sig) {
        Ok(s) => s,
        Err(_) => return false,
    };
    let verifying_key = match k256::ecdsa::VerifyingKey::from_sec1_bytes(key) {
        Ok(k) => k,
        Err(_) => return false,
    };
    verifying_key.verify_prehash(msg_hash, &signature).is_ok()
}

/// Checks one state signature; rejects exactly when the ECDSA verdict
/// over the prehash, DER signature and SEC1 key is negative.
pub fn verify_signature(msg_hash: &[u8], sig: &[u8], key: &[u8]) -> (r: Result<(), Error>)
    ensures
        r is Ok <==> ecdsa_verified(msg_hash@, sig@, key@),
        r is Err ==> r == Err::<(), Error>(Error::SignatureVerificationError),
{
    if ecdsa_check(msg_hash, sig, key) {
        Ok(())
    } else {
        Err(Error::SignatureVerificationError)
    }
}

/// The prefix of the Ethereum signed-message convention for a 32-byte
/// payload: `"\x19Ethereum Signed Message:\n32"`.
pub open spec fn eth_prefix_spec() -> Seq<u8> {
    seq![
        0x19u8, 0x45u8, 0x74u8, 0x68u8, 0x65u8, 0x72u8, 0x65u8, 0x75u8, 0x6du8, 0x20u8, 0x53u8,
        0x69u8, 0x67u8, 0x6eu8, 0x65u8, 0x64u8, 0x20u8, 0x4du8, 0x65u8, 0x73u8, 0x73u8, 0x61u8,
        0x67u8, 0x65u8, 0x3au8, 0x0au8, 0x33u8, 0x32u8,
    ]
}

/// The hash that parties sign over a serialized state: the Keccak-256
/// digest of the prefixed Keccak-256 digest of the data.
pub open spec fn eth_message_hash_of(data: Seq<u8>) -> Seq<u8> {
    keccak256_of(eth_prefix_spec() + keccak256_of(data))
}

fn eth_prefix() -> (v: Vec<u8>)
    ensures
        v@ == eth_prefix_spec(),
{
    let mut v: Vec<u8> = Vec::new();
    v.push(0x19u8);
    v.push(0x45u8);
    v.push(0x74u8);
    v.push(0x68u8);
    v.push(0x65u8);
    v.push(0x72u8);
    v.push(0x65u8);
    v.push(0x75u8);
    v.push(0x6du8);
    v.push(0x20u8);
    v.push(0x53u8);
    v.push(0x69u8);
    v.push(0x67u8);
    v.push(0x6eu8);
    v.push(0x65u8);
    v.push(0x64u8);
    v.push(0x20u8);
    v.push(0x4du8);
    v.push(0x65u8);
    v.push(0x73u8);
    v.push(0x73u8);
    v.push(0x61u8);
    v.push(0x67u8);
    v.push(0x65u8);
    v.push(0x3au8);
    v.push(0x0au8);
    v.push(0x33u8);
    v.push(0x32u8);
    proof {
        assert(v@ =~= eth_prefix_spec());
    }
    v
}

/// Hashes a serialized state with the Ethereum signed-message
/// convention; this is the prehash that `verify_signature` checks.
pub fn ethereum_message_hash(data: &[u8]) -> (r: Vec<u8>)
    ensures
        r@ == eth_message_hash_of(data@),
        r@.len() == 32,
{
    let inner = keccak256(data);
    let mut buf = eth_prefix();
    buf.extend_from_slice(inner.as_slice());
    proof {
        assert(buf@ =~= eth_prefix_spec() + keccak256_of(data@));
    }
    keccak256(buf.as_slice())
}

} // verus!
