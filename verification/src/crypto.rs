//! The pure cryptographic capability: a deterministic digest over byte
//! strings, key identifiers derived from a key's canonical form, and
//! signature production and verification.
//!
//! The engine treats these as a stand-in capability: every operation is a
//! total function of its inputs, so the trust decisions built on top of them
//! are verified for every outcome the capability can produce.

use vstd::prelude::*;

verus! {

/// Offset basis of the 64-bit digest (FNV-1a).
pub const DIGEST_BASIS: u64 = 0xcbf2_9ce4_8422_2325;
/// Prime multiplier of the 64-bit digest (FNV-1a).
pub const DIGEST_PRIME: u64 = 0x0000_0100_0000_01b3;

/// One digest round: fold a byte into the accumulator.
pub open spec fn digest_step(acc: u64, b: u8) -> u64 {
    ((acc ^ (b as u64)) * DIGEST_PRIME) as u64
}

/// Digest of a byte string, folded left to right.
pub open spec fn digest_of(s: Seq<u8>) -> u64
    decreases s.len(),
{
    if s.len() == 0 {
        DIGEST_BASIS
    } else {
        digest_step(digest_of(s.drop_last()), s.last())
    }
}

/// A detached signature: the identifier of the signing key and the
/// signature value over the canonical payload bytes.
#[derive(Clone, Copy, Debug)]
pub struct Signature {
    pub key_id: u64,
    pub sig: u64,
}

/// Identifier of a public key: a digest of its canonical representation.
pub open spec fn key_id_of(key_value: u64) -> u64 {
    ((key_value ^ DIGEST_BASIS) * DIGEST_PRIME) as u64
}

/// The signature value that verifies over `payload` under `key_value`.
pub open spec fn sig_of(key_value: u64, payload: Seq<u8>) -> u64 {
    ((digest_of(payload) ^ key_value) * DIGEST_PRIME) as u64
}

/// One digest round, executable form.
fn digest_step_exec(acc: u64, b: u8) -> (r: u64)
    ensures
        r == digest_step(acc, b),
{
    let x: u64 = acc ^ (b as u64);
    let wide: u128 = (x as u128) * (DIGEST_PRIME as u128);
    let r: u64 = #[verifier::truncate] (wide as u64);
    proof {
        assert(wide == (x as int) * (DIGEST_PRIME as int));
        assert(r == ((x as int) * (DIGEST_PRIME as int)) as u64);
    }
    r
}

/// Digest of a byte string.
pub fn digest(bytes: &Vec<u8>) -> (r: u64)
    ensures
        r == digest_of(bytes@),
{
    let mut acc: u64 = DIGEST_BASIS;
    let mut i: usize = 0;
    while i < bytes.len()
        invariant
            i <= bytes.len(),
            acc == digest_of(bytes@.take(i as int)),
        decreases bytes.len() - i,
    {
        let b = bytes[i];
        acc = digest_step_exec(acc, b);
        proof {
            assert(bytes@.take(i + 1).drop_last() =~= bytes@.take(i as int));
            assert(bytes@.take(i + 1).last() == bytes@[i as int]);
        }
        i = i + 1;
    }
    proof {
        assert(bytes@.take(bytes@.len() as int) =~= bytes@);
    }
    acc
}

/// Identifier of a public key.
pub fn key_id(key_value: u64) -> (r: u64)
    ensures
        r == key_id_of(key_value),
{
    let x: u64 = key_value ^ DIGEST_BASIS;
    let wide: u128 = (x as u128) * (DIGEST_PRIME as u128);
    #[verifier::truncate] (wide as u64)
}

/// Produce the signature over `payload` under the key `key_value`.
pub fn sign(key_value: u64, payload: &Vec<u8>) -> (s: Signature)
    ensures
        s.key_id == key_id_of(key_value),
        s.sig == sig_of(key_value, payload@),
{
    let d = digest(payload);
    let x: u64 = d ^ key_value;
    let wide: u128 = (x as u128) * (DIGEST_PRIME as u128);
    let sig: u64 = #[verifier::truncate] (wide as u64);
    Signature { key_id: key_id(key_value), sig }
}

/// Check a signature value over `payload` under the key `key_value`.
pub fn verify_value(key_value: u64, payload: &Vec<u8>, sig: u64) -> (r: bool)
    ensures
        r == (sig == sig_of(key_value, payload@)),
{
    let d = digest(payload);
    let x: u64 = d ^ key_value;
    let wide: u128 = (x as u128) * (DIGEST_PRIME as u128);
    let expect: u64 = #[verifier::truncate] (wide as u64);
    sig == expect
}

} // verus!
