//! Threshold signature verification: count the distinct authorized keys
//! whose signatures verify over the canonical payload bytes.

use vstd::prelude::*;
use crate::crypto::{Signature, key_id_of, sig_of, verify_value, key_id};
use crate::error::{Error, RoleKind};

verus! {

/// The key value in `keys` whose identifier is `id`; first match wins.
pub open spec fn lookup_key(keys: Seq<u64>, id: u64) -> Option<u64>
    decreases keys.len(),
{
    if keys.len() == 0 {
        Option::None
    } else if key_id_of(keys[0]) == id {
        Option::Some(keys[0])
    } else {
        lookup_key(keys.drop_first(), id)
    }
}

/// Whether `s` counts toward the threshold: its key identifier is in the
/// authorized set, the key table resolves it, and the signature value
/// verifies over `payload` under that key.
pub open spec fn sig_valid(keys: Seq<u64>, authorized: Seq<u64>, payload: Seq<u8>, s: Signature) -> bool {
    authorized.contains(s.key_id) && match lookup_key(keys, s.key_id) {
        Option::None => false,
        Option::Some(kv) => s.sig == sig_of(kv, payload),
    }
}

/// The set of distinct key identifiers with a valid signature among `sigs`.
/// Signatures by unknown or unauthorized keys are ignored; duplicates by one
/// key count once.
pub open spec fn signer_set(keys: Seq<u64>, authorized: Seq<u64>, payload: Seq<u8>, sigs: Seq<Signature>) -> Set<u64>
    decreases sigs.len(),
{
    if sigs.len() == 0 {
        Set::empty()
    } else {
        let rest = signer_set(keys, authorized, payload, sigs.drop_last());
        if sig_valid(keys, authorized, payload, sigs.last()) {
            rest.insert(sigs.last().key_id)
        } else {
            rest
        }
    }
}

/// The signer set is finite.
pub proof fn lemma_signer_set_finite(keys: Seq<u64>, authorized: Seq<u64>, payload: Seq<u8>, sigs: Seq<Signature>)
    ensures
        signer_set(keys, authorized, payload, sigs).finite(),
    decreases sigs.len(),
{
    if sigs.len() > 0 {
        lemma_signer_set_finite(keys, authorized, payload, sigs.drop_last());
    }
}

/// Whether the threshold is met: at least `threshold` distinct authorized
/// keys signed validly.
pub open spec fn threshold_met(keys: Seq<u64>, authorized: Seq<u64>, payload: Seq<u8>, sigs: Seq<Signature>, threshold: u64) -> bool {
    signer_set(keys, authorized, payload, sigs).len() >= threshold
}

/// Whether `x` occurs in `v`.
pub fn contains_u64(v: &Vec<u64>, x: u64) -> (r: bool)
    ensures
        r == v@.contains(x),
{
    let mut i: usize = 0;
    while i < v.len()
        invariant
            i <= v.len(),
            forall|k: int| 0 <= k < i ==> v@[k] != x,
        decreases v.len() - i,
    {
        if v[i] == x {
            return true;
        }
        i = i + 1;
    }
    false
}

/// Resolve a key identifier in the key table; first match wins.
fn lookup_key_exec(keys: &Vec<u64>, id: u64) -> (r: Option<u64>)
    ensures
        r == lookup_key(keys@, id),
{
    let mut i: usize = 0;
    proof {
        assert(keys@.skip(0) =~= keys@);
    }
    while i < keys.len()
        invariant
            i <= keys.len(),
            lookup_key(keys@, id) == lookup_key(keys@.skip(i as int), id),
        decreases keys.len() - i,
    {
        let ghost s = keys@.skip(i as int);
        proof {
            assert(s[0] == keys@[i as int]);
            assert(s.drop_first() =~= keys@.skip(i + 1));
        }
        if key_id(keys[i]) == id {
            return Some(keys[i]);
        }
        i = i + 1;
    }
    proof {
        assert(keys@.skip(keys@.len() as int).len() == 0);
    }
    None
}

/// Whether one signature counts toward the threshold.
fn sig_valid_exec(keys: &Vec<u64>, authorized: &Vec<u64>, payload: &Vec<u8>, s: &Signature) -> (r: bool)
    ensures
        r == sig_valid(keys@, authorized@, payload@, *s),
{
    if !contains_u64(authorized, s.key_id) {
        return false;
    }
    match lookup_key_exec(keys, s.key_id) {
        Option::None => false,
        Option::Some(kv) => verify_value(kv, payload, s.sig),
    }
}

/// Verify a role's metadata payload at a threshold. Returns `Ok` exactly
/// when at least `threshold` distinct authorized keys signed validly, and
/// otherwise the failure with the counts seen.
pub fn verify_role(keys: &Vec<u64>, authorized: &Vec<u64>, threshold: u64, payload: &Vec<u8>, sigs: &Vec<Signature>, role: RoleKind) -> (r: Result<(), Error>)
    requires
        threshold >= 1,
    ensures
        r is Ok <==> threshold_met(keys@, authorized@, payload@, sigs@, threshold),
        r matches Err(e) ==> e == (Error::VerificationFailure {
            role,
            got: signer_set(keys@, authorized@, payload@, sigs@).len() as u64,
            need: threshold,
        }),
{
    let mut seen: Vec<u64> = Vec::new();
    let mut i: usize = 0;
    while i < sigs.len()
        invariant
            i <= sigs.len(),
            seen@.no_duplicates(),
            seen@.to_set() == signer_set(keys@, authorized@, payload@, sigs@.take(i as int)),
        decreases sigs.len() - i,
    {
        let s = sigs[i];
        let ghost pre = signer_set(keys@, authorized@, payload@, sigs@.take(i as int));
        proof {
            assert(sigs@.take(i + 1).drop_last() =~= sigs@.take(i as int));
            assert(sigs@.take(i + 1).last() == sigs@[i as int]);
        }
        if sig_valid_exec(keys, authorized, payload, &s) {
            let ghost seen0 = seen@;
            if !contains_u64(&seen, s.key_id) {
                seen.push(s.key_id);
                proof {
                    assert(seen@ == seen0.push(s.key_id));
                    assert(forall|q: int| 0 <= q < seen0.len() ==> seen@[q] == seen0[q]);
                    assert(seen@[seen0.len() as int] == s.key_id);
                    assert(!seen0.contains(s.key_id));
                    assert(seen@.no_duplicates());
                    assert forall|x: u64| seen@.contains(x) <==> pre.insert(s.key_id).contains(x) by {
                        if seen@.contains(x) {
                            let q = choose|q: int| 0 <= q < seen@.len() && seen@[q] == x;
                            if q < seen0.len() {
                                assert(seen0.contains(x));
                            }
                        }
                        if pre.insert(s.key_id).contains(x) {
                            if pre.contains(x) {
                                assert(seen0.contains(x));
                                let q = choose|q: int| 0 <= q < seen0.len() && seen0[q] == x;
                                assert(seen@[q] == x);
                            } else {
                                assert(seen@[seen0.len() as int] == x);
                            }
                        }
                    }
                    assert(seen@.to_set() =~= pre.insert(s.key_id));
                }
            } else {
                proof {
                    assert(seen0.to_set().contains(s.key_id));
                    assert(pre.insert(s.key_id) =~= pre);
                }
            }
        }
        i = i + 1;
    }
    proof {
        assert(sigs@.take(sigs@.len() as int) =~= sigs@);
        seen@.unique_seq_to_set();
    }
    if (seen.len() as u64) >= threshold {
        Ok(())
    } else {
        Err(Error::VerificationFailure {
            role,
            got: seen.len() as u64,
            need: threshold,
        })
    }
}

} // verus!
