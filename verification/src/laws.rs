//! The laws the engine states of itself, proved over the specification
//! functions its contracts use.

use vstd::prelude::*;
use vstd::set::axiom_set_insert_len;
use crate::crypto::Signature;
use crate::database::{
    root_parsed, rt_admissible, sn_admissible, sn_parsed, spec_resolve_child,
    spec_resolve_records, spec_target_description, targets_lookup, tg_admissible, tg_parsed,
    ts_admissible, ts_parsed, Database,
};
use crate::codec::m_seq;
use crate::metadata::TargetsMetadata;
use crate::pattern::some_pattern_matches;
use crate::threshold::{lemma_signer_set_finite, sig_valid, signer_set, threshold_met};

verus! {

/// Removing one signature keeps every other valid signer, so the count of
/// distinct valid signers drops by at most one.
pub proof fn lemma_signer_set_remove(keys: Seq<u64>, authorized: Seq<u64>, payload: Seq<u8>, sigs: Seq<Signature>, i: int)
    requires
        0 <= i < sigs.len(),
    ensures
        signer_set(keys, authorized, payload, sigs.remove(i)).subset_of(
            signer_set(keys, authorized, payload, sigs)),
        signer_set(keys, authorized, payload, sigs.remove(i)).len()
            >= signer_set(keys, authorized, payload, sigs).len() - 1,
    decreases sigs.len(),
{
    let full = signer_set(keys, authorized, payload, sigs);
    let rem = signer_set(keys, authorized, payload, sigs.remove(i));
    lemma_signer_set_finite(keys, authorized, payload, sigs);
    lemma_signer_set_finite(keys, authorized, payload, sigs.remove(i));
    lemma_signer_set_finite(keys, authorized, payload, sigs.drop_last());
    if i == sigs.len() - 1 {
        assert(sigs.remove(i) =~= sigs.drop_last());
        let base = signer_set(keys, authorized, payload, sigs.drop_last());
        if sig_valid(keys, authorized, payload, sigs.last()) {
            axiom_set_insert_len(base, sigs.last().key_id);
            assert(full == base.insert(sigs.last().key_id));
            assert(base.subset_of(full));
        } else {
            assert(full == base);
        }
    } else {
        let s1 = sigs.drop_last();
        assert(sigs.remove(i).drop_last() =~= s1.remove(i));
        assert(sigs.remove(i).last() == sigs.last());
        lemma_signer_set_remove(keys, authorized, payload, s1, i);
        let a = signer_set(keys, authorized, payload, s1.remove(i));
        let b = signer_set(keys, authorized, payload, s1);
        lemma_signer_set_finite(keys, authorized, payload, s1.remove(i));
        if sig_valid(keys, authorized, payload, sigs.last()) {
            let x = sigs.last().key_id;
            axiom_set_insert_len(a, x);
            axiom_set_insert_len(b, x);
            assert(rem == a.insert(x));
            assert(full == b.insert(x));
            assert(a.insert(x).subset_of(b.insert(x)));
            if a.contains(x) {
                assert(b.contains(x));
            }
        } else {
            assert(rem == a && full == b);
        }
    }
}

/// Threshold monotonicity: if the signatures carry at least `t + 1`
/// distinct valid signers, then after removing any one signature the
/// remaining ones still meet a threshold of `t`. Together with the
/// verifier's contract — success exactly when the distinct valid signer
/// count reaches the threshold — this is the monotonicity law: a set of
/// signatures that verifies with room to spare keeps verifying when one
/// signature is dropped, and one below the threshold fails.
pub proof fn lemma_threshold_monotonic(keys: Seq<u64>, authorized: Seq<u64>, payload: Seq<u8>, sigs: Seq<Signature>, i: int, t: u64)
    requires
        0 <= i < sigs.len(),
        signer_set(keys, authorized, payload, sigs).len() >= t + 1,
    ensures
        threshold_met(keys, authorized, payload, sigs.remove(i), t),
        threshold_met(keys, authorized, payload, sigs, t),
{
    lemma_signer_set_remove(keys, authorized, payload, sigs, i);
}

/// Path-pattern restriction: a delegation record whose patterns do not
/// cover the target contributes nothing to resolution — the walk passes
/// over the edge exactly as if it were not there.
pub proof fn lemma_pattern_restriction(db: Database, meta: TargetsMetadata, node: Seq<u8>, k: int, target: Seq<u8>, visited: Seq<Seq<u8>>, fuel: nat)
    requires
        0 <= k < meta.delegations.roles@.len(),
        !some_pattern_matches(m_seq(meta.delegations.roles@[k].paths@), target),
    ensures
        spec_resolve_records(db, meta, node, k, target, visited, fuel)
            == spec_resolve_records(db, meta, node, k + 1, target, visited, fuel),
{
}

/// Terminating flag: when a terminating record matches the target and its
/// branch yields no description, resolution at that level stops — the
/// records after it are never consulted, whatever they hold.
pub proof fn lemma_terminating_stops(db: Database, meta: TargetsMetadata, node: Seq<u8>, k: int, target: Seq<u8>, visited: Seq<Seq<u8>>, fuel: nat)
    requires
        0 <= k < meta.delegations.roles@.len(),
        meta.delegations.roles@[k].terminating,
        some_pattern_matches(m_seq(meta.delegations.roles@[k].paths@), target),
        spec_resolve_child(db, node, meta.delegations.roles@[k].role.0@, target, visited, fuel)
            is None,
    ensures
        spec_resolve_records(db, meta, node, k, target, visited, fuel) is None,
{
}

/// An unverifiable edge yields nothing: a child admitted through one
/// parent is invisible to resolution through any other parent.
pub proof fn lemma_edge_visibility(db: Database, parent: Seq<u8>, child: Seq<u8>, target: Seq<u8>, visited: Seq<Seq<u8>>, fuel: nat)
    requires
        crate::database::deleg_lookup(db.delegations@, child) matches Some(e)
            && e.deleg.parent.0@ != parent,
    ensures
        spec_resolve_child(db, parent, child, target, visited, fuel) is None,
{
}

/// Atomicity: resolution answers are a function of the database value
/// alone. Every admission operation ensures that on an error the database
/// value is unchanged, so a failed admission leaves every resolution
/// answer unchanged bit for bit.
pub proof fn lemma_resolution_of_state(db1: Database, db2: Database, target: Seq<u8>)
    requires
        db1 == db2,
    ensures
        spec_target_description(db1, target) == spec_target_description(db2, target),
{
}

/// Precedence of declared targets: when the top-level targets role itself
/// declares the target, resolution returns that description, whatever the
/// delegations would say.
pub proof fn lemma_direct_target_precedence(db: Database, target: Seq<u8>)
    requires
        db.targets matches Some(tm)
            && targets_lookup(m_seq(tm.targets@), target) is Some,
    ensures
        spec_target_description(db, target)
            == targets_lookup(m_seq(db.targets.unwrap().targets@), target),
{
}

/// Rollback protection: a timestamp envelope whose version is behind the
/// trusted one is never admissible, for any clock value.
pub proof fn lemma_rollback_protected(db: Database, raw: Seq<u8>, now: u64)
    requires
        ts_parsed(raw) matches Some(p) && db.timestamp matches Some(cur)
            && p.1.version < cur.version,
    ensures
        !ts_admissible(db, raw, now),
{
}

/// Rollback protection for snapshots.
pub proof fn lemma_rollback_protected_snapshot(db: Database, raw: Seq<u8>, now: u64)
    requires
        sn_parsed(raw) matches Some(p) && db.snapshot matches Some(cur)
            && p.1.version < cur.version,
    ensures
        !sn_admissible(db, raw, now),
{
}

/// Rollback protection for the top-level targets role.
pub proof fn lemma_rollback_protected_targets(db: Database, raw: Seq<u8>, now: u64)
    requires
        tg_parsed(raw) matches Some(p) && db.targets matches Some(cur)
            && p.1.version < cur.version,
    ensures
        !tg_admissible(db, raw, now),
{
}

/// Rollback protection for the root: a root behind the trusted version is
/// never admissible.
pub proof fn lemma_rollback_protected_root(db: Database, raw: Seq<u8>)
    requires
        root_parsed(raw) matches Some(p) && p.1.version < db.root.version,
    ensures
        !rt_admissible(db, raw),
{
}

} // verus!
