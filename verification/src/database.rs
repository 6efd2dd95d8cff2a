//! The trust database: holds the currently trusted root, timestamp,
//! snapshot and targets metadata, admits signed updates, and resolves
//! target paths through the delegation graph.

use vstd::prelude::*;
use crate::codec::{Codec, m_seq};
use crate::crypto::{digest, digest_of};
use crate::error::{Error, RoleKind};
use crate::interchange::{parse_env, parse_env_bytes, parse_meta, parse_meta_bytes};
use crate::metadata::{
    bytes_eq, Delegation, Envelope, Metadata, MetadataM, MetadataDescription, MetadataPath,
    RoleDef, RoleDefM, RootMetadata, SnapEntry, SnapshotMetadata, TargetDescription, TargetPath,
    TargetsMetadata, TimestampMetadata, EnvelopeM,
};
use crate::pattern::{any_target_match, some_pattern_matches};
use crate::threshold::{signer_set, threshold_met, verify_role};

verus! {

/// A retained signed envelope: the bytes exactly as received, and their
/// parsed form.
pub struct RawSigned {
    pub raw: Vec<u8>,
    pub env: Envelope,
}

/// The retained bytes parse to the retained envelope.
pub open spec fn raw_wf(rs: RawSigned) -> bool {
    parse_env_bytes(rs.raw@) == Some(rs.env.m())
}

/// A delegated targets role the database trusts, together with the edge
/// that admitted it: the parent it was accepted through, the path patterns
/// of that edge, and the edge's terminating flag.
pub struct TrustedDelegation {
    pub env: RawSigned,
    pub meta: TargetsMetadata,
    pub parent: MetadataPath,
    pub paths: Vec<TargetPath>,
    pub terminating: bool,
}

/// One entry of the delegation tree, keyed by the delegated role's path.
pub struct DelegEntry {
    pub path: MetadataPath,
    pub deleg: TrustedDelegation,
}

/// A retained targets envelope parses to its retained payload.
pub open spec fn targets_pair_wf(rs: RawSigned, t: TargetsMetadata) -> bool {
    raw_wf(rs) && parse_meta_bytes(rs.env.payload@) == Some(MetadataM::Targets(t.m()))
}

/// Role definition invariant: a threshold of at least one, not above the
/// number of authorized keys.
pub open spec fn role_def_wf(d: RoleDefM) -> bool {
    1 <= d.threshold <= d.key_ids.len()
}

/// Root invariant: all four role definitions are well formed.
pub open spec fn root_wf(m: crate::metadata::RootMetadataM) -> bool {
    role_def_wf(m.root_role) && role_def_wf(m.timestamp_role) && role_def_wf(m.snapshot_role)
        && role_def_wf(m.targets_role)
}

/// The in-memory trust database.
pub struct Database {
    pub root_env: RawSigned,
    pub root: RootMetadata,
    pub timestamp_env: Option<RawSigned>,
    pub timestamp: Option<TimestampMetadata>,
    pub snapshot_env: Option<RawSigned>,
    pub snapshot: Option<SnapshotMetadata>,
    pub targets_env: Option<RawSigned>,
    pub targets: Option<TargetsMetadata>,
    pub delegations: Vec<DelegEntry>,
}

impl Database {
    /// Well-formedness: every retained envelope's bytes parse to its parsed
    /// form, the root's role definitions are well formed, parsed and raw
    /// forms are present together, and every retained top-level envelope
    /// meets its role's threshold under the currently trusted root.
    pub open spec fn wf(self) -> bool {
        &&& raw_wf(self.root_env)
        &&& parse_meta_bytes(self.root_env.env.payload@) == Some(MetadataM::Root(self.root.m()))
        &&& root_wf(self.root.m())
        &&& env_verified(self.root.keys@, self.root.root_role.key_ids@, self.root_env.env.m(),
            self.root.root_role.threshold)
        &&& (self.timestamp is Some <==> self.timestamp_env is Some)
        &&& (self.timestamp matches Some(t) ==> {
            &&& raw_wf(self.timestamp_env.unwrap())
            &&& parse_meta_bytes(self.timestamp_env.unwrap().env.payload@)
                == Some(MetadataM::Timestamp(t))
            &&& env_verified(self.root.keys@, self.root.timestamp_role.key_ids@,
                self.timestamp_env.unwrap().env.m(), self.root.timestamp_role.threshold)
        })
        &&& (self.snapshot is Some <==> self.snapshot_env is Some)
        &&& (self.snapshot matches Some(s) ==> {
            &&& raw_wf(self.snapshot_env.unwrap())
            &&& parse_meta_bytes(self.snapshot_env.unwrap().env.payload@)
                == Some(MetadataM::Snapshot(s.m()))
            &&& env_verified(self.root.keys@, self.root.snapshot_role.key_ids@,
                self.snapshot_env.unwrap().env.m(), self.root.snapshot_role.threshold)
        })
        &&& (self.targets is Some <==> self.targets_env is Some)
        &&& (self.targets matches Some(t) ==> {
            &&& raw_wf(self.targets_env.unwrap())
            &&& parse_meta_bytes(self.targets_env.unwrap().env.payload@)
                == Some(MetadataM::Targets(t.m()))
            &&& env_verified(self.root.keys@, self.root.targets_role.key_ids@,
                self.targets_env.unwrap().env.m(), self.root.targets_role.threshold)
        })
        &&& (forall|k: int| 0 <= k < self.delegations@.len()
            ==> targets_pair_wf(
                (#[trigger] self.delegations@[k]).deleg.env,
                self.delegations@[k].deleg.meta,
            ))
    }
}

/// A parsed signed role: the envelope and the payload it carries.
pub open spec fn parsed_role(raw: Seq<u8>) -> Option<(EnvelopeM, MetadataM)> {
    match parse_env_bytes(raw) {
        Option::None => Option::None,
        Option::Some(env) => match parse_meta_bytes(env.payload) {
            Option::None => Option::None,
            Option::Some(m) => Option::Some((env, m)),
        },
    }
}

/// Parse an incoming signed envelope and its payload.
fn parse_signed(raw: &Vec<u8>) -> (r: Option<(Envelope, Metadata)>)
    ensures
        r is Some <==> parsed_role(raw@) is Some,
        r matches Some(p) ==> parsed_role(raw@) == Some((p.0.m(), p.1.m())),
{
    let env = match parse_env(raw) {
        Option::None => { return None; },
        Option::Some(e) => e,
    };
    let meta = match parse_meta(&env.payload) {
        Option::None => { return None; },
        Option::Some(m) => m,
    };
    Some((env, meta))
}

/// Whether a recorded description matches a metadata file: the version is
/// the recorded one, and length and digest match where the description
/// states them.
pub open spec fn desc_matches(d: MetadataDescription, version: u64, bytes: Seq<u8>) -> bool {
    &&& d.version == version
    &&& (d.length matches Some(l) ==> l == bytes.len())
    &&& (d.digest matches Some(h) ==> h == digest_of(bytes))
}

/// Check a recorded description against a metadata file's bytes.
fn check_desc(d: &MetadataDescription, version: u64, bytes: &Vec<u8>) -> (r: bool)
    ensures
        r == desc_matches(*d, version, bytes@),
{
    if d.version != version {
        return false;
    }
    match d.length {
        Option::Some(l) => {
            if l != bytes.len() as u64 {
                return false;
            }
        },
        Option::None => {},
    }
    match d.digest {
        Option::Some(h) => {
            if h != digest(bytes) {
                return false;
            }
        },
        Option::None => {},
    }
    true
}

/// Check a role definition's structural invariant.
fn check_role_def(d: &RoleDef) -> (r: bool)
    ensures
        r == role_def_wf(d.m()),
{
    1 <= d.threshold && d.threshold <= d.key_ids.len() as u64
}

/// Verification of an envelope against a key table, an authorized id set
/// and a threshold, at the model level.
pub open spec fn env_verified(keys: Seq<u64>, authorized: Seq<u64>, env: EnvelopeM, threshold: u64) -> bool {
    threshold_met(keys, authorized, env.payload, env.sigs, threshold)
}

impl Database {
    /// Build a database from a single trusted root envelope. The root must
    /// parse, satisfy the role-definition invariants, and verify against
    /// its own declared root role (self-signed); its expiration is not
    /// checked.
    pub fn from_trusted_root(raw: &Vec<u8>) -> (r: Result<Database, Error>)
        ensures
            r matches Ok(db) ==> {
                &&& db.wf()
                &&& parsed_role(raw@) matches Some(p)
                &&& p.1 matches MetadataM::Root(rm)
                &&& db.root.m() == rm
                &&& db.root_env.raw@ == raw@
                &&& db.root_env.env.m() == p.0
                &&& root_wf(rm)
                &&& env_verified(rm.keys, rm.root_role.key_ids, p.0, rm.root_role.threshold)
                &&& db.timestamp is None
                &&& db.snapshot is None
                &&& db.targets is None
                &&& db.delegations@.len() == 0
            },
            r is Ok <==> (parsed_role(raw@) matches Some(p) && p.1 matches MetadataM::Root(rm)
                && root_wf(rm)
                && env_verified(rm.keys, rm.root_role.key_ids, p.0, rm.root_role.threshold)),
    {
        let (env, meta) = match parse_signed(raw) {
            Option::None => { return Err(Error::MalformedMetadata); },
            Option::Some(p) => p,
        };
        let root = match meta {
            Metadata::Root(rm) => rm,
            _ => { return Err(Error::MalformedMetadata); },
        };
        if !(check_role_def(&root.root_role) && check_role_def(&root.timestamp_role)
            && check_role_def(&root.snapshot_role) && check_role_def(&root.targets_role)) {
            return Err(Error::MalformedMetadata);
        }
        match verify_role(&root.keys, &root.root_role.key_ids, root.root_role.threshold,
            &env.payload, &env.sigs, RoleKind::Root) {
            Result::Err(e) => { return Err(e); },
            Result::Ok(()) => {},
        }
        let mut raw_copy: Vec<u8> = Vec::new();
        append_bytes(&mut raw_copy, raw);
        Ok(Database {
            root_env: RawSigned { raw: raw_copy, env },
            root,
            timestamp_env: None,
            timestamp: None,
            snapshot_env: None,
            snapshot: None,
            targets_env: None,
            targets: None,
            delegations: Vec::new(),
        })
    }
}

/// Parse a timestamp role from raw envelope bytes.
pub open spec fn ts_parsed(raw: Seq<u8>) -> Option<(EnvelopeM, TimestampMetadata)> {
    match parsed_role(raw) {
        Option::Some(p) => match p.1 {
            MetadataM::Timestamp(t) => Option::Some((p.0, t)),
            _ => Option::None,
        },
        Option::None => Option::None,
    }
}

/// When a timestamp admission succeeds: the bytes parse to a timestamp, it
/// verifies against the root's timestamp role, it is not expired, and its
/// version is ahead of the trusted one (or equal with identical bytes).
pub open spec fn ts_admissible(db: Database, raw: Seq<u8>, now: u64) -> bool {
    ts_parsed(raw) matches Some(p) && {
        &&& env_verified(db.root.keys@, db.root.timestamp_role.key_ids@, p.0,
            db.root.timestamp_role.threshold)
        &&& p.1.expires >= now
        &&& match db.timestamp {
            Option::None => true,
            Option::Some(cur) => p.1.version > cur.version
                || (p.1.version == cur.version && db.timestamp_env.unwrap().raw@ == raw),
        }
    }
}

impl Database {
    /// Admit a timestamp envelope: verify it against the root's timestamp
    /// role, reject expired or rolled-back versions, and store it. `Ok(true)`
    /// means updated, `Ok(false)` an idempotent no-op; an error leaves the
    /// database unchanged.
    pub fn update_timestamp(&mut self, raw: &Vec<u8>, now: u64) -> (r: Result<bool, Error>)
        requires
            old(self).wf(),
        ensures
            final(self).wf(),
            r is Err ==> *final(self) == *old(self),
            r is Ok <==> ts_admissible(*old(self), raw@, now),
            r matches Ok(false) ==> *final(self) == *old(self),
            r matches Ok(false) ==> old(self).timestamp matches Some(cur)
                && ts_parsed(raw@).unwrap().1.version == cur.version,
            r matches Ok(true) ==> ({
                let p = ts_parsed(raw@).unwrap();
                &&& final(self).timestamp == Some(p.1)
                &&& final(self).timestamp_env matches Some(rs) && rs.raw@ == raw@
                    && rs.env.m() == p.0
                &&& (old(self).timestamp matches Some(cur) ==> p.1.version > cur.version)
                &&& final(self).root == old(self).root
                &&& final(self).root_env == old(self).root_env
                &&& final(self).snapshot == old(self).snapshot
                &&& final(self).snapshot_env == old(self).snapshot_env
                &&& final(self).targets == old(self).targets
                &&& final(self).targets_env == old(self).targets_env
                &&& final(self).delegations == old(self).delegations
            }),
            match ts_parsed(raw@) {
                Option::None => r == Err::<bool, Error>(Error::MalformedMetadata),
                Option::Some(p) => {
                    &&& (!env_verified(old(self).root.keys@, old(self).root.timestamp_role.key_ids@,
                        p.0, old(self).root.timestamp_role.threshold)
                        ==> r == Err::<bool, Error>(Error::VerificationFailure {
                            role: RoleKind::Timestamp,
                            got: signer_set(old(self).root.keys@,
                                old(self).root.timestamp_role.key_ids@, p.0.payload,
                                p.0.sigs).len() as u64,
                            need: old(self).root.timestamp_role.threshold,
                        }))
                    &&& (env_verified(old(self).root.keys@, old(self).root.timestamp_role.key_ids@,
                        p.0, old(self).root.timestamp_role.threshold) && p.1.expires < now
                        ==> r == Err::<bool, Error>(Error::Expired {
                            role: RoleKind::Timestamp,
                            expired_at: p.1.expires,
                        }))
                    &&& ((old(self).timestamp matches Some(cur)
                        && (env_verified(old(self).root.keys@,
                            old(self).root.timestamp_role.key_ids@, p.0,
                            old(self).root.timestamp_role.threshold) && p.1.expires >= now
                            && (p.1.version < cur.version || (p.1.version == cur.version
                                && old(self).timestamp_env.unwrap().raw@ != raw@))))
                        ==> r == Err::<bool, Error>(Error::VersionLessThanCurrent {
                            role: RoleKind::Timestamp,
                            got: p.1.version,
                            current: old(self).timestamp.unwrap().version,
                        }))
                },
            },
    {
        let (env, meta) = match parse_signed(raw) {
            Option::None => { return Err(Error::MalformedMetadata); },
            Option::Some(p) => p,
        };
        let ts = match meta {
            Metadata::Timestamp(t) => t,
            _ => { return Err(Error::MalformedMetadata); },
        };
        match verify_role(&self.root.keys, &self.root.timestamp_role.key_ids,
            self.root.timestamp_role.threshold, &env.payload, &env.sigs, RoleKind::Timestamp) {
            Result::Err(e) => { return Err(e); },
            Result::Ok(()) => {},
        }
        if ts.expires < now {
            return Err(Error::Expired { role: RoleKind::Timestamp, expired_at: ts.expires });
        }
        match &self.timestamp {
            Option::Some(cur) => {
                if ts.version < cur.version {
                    return Err(Error::VersionLessThanCurrent {
                        role: RoleKind::Timestamp,
                        got: ts.version,
                        current: cur.version,
                    });
                }
                if ts.version == cur.version {
                    let same = match &self.timestamp_env {
                        Option::Some(rs) => bytes_eq(&rs.raw, raw),
                        Option::None => false,
                    };
                    if same {
                        return Ok(false);
                    } else {
                        return Err(Error::VersionLessThanCurrent {
                            role: RoleKind::Timestamp,
                            got: ts.version,
                            current: cur.version,
                        });
                    }
                }
            },
            Option::None => {},
        }
        let raw_copy = copy_bytes(raw);
        self.timestamp_env = Some(RawSigned { raw: raw_copy, env });
        self.timestamp = Some(ts);
        Ok(true)
    }
}

/// The metadata path of the top-level targets role.
pub open spec fn targets_path_m() -> Seq<u8> {
    seq![116u8, 97u8, 114u8, 103u8, 101u8, 116u8, 115u8]
}

/// The metadata path of the top-level targets role, `targets`.
pub fn targets_path() -> (r: Vec<u8>)
    ensures
        r@ == targets_path_m(),
{
    let mut v: Vec<u8> = Vec::new();
    v.push(116);
    v.push(97);
    v.push(114);
    v.push(103);
    v.push(101);
    v.push(116);
    v.push(115);
    proof {
        assert(v@ =~= targets_path_m());
    }
    v
}

/// The metadata path of the timestamp role, `timestamp`.
pub open spec fn timestamp_path_m() -> Seq<u8> {
    seq![116u8, 105u8, 109u8, 101u8, 115u8, 116u8, 97u8, 109u8, 112u8]
}

fn timestamp_path() -> (r: Vec<u8>)
    ensures
        r@ == timestamp_path_m(),
{
    let mut v: Vec<u8> = Vec::new();
    v.push(116);
    v.push(105);
    v.push(109);
    v.push(101);
    v.push(115);
    v.push(116);
    v.push(97);
    v.push(109);
    v.push(112);
    proof {
        assert(v@ =~= timestamp_path_m());
    }
    v
}

/// The metadata path of the snapshot role, `snapshot`.
pub open spec fn snapshot_path_m() -> Seq<u8> {
    seq![115u8, 110u8, 97u8, 112u8, 115u8, 104u8, 111u8, 116u8]
}

fn snapshot_path() -> (r: Vec<u8>)
    ensures
        r@ == snapshot_path_m(),
{
    let mut v: Vec<u8> = Vec::new();
    v.push(115);
    v.push(110);
    v.push(97);
    v.push(112);
    v.push(115);
    v.push(104);
    v.push(111);
    v.push(116);
    proof {
        assert(v@ =~= snapshot_path_m());
    }
    v
}

/// The description a snapshot records for a metadata path; first match wins.
pub open spec fn snap_lookup(metas: Seq<crate::metadata::SnapEntryM>, path: Seq<u8>) -> Option<MetadataDescription>
    decreases metas.len(),
{
    if metas.len() == 0 {
        Option::None
    } else if metas[0].path == path {
        Option::Some(metas[0].desc)
    } else {
        snap_lookup(metas.drop_first(), path)
    }
}

/// Look a metadata path up in a snapshot's entry list.
fn snap_lookup_exec(metas: &Vec<SnapEntry>, path: &Vec<u8>) -> (r: Option<MetadataDescription>)
    ensures
        r == snap_lookup(m_seq(metas@), path@),
{
    let mut i: usize = 0;
    proof {
        assert(m_seq(metas@).skip(0) =~= m_seq(metas@));
    }
    while i < metas.len()
        invariant
            i <= metas.len(),
            snap_lookup(m_seq(metas@), path@) == snap_lookup(m_seq(metas@).skip(i as int), path@),
        decreases metas.len() - i,
    {
        let ghost s = m_seq(metas@).skip(i as int);
        proof {
            assert(s[0] == m_seq(metas@)[i as int]);
            assert(m_seq(metas@)[i as int] == metas@[i as int].m());
            assert(s.drop_first() =~= m_seq(metas@).skip(i + 1));
        }
        if bytes_eq(&metas[i].path.0, path) {
            return Some(metas[i].desc);
        }
        i = i + 1;
    }
    proof {
        assert(m_seq(metas@).skip(m_seq(metas@).len() as int).len() == 0);
    }
    None
}

/// Whether the new snapshot still vouches for a retained metadata file.
pub open spec fn meta_entry_kept(snap: crate::metadata::SnapshotMetadataM, path: Seq<u8>, version: u64, bytes: Seq<u8>) -> bool {
    match snap_lookup(snap.metas, path) {
        Option::None => false,
        Option::Some(d) => desc_matches(d, version, bytes),
    }
}

/// Whether the new snapshot still vouches for a retained delegation entry.
pub open spec fn deleg_kept(snap: crate::metadata::SnapshotMetadataM, e: DelegEntry) -> bool {
    meta_entry_kept(snap, e.path.0@, e.deleg.meta.version, e.deleg.env.raw@)
}

/// The delegation entries that survive a snapshot replacement, in order.
pub open spec fn evict_dels(dels: Seq<DelegEntry>, snap: crate::metadata::SnapshotMetadataM) -> Seq<DelegEntry>
    decreases dels.len(),
{
    if dels.len() == 0 {
        Seq::empty()
    } else {
        let rest = evict_dels(dels.drop_last(), snap);
        if deleg_kept(snap, dels.last()) {
            rest.push(dels.last())
        } else {
            rest
        }
    }
}

/// Surviving entries were entries before; their well-formedness carries over.
proof fn lemma_evict_wf(dels: Seq<DelegEntry>, snap: crate::metadata::SnapshotMetadataM)
    requires
        forall|k: int| 0 <= k < dels.len()
            ==> targets_pair_wf((#[trigger] dels[k]).deleg.env, dels[k].deleg.meta),
    ensures
        forall|k: int| 0 <= k < evict_dels(dels, snap).len()
            ==> targets_pair_wf((#[trigger] evict_dels(dels, snap)[k]).deleg.env,
                evict_dels(dels, snap)[k].deleg.meta),
    decreases dels.len(),
{
    if dels.len() > 0 {
        assert(forall|k: int| 0 <= k < dels.drop_last().len()
            ==> (#[trigger] dels.drop_last()[k]) == dels[k]);
        lemma_evict_wf(dels.drop_last(), snap);
        let rest = evict_dels(dels.drop_last(), snap);
        let whole = evict_dels(dels, snap);
        if deleg_kept(snap, dels.last()) {
            assert(whole == rest.push(dels.last()));
            assert forall|k: int| 0 <= k < whole.len()
                implies targets_pair_wf((#[trigger] whole[k]).deleg.env, whole[k].deleg.meta) by {
                if k < rest.len() {
                    assert(whole[k] == rest[k]);
                } else {
                    assert(whole[k] == dels.last());
                    assert(dels.last() == dels[dels.len() - 1]);
                }
            }
        }
    }
}

/// Check whether the new snapshot still vouches for a delegation entry.
fn deleg_kept_exec(snap: &SnapshotMetadata, e: &DelegEntry) -> (r: bool)
    ensures
        r == deleg_kept(snap.m(), *e),
{
    match snap_lookup_exec(&snap.metas, &e.path.0) {
        Option::None => false,
        Option::Some(d) => check_desc(&d, e.deleg.meta.version, &e.deleg.env.raw),
    }
}

/// Drop every delegation entry the new snapshot no longer vouches for.
fn filter_dels(dels: &mut Vec<DelegEntry>, snap: &SnapshotMetadata)
    ensures
        final(dels)@ == evict_dels(old(dels)@, snap.m()),
{
    let ghost orig = dels@;
    let mut rev: Vec<DelegEntry> = Vec::new();
    while dels.len() > 0
        invariant
            dels@ == orig.take(dels@.len() as int),
            rev@.len() + dels@.len() == orig.len(),
            forall|j: int| 0 <= j < rev@.len() ==> rev@[j] == orig[orig.len() - 1 - j],
        decreases dels.len(),
    {
        let ghost pre = dels@;
        let e = dels.pop().unwrap();
        rev.push(e);
        proof {
            assert(dels@ =~= orig.take(dels@.len() as int));
        }
    }
    while rev.len() > 0
        invariant
            rev@.len() <= orig.len(),
            forall|j: int| 0 <= j < rev@.len() ==> rev@[j] == orig[orig.len() - 1 - j],
            dels@ == evict_dels(orig.take(orig.len() - rev@.len()), snap.m()),
        decreases rev.len(),
    {
        let ghost k = rev@.len() as int;
        let e = rev.pop().unwrap();
        proof {
            assert(e == orig[orig.len() - k]);
            assert(orig.take(orig.len() - k + 1).drop_last() =~= orig.take(orig.len() - k));
            assert(orig.take(orig.len() - k + 1).last() == orig[orig.len() - k]);
        }
        if deleg_kept_exec(snap, &e) {
            dels.push(e);
        }
    }
    proof {
        assert(orig.take(orig.len() as int) =~= orig);
    }
}

/// Parse a snapshot role from raw envelope bytes.
pub open spec fn sn_parsed(raw: Seq<u8>) -> Option<(EnvelopeM, crate::metadata::SnapshotMetadataM)> {
    match parsed_role(raw) {
        Option::Some(p) => match p.1 {
            MetadataM::Snapshot(s) => Option::Some((p.0, s)),
            _ => Option::None,
        },
        Option::None => Option::None,
    }
}

/// When a snapshot admission succeeds: a timestamp is trusted, the bytes
/// parse to a snapshot matching the timestamp's description, it verifies
/// against the root's snapshot role, it is not expired, and its version is
/// ahead of the trusted one (or equal with identical bytes).
pub open spec fn sn_admissible(db: Database, raw: Seq<u8>, now: u64) -> bool {
    sn_parsed(raw) matches Some(p) && {
        &&& db.timestamp is Some
        &&& desc_matches(db.timestamp.unwrap().snapshot, p.1.version, raw)
        &&& env_verified(db.root.keys@, db.root.snapshot_role.key_ids@, p.0,
            db.root.snapshot_role.threshold)
        &&& p.1.expires >= now
        &&& match db.snapshot {
            Option::None => true,
            Option::Some(cur) => p.1.version > cur.version
                || (p.1.version == cur.version && db.snapshot_env.unwrap().raw@ == raw),
        }
    }
}

impl Database {
    /// Admit a snapshot envelope: require a trusted timestamp, match the
    /// timestamp's snapshot description, verify against the root's snapshot
    /// role, reject expired or rolled-back versions, store it, and evict
    /// retained targets and delegations whose recorded descriptions the new
    /// snapshot no longer vouches for.
    pub fn update_snapshot(&mut self, raw: &Vec<u8>, now: u64) -> (r: Result<bool, Error>)
        requires
            old(self).wf(),
        ensures
            final(self).wf(),
            r is Err ==> *final(self) == *old(self),
            r is Ok <==> sn_admissible(*old(self), raw@, now),
            r matches Ok(false) ==> *final(self) == *old(self),
            r matches Ok(false) ==> old(self).snapshot matches Some(cur)
                && sn_parsed(raw@).unwrap().1.version == cur.version,
            r matches Ok(true) ==> ({
                let p = sn_parsed(raw@).unwrap();
                &&& final(self).snapshot matches Some(s) && s.m() == p.1
                &&& final(self).snapshot_env matches Some(rs) && rs.raw@ == raw@
                    && rs.env.m() == p.0
                &&& (old(self).snapshot matches Some(cur) ==> p.1.version > cur.version)
                &&& final(self).root == old(self).root
                &&& final(self).root_env == old(self).root_env
                &&& final(self).timestamp == old(self).timestamp
                &&& final(self).timestamp_env == old(self).timestamp_env
                &&& final(self).targets == (match old(self).targets {
                    Option::Some(t) => if meta_entry_kept(p.1, targets_path_m(), t.version,
                        old(self).targets_env.unwrap().raw@) {
                        Option::Some(t)
                    } else {
                        Option::None::<TargetsMetadata>
                    },
                    Option::None => Option::None::<TargetsMetadata>,
                })
                &&& (final(self).targets is Some ==> final(self).targets_env
                    == old(self).targets_env)
                &&& final(self).delegations@ == evict_dels(old(self).delegations@, p.1)
            }),
            match sn_parsed(raw@) {
                Option::None => r == Err::<bool, Error>(Error::MalformedMetadata),
                Option::Some(p) => {
                    &&& (old(self).timestamp is None ==> (r matches Err(e)
                        && (e matches Error::MetadataNotFound { path }
                            && path@ == timestamp_path_m())))
                    &&& (old(self).timestamp is Some
                        && !desc_matches(old(self).timestamp.unwrap().snapshot, p.1.version, raw@)
                        ==> r == Err::<bool, Error>(Error::MalformedMetadata))
                    &&& (old(self).timestamp is Some
                        && desc_matches(old(self).timestamp.unwrap().snapshot, p.1.version, raw@)
                        && !env_verified(old(self).root.keys@, old(self).root.snapshot_role.key_ids@,
                            p.0, old(self).root.snapshot_role.threshold)
                        ==> r == Err::<bool, Error>(Error::VerificationFailure {
                            role: RoleKind::Snapshot,
                            got: signer_set(old(self).root.keys@,
                                old(self).root.snapshot_role.key_ids@, p.0.payload,
                                p.0.sigs).len() as u64,
                            need: old(self).root.snapshot_role.threshold,
                        }))
                    &&& (old(self).timestamp is Some
                        && desc_matches(old(self).timestamp.unwrap().snapshot, p.1.version, raw@)
                        && env_verified(old(self).root.keys@, old(self).root.snapshot_role.key_ids@,
                            p.0, old(self).root.snapshot_role.threshold)
                        && p.1.expires < now
                        ==> r == Err::<bool, Error>(Error::Expired {
                            role: RoleKind::Snapshot,
                            expired_at: p.1.expires,
                        }))
                    &&& ((old(self).snapshot matches Some(cur)
                        && (old(self).timestamp is Some
                            && desc_matches(old(self).timestamp.unwrap().snapshot, p.1.version,
                                raw@)
                            && env_verified(old(self).root.keys@,
                                old(self).root.snapshot_role.key_ids@, p.0,
                                old(self).root.snapshot_role.threshold)
                            && p.1.expires >= now
                            && (p.1.version < cur.version || (p.1.version == cur.version
                                && old(self).snapshot_env.unwrap().raw@ != raw@))))
                        ==> r == Err::<bool, Error>(Error::VersionLessThanCurrent {
                            role: RoleKind::Snapshot,
                            got: p.1.version,
                            current: old(self).snapshot.unwrap().version,
                        }))
                },
            },
    {
        let (env, meta) = match parse_signed(raw) {
            Option::None => { return Err(Error::MalformedMetadata); },
            Option::Some(p) => p,
        };
        let sn = match meta {
            Metadata::Snapshot(s) => s,
            _ => { return Err(Error::MalformedMetadata); },
        };
        let ts_desc = match &self.timestamp {
            Option::None => {
                return Err(Error::MetadataNotFound { path: timestamp_path() });
            },
            Option::Some(cur) => cur.snapshot,
        };
        if !check_desc(&ts_desc, sn.version, raw) {
            return Err(Error::MalformedMetadata);
        }
        match verify_role(&self.root.keys, &self.root.snapshot_role.key_ids,
            self.root.snapshot_role.threshold, &env.payload, &env.sigs, RoleKind::Snapshot) {
            Result::Err(e) => { return Err(e); },
            Result::Ok(()) => {},
        }
        if sn.expires < now {
            return Err(Error::Expired { role: RoleKind::Snapshot, expired_at: sn.expires });
        }
        match &self.snapshot {
            Option::Some(cur) => {
                if sn.version < cur.version {
                    return Err(Error::VersionLessThanCurrent {
                        role: RoleKind::Snapshot,
                        got: sn.version,
                        current: cur.version,
                    });
                }
                if sn.version == cur.version {
                    let same = match &self.snapshot_env {
                        Option::Some(rs) => bytes_eq(&rs.raw, raw),
                        Option::None => false,
                    };
                    if same {
                        return Ok(false);
                    } else {
                        return Err(Error::VersionLessThanCurrent {
                            role: RoleKind::Snapshot,
                            got: sn.version,
                            current: cur.version,
                        });
                    }
                }
            },
            Option::None => {},
        }
        // Evict the targets metadata if the new snapshot no longer vouches
        // for the admitted bytes.
        let mut keep_targets = false;
        match (&self.targets, &self.targets_env) {
            (Option::Some(t), Option::Some(rs)) => {
                let tp = targets_path();
                match snap_lookup_exec(&sn.metas, &tp) {
                    Option::Some(d) => {
                        if check_desc(&d, t.version, &rs.raw) {
                            keep_targets = true;
                        }
                    },
                    Option::None => {},
                }
            },
            _ => {},
        }
        if !keep_targets {
            self.targets = None;
            self.targets_env = None;
        }
        filter_dels(&mut self.delegations, &sn);
        let raw_copy = copy_bytes(raw);
        proof {
            lemma_evict_wf(old(self).delegations@, sn.m());
        }
        self.snapshot_env = Some(RawSigned { raw: raw_copy, env });
        self.snapshot = Some(sn);
        Ok(true)
    }
}

/// Parse a targets role from raw envelope bytes.
pub open spec fn tg_parsed(raw: Seq<u8>) -> Option<(EnvelopeM, crate::metadata::TargetsMetadataM)> {
    match parsed_role(raw) {
        Option::Some(p) => match p.1 {
            MetadataM::Targets(t) => Option::Some((p.0, t)),
            _ => Option::None,
        },
        Option::None => Option::None,
    }
}

/// When a top-level targets admission succeeds.
pub open spec fn tg_admissible(db: Database, raw: Seq<u8>, now: u64) -> bool {
    tg_parsed(raw) matches Some(p) && {
        &&& db.snapshot is Some
        &&& snap_lookup(db.snapshot.unwrap().m().metas, targets_path_m()) matches Some(d)
            && desc_matches(d, p.1.version, raw)
        &&& env_verified(db.root.keys@, db.root.targets_role.key_ids@, p.0,
            db.root.targets_role.threshold)
        &&& p.1.expires >= now
        &&& match db.targets {
            Option::None => true,
            Option::Some(cur) => p.1.version > cur.version
                || (p.1.version == cur.version && db.targets_env.unwrap().raw@ == raw),
        }
    }
}

impl Database {
    /// Admit the top-level targets envelope: require a trusted snapshot,
    /// match the snapshot's description of `targets`, verify against the
    /// root's targets role, reject expired or rolled-back versions, store.
    pub fn update_targets(&mut self, raw: &Vec<u8>, now: u64) -> (r: Result<bool, Error>)
        requires
            old(self).wf(),
        ensures
            final(self).wf(),
            r is Err ==> *final(self) == *old(self),
            r is Ok <==> tg_admissible(*old(self), raw@, now),
            r matches Ok(false) ==> *final(self) == *old(self),
            r matches Ok(false) ==> old(self).targets matches Some(cur)
                && tg_parsed(raw@).unwrap().1.version == cur.version,
            r matches Ok(true) ==> ({
                let p = tg_parsed(raw@).unwrap();
                &&& final(self).targets matches Some(t) && t.m() == p.1
                &&& final(self).targets_env matches Some(rs) && rs.raw@ == raw@
                    && rs.env.m() == p.0
                &&& (old(self).targets matches Some(cur) ==> p.1.version > cur.version)
                &&& final(self).root == old(self).root
                &&& final(self).root_env == old(self).root_env
                &&& final(self).timestamp == old(self).timestamp
                &&& final(self).timestamp_env == old(self).timestamp_env
                &&& final(self).snapshot == old(self).snapshot
                &&& final(self).snapshot_env == old(self).snapshot_env
                &&& final(self).delegations == old(self).delegations
            }),
            match tg_parsed(raw@) {
                Option::None => r == Err::<bool, Error>(Error::MalformedMetadata),
                Option::Some(p) => {
                    &&& (old(self).snapshot is None ==> (r matches Err(e)
                        && (e matches Error::MetadataNotFound { path }
                            && path@ == snapshot_path_m())))
                    &&& (old(self).snapshot is Some
                        && snap_lookup(old(self).snapshot.unwrap().m().metas, targets_path_m())
                            is None
                        ==> (r matches Err(e) && (e matches Error::MetadataNotFound { path }
                            && path@ == targets_path_m())))
                    &&& (match old(self).snapshot {
                        Option::Some(sn) => match snap_lookup(sn.m().metas, targets_path_m()) {
                            Option::Some(d) => {
                                &&& (desc_matches(d, p.1.version, raw@)
                                    && !env_verified(old(self).root.keys@,
                                        old(self).root.targets_role.key_ids@, p.0,
                                        old(self).root.targets_role.threshold)
                                    ==> r == Err::<bool, Error>(Error::VerificationFailure {
                                        role: RoleKind::Targets,
                                        got: signer_set(old(self).root.keys@,
                                            old(self).root.targets_role.key_ids@, p.0.payload,
                                            p.0.sigs).len() as u64,
                                        need: old(self).root.targets_role.threshold,
                                    }))
                                &&& (desc_matches(d, p.1.version, raw@)
                                    && env_verified(old(self).root.keys@,
                                        old(self).root.targets_role.key_ids@, p.0,
                                        old(self).root.targets_role.threshold)
                                    && p.1.expires < now
                                    ==> r == Err::<bool, Error>(Error::Expired {
                                        role: RoleKind::Targets,
                                        expired_at: p.1.expires,
                                    }))
                                &&& ((old(self).targets matches Some(cur)
                                    && (desc_matches(d, p.1.version, raw@)
                                        && env_verified(old(self).root.keys@,
                                            old(self).root.targets_role.key_ids@, p.0,
                                            old(self).root.targets_role.threshold)
                                        && p.1.expires >= now
                                        && (p.1.version < cur.version
                                            || (p.1.version == cur.version
                                                && old(self).targets_env.unwrap().raw@ != raw@))))
                                    ==> r == Err::<bool, Error>(Error::VersionLessThanCurrent {
                                        role: RoleKind::Targets,
                                        got: p.1.version,
                                        current: old(self).targets.unwrap().version,
                                    }))
                            },
                            Option::None => true,
                        },
                        Option::None => true,
                    })
                },
            },
    {
        let (env, meta) = match parse_signed(raw) {
            Option::None => { return Err(Error::MalformedMetadata); },
            Option::Some(p) => p,
        };
        let tg = match meta {
            Metadata::Targets(t) => t,
            _ => { return Err(Error::MalformedMetadata); },
        };
        let tp = targets_path();
        let desc = match &self.snapshot {
            Option::None => {
                return Err(Error::MetadataNotFound { path: snapshot_path() });
            },
            Option::Some(sn) => match snap_lookup_exec(&sn.metas, &tp) {
                Option::None => {
                    return Err(Error::MetadataNotFound { path: tp });
                },
                Option::Some(d) => d,
            },
        };
        if !check_desc(&desc, tg.version, raw) {
            return Err(Error::MalformedMetadata);
        }
        match verify_role(&self.root.keys, &self.root.targets_role.key_ids,
            self.root.targets_role.threshold, &env.payload, &env.sigs, RoleKind::Targets) {
            Result::Err(e) => { return Err(e); },
            Result::Ok(()) => {},
        }
        if tg.expires < now {
            return Err(Error::Expired { role: RoleKind::Targets, expired_at: tg.expires });
        }
        match &self.targets {
            Option::Some(cur) => {
                if tg.version < cur.version {
                    return Err(Error::VersionLessThanCurrent {
                        role: RoleKind::Targets,
                        got: tg.version,
                        current: cur.version,
                    });
                }
                if tg.version == cur.version {
                    let same = match &self.targets_env {
                        Option::Some(rs) => bytes_eq(&rs.raw, raw),
                        Option::None => false,
                    };
                    if same {
                        return Ok(false);
                    } else {
                        return Err(Error::VersionLessThanCurrent {
                            role: RoleKind::Targets,
                            got: tg.version,
                            current: cur.version,
                        });
                    }
                }
            },
            Option::None => {},
        }
        let raw_copy = copy_bytes(raw);
        self.targets_env = Some(RawSigned { raw: raw_copy, env });
        self.targets = Some(tg);
        Ok(true)
    }
}

/// Parse a root role from raw envelope bytes.
pub open spec fn root_parsed(raw: Seq<u8>) -> Option<(EnvelopeM, crate::metadata::RootMetadataM)> {
    match parsed_role(raw) {
        Option::Some(p) => match p.1 {
            MetadataM::Root(rm) => Option::Some((p.0, rm)),
            _ => Option::None,
        },
        Option::None => Option::None,
    }
}

/// When a root rotation succeeds: the bytes parse to a well-formed root
/// that verifies against both the outgoing and the incoming root role (the
/// rotation rule), with a version strictly ahead of the trusted one, or
/// equal with identical bytes. Expiration is not checked for root.
pub open spec fn rt_admissible(db: Database, raw: Seq<u8>) -> bool {
    root_parsed(raw) matches Some(p) && {
        &&& root_wf(p.1)
        &&& env_verified(db.root.keys@, db.root.root_role.key_ids@, p.0,
            db.root.root_role.threshold)
        &&& env_verified(p.1.keys, p.1.root_role.key_ids, p.0, p.1.root_role.threshold)
        &&& (p.1.version > db.root.version
            || (p.1.version == db.root.version && db.root_env.raw@ == raw))
    }
}

/// Whether a retained envelope still verifies under a role definition of
/// the new root.
pub open spec fn kept_under(newroot: crate::metadata::RootMetadataM, role: RoleDefM, env: Option<RawSigned>) -> bool {
    env matches Some(rs) && env_verified(newroot.keys, role.key_ids, rs.env.m(), role.threshold)
}

impl Database {
    /// Rotate the root. The new root must verify against the outgoing
    /// root's root role and against its own declared root role; its version
    /// must advance. On success, retained timestamp, snapshot and targets
    /// metadata whose signatures no longer meet the new root's role
    /// definitions are discarded, and the delegation tree is cleared when
    /// the targets role is discarded.
    pub fn update_root(&mut self, raw: &Vec<u8>) -> (r: Result<bool, Error>)
        requires
            old(self).wf(),
        ensures
            final(self).wf(),
            r is Err ==> *final(self) == *old(self),
            r is Ok <==> rt_admissible(*old(self), raw@),
            r matches Ok(false) ==> *final(self) == *old(self),
            r matches Ok(false) ==> root_parsed(raw@).unwrap().1.version
                == old(self).root.version,
            r matches Ok(true) ==> ({
                let p = root_parsed(raw@).unwrap();
                &&& final(self).root.m() == p.1
                &&& final(self).root_env.raw@ == raw@
                &&& final(self).root_env.env.m() == p.0
                &&& p.1.version > old(self).root.version
                &&& final(self).timestamp == (if kept_under(p.1, p.1.timestamp_role,
                    old(self).timestamp_env) {
                    old(self).timestamp
                } else {
                    Option::None::<TimestampMetadata>
                })
                &&& (final(self).timestamp is Some ==> final(self).timestamp_env
                    == old(self).timestamp_env)
                &&& final(self).snapshot == (if kept_under(p.1, p.1.snapshot_role,
                    old(self).snapshot_env) {
                    old(self).snapshot
                } else {
                    Option::None::<SnapshotMetadata>
                })
                &&& (final(self).snapshot is Some ==> final(self).snapshot_env
                    == old(self).snapshot_env)
                &&& final(self).targets == (if kept_under(p.1, p.1.targets_role,
                    old(self).targets_env) {
                    old(self).targets
                } else {
                    Option::None::<TargetsMetadata>
                })
                &&& (final(self).targets is Some ==> final(self).targets_env
                    == old(self).targets_env)
                &&& final(self).delegations@ == (if final(self).targets is Some {
                    old(self).delegations@
                } else {
                    Seq::<DelegEntry>::empty()
                })
            }),
            match root_parsed(raw@) {
                Option::None => r == Err::<bool, Error>(Error::MalformedMetadata),
                Option::Some(p) => {
                    &&& (!root_wf(p.1) ==> r == Err::<bool, Error>(Error::MalformedMetadata))
                    &&& (root_wf(p.1) && !env_verified(old(self).root.keys@,
                        old(self).root.root_role.key_ids@, p.0, old(self).root.root_role.threshold)
                        ==> r == Err::<bool, Error>(Error::VerificationFailure {
                            role: RoleKind::Root,
                            got: signer_set(old(self).root.keys@, old(self).root.root_role.key_ids@,
                                p.0.payload, p.0.sigs).len() as u64,
                            need: old(self).root.root_role.threshold,
                        }))
                    &&& (root_wf(p.1) && env_verified(old(self).root.keys@,
                        old(self).root.root_role.key_ids@, p.0, old(self).root.root_role.threshold)
                        && !env_verified(p.1.keys, p.1.root_role.key_ids, p.0,
                            p.1.root_role.threshold)
                        ==> r == Err::<bool, Error>(Error::VerificationFailure {
                            role: RoleKind::Root,
                            got: signer_set(p.1.keys, p.1.root_role.key_ids, p.0.payload,
                                p.0.sigs).len() as u64,
                            need: p.1.root_role.threshold,
                        }))
                    &&& (root_wf(p.1) && env_verified(old(self).root.keys@,
                        old(self).root.root_role.key_ids@, p.0, old(self).root.root_role.threshold)
                        && env_verified(p.1.keys, p.1.root_role.key_ids, p.0,
                            p.1.root_role.threshold)
                        && (p.1.version < old(self).root.version
                            || (p.1.version == old(self).root.version
                                && old(self).root_env.raw@ != raw@))
                        ==> r == Err::<bool, Error>(Error::VersionLessThanCurrent {
                            role: RoleKind::Root,
                            got: p.1.version,
                            current: old(self).root.version,
                        }))
                },
            },
    {
        let (env, meta) = match parse_signed(raw) {
            Option::None => { return Err(Error::MalformedMetadata); },
            Option::Some(p) => p,
        };
        let new_root = match meta {
            Metadata::Root(rm) => rm,
            _ => { return Err(Error::MalformedMetadata); },
        };
        if !(check_role_def(&new_root.root_role) && check_role_def(&new_root.timestamp_role)
            && check_role_def(&new_root.snapshot_role) && check_role_def(&new_root.targets_role)) {
            return Err(Error::MalformedMetadata);
        }
        match verify_role(&self.root.keys, &self.root.root_role.key_ids,
            self.root.root_role.threshold, &env.payload, &env.sigs, RoleKind::Root) {
            Result::Err(e) => { return Err(e); },
            Result::Ok(()) => {},
        }
        match verify_role(&new_root.keys, &new_root.root_role.key_ids,
            new_root.root_role.threshold, &env.payload, &env.sigs, RoleKind::Root) {
            Result::Err(e) => { return Err(e); },
            Result::Ok(()) => {},
        }
        if new_root.version < self.root.version {
            return Err(Error::VersionLessThanCurrent {
                role: RoleKind::Root,
                got: new_root.version,
                current: self.root.version,
            });
        }
        if new_root.version == self.root.version {
            if bytes_eq(&self.root_env.raw, raw) {
                return Ok(false);
            } else {
                return Err(Error::VersionLessThanCurrent {
                    role: RoleKind::Root,
                    got: new_root.version,
                    current: self.root.version,
                });
            }
        }
        // Re-verify the retained subordinate metadata under the new root's
        // role definitions; discard what no longer verifies.
        let keep_ts = match &self.timestamp_env {
            Option::Some(rs) => match verify_role(&new_root.keys,
                &new_root.timestamp_role.key_ids, new_root.timestamp_role.threshold,
                &rs.env.payload, &rs.env.sigs, RoleKind::Timestamp) {
                Result::Ok(()) => true,
                Result::Err(_) => false,
            },
            Option::None => false,
        };
        let keep_sn = match &self.snapshot_env {
            Option::Some(rs) => match verify_role(&new_root.keys,
                &new_root.snapshot_role.key_ids, new_root.snapshot_role.threshold,
                &rs.env.payload, &rs.env.sigs, RoleKind::Snapshot) {
                Result::Ok(()) => true,
                Result::Err(_) => false,
            },
            Option::None => false,
        };
        let keep_tg = match &self.targets_env {
            Option::Some(rs) => match verify_role(&new_root.keys,
                &new_root.targets_role.key_ids, new_root.targets_role.threshold,
                &rs.env.payload, &rs.env.sigs, RoleKind::Targets) {
                Result::Ok(()) => true,
                Result::Err(_) => false,
            },
            Option::None => false,
        };
        if !keep_ts {
            self.timestamp = None;
            self.timestamp_env = None;
        }
        if !keep_sn {
            self.snapshot = None;
            self.snapshot_env = None;
        }
        if !keep_tg {
            self.targets = None;
            self.targets_env = None;
            self.delegations = Vec::new();
        }
        let raw_copy = copy_bytes(raw);
        self.root_env = RawSigned { raw: raw_copy, env };
        self.root = new_root;
        Ok(true)
    }
}

/// The first delegation record of `roles` naming `child`; first match is
/// the authoritative record for the edge.
pub open spec fn find_record(roles: Seq<Delegation>, child: Seq<u8>) -> Option<Delegation>
    decreases roles.len(),
{
    if roles.len() == 0 {
        Option::None
    } else if roles[0].role.0@ == child {
        Option::Some(roles[0])
    } else {
        find_record(roles.drop_first(), child)
    }
}

/// Find the first delegation record naming `child`; returns its index.
fn find_record_exec(roles: &Vec<Delegation>, child: &Vec<u8>) -> (r: Option<usize>)
    ensures
        match find_record(roles@, child@) {
            Option::None => r is None,
            Option::Some(rec) => r matches Some(i) && i < roles@.len() && roles@[i as int] == rec,
        },
{
    let mut i: usize = 0;
    proof {
        assert(roles@.skip(0) =~= roles@);
    }
    while i < roles.len()
        invariant
            i <= roles.len(),
            find_record(roles@, child@) == find_record(roles@.skip(i as int), child@),
        decreases roles.len() - i,
    {
        let ghost s = roles@.skip(i as int);
        proof {
            assert(s[0] == roles@[i as int]);
            assert(s.drop_first() =~= roles@.skip(i + 1));
        }
        if bytes_eq(&roles[i].role.0, child) {
            return Some(i);
        }
        i = i + 1;
    }
    proof {
        assert(roles@.skip(roles@.len() as int).len() == 0);
    }
    None
}

/// The delegation-tree entry for `path`; the latest admission wins.
pub open spec fn deleg_lookup(dels: Seq<DelegEntry>, path: Seq<u8>) -> Option<DelegEntry>
    decreases dels.len(),
{
    if dels.len() == 0 {
        Option::None
    } else if dels.last().path.0@ == path {
        Option::Some(dels.last())
    } else {
        deleg_lookup(dels.drop_last(), path)
    }
}

/// Find the delegation-tree entry for `path`; returns its index.
fn deleg_lookup_exec(dels: &Vec<DelegEntry>, path: &Vec<u8>) -> (r: Option<usize>)
    ensures
        match deleg_lookup(dels@, path@) {
            Option::None => r is None,
            Option::Some(e) => r matches Some(i) && i < dels@.len() && dels@[i as int] == e,
        },
{
    let mut i: usize = 0;
    let mut best: Option<usize> = None;
    while i < dels.len()
        invariant
            i <= dels.len(),
            match deleg_lookup(dels@.take(i as int), path@) {
                Option::None => best is None,
                Option::Some(e) => best matches Some(j) && j < i && dels@[j as int] == e,
            },
        decreases dels.len() - i,
    {
        proof {
            assert(dels@.take(i + 1).drop_last() =~= dels@.take(i as int));
            assert(dels@.take(i + 1).last() == dels@[i as int]);
        }
        if bytes_eq(&dels[i].path.0, path) {
            best = Some(i);
        }
        i = i + 1;
    }
    proof {
        assert(dels@.take(dels@.len() as int) =~= dels@);
    }
    best
}

/// Copy a list of key identifiers.
fn copy_u64s(src: &Vec<u64>) -> (r: Vec<u64>)
    ensures
        r@ == src@,
{
    let mut out: Vec<u64> = Vec::new();
    let mut i: usize = 0;
    while i < src.len()
        invariant
            i <= src.len(),
            out@ == src@.take(i as int),
        decreases src.len() - i,
    {
        out.push(src[i]);
        proof {
            assert(src@.take(i + 1) =~= src@.take(i as int).push(src@[i as int]));
        }
        i = i + 1;
    }
    proof {
        assert(src@.take(src@.len() as int) =~= src@);
    }
    out
}

/// Copy a list of target paths.
fn copy_paths(src: &Vec<TargetPath>) -> (r: Vec<TargetPath>)
    ensures
        m_seq(r@) == m_seq(src@),
{
    let mut out: Vec<TargetPath> = Vec::new();
    let mut i: usize = 0;
    while i < src.len()
        invariant
            i <= src.len(),
            m_seq(out@) == m_seq(src@).take(i as int),
        decreases src.len() - i,
    {
        let ghost pre = out@;
        let np = TargetPath(copy_bytes(&src[i].0));
        proof {
            assert(np.m() == src@[i as int].m());
        }
        out.push(np);
        proof {
            assert(m_seq(pre).len() == pre.len());
            assert(pre.len() == i as int);
            assert(out@ == pre.push(np));
            assert(out@.len() == i + 1);
            assert forall|j: int| 0 <= j < out@.len()
                implies m_seq(out@)[j] == m_seq(src@).take(i + 1)[j] by {
                if j < i {
                    assert(out@[j] == pre[j]);
                    assert(m_seq(pre)[j] == m_seq(src@).take(i as int)[j]);
                } else {
                    assert(out@[j] == np);
                }
            }
            assert(m_seq(out@) =~= m_seq(src@).take(i + 1));
        }
        i = i + 1;
    }
    proof {
        assert(m_seq(src@).take(m_seq(src@).len() as int) =~= m_seq(src@));
    }
    out
}

/// The targets metadata a parent path names: the top-level targets for
/// `targets`, else the delegation tree's entry.
pub open spec fn parent_meta(db: Database, parent: Seq<u8>) -> Option<TargetsMetadata> {
    if parent == targets_path_m() {
        db.targets
    } else {
        match deleg_lookup(db.delegations@, parent) {
            Option::Some(e) => Option::Some(e.deleg.meta),
            Option::None => Option::None,
        }
    }
}

/// When a delegation admission succeeds: the parent is trusted, its first
/// record for the child authorizes the envelope at the record's threshold,
/// the current snapshot vouches for the child's bytes, the child is not
/// expired, and its version is ahead of any prior admission through the
/// same parent edge.
pub open spec fn dg_admissible(db: Database, parent: Seq<u8>, child: Seq<u8>, raw: Seq<u8>, now: u64) -> bool {
    tg_parsed(raw) matches Some(p) && {
        &&& parent_meta(db, parent) matches Some(pm)
        &&& find_record(pm.delegations.roles@, child) matches Some(rec)
        &&& 1 <= rec.threshold <= rec.key_ids@.len()
        &&& env_verified(pm.delegations.keys@, rec.key_ids@, p.0, rec.threshold)
        &&& db.snapshot matches Some(sn)
        &&& snap_lookup(sn.m().metas, child) matches Some(d)
        &&& desc_matches(d, p.1.version, raw)
        &&& p.1.expires >= now
        &&& match deleg_lookup(db.delegations@, child) {
            Option::None => true,
            Option::Some(e) => e.deleg.parent.0@ != parent || p.1.version > e.deleg.meta.version
                || (p.1.version == e.deleg.meta.version && e.deleg.env.raw@ == raw),
        }
    }
}

impl Database {
    /// Admit a delegated targets envelope through the edge
    /// `(parent_path, child_path)`: the parent's first delegation record
    /// naming the child gives the authorized keys and threshold; the
    /// current snapshot must vouch for the bytes; versions are monotonic
    /// per parent edge. The admitted child is recorded with the edge that
    /// admitted it.
    pub fn update_delegation(&mut self, parent_path: &MetadataPath, child_path: &MetadataPath, raw: &Vec<u8>, now: u64) -> (r: Result<bool, Error>)
        requires
            old(self).wf(),
        ensures
            final(self).wf(),
            r is Err ==> *final(self) == *old(self),
            r is Ok <==> dg_admissible(*old(self), parent_path.0@, child_path.0@, raw@, now),
            r matches Ok(false) ==> *final(self) == *old(self),
            r matches Ok(false) ==> deleg_lookup(old(self).delegations@, child_path.0@)
                matches Some(e) && e.deleg.parent.0@ == parent_path.0@
                && tg_parsed(raw@).unwrap().1.version == e.deleg.meta.version,
            r matches Ok(true) ==> ({
                let p = tg_parsed(raw@).unwrap();
                let pm = parent_meta(*old(self), parent_path.0@).unwrap();
                let rec = find_record(pm.delegations.roles@, child_path.0@).unwrap();
                &&& final(self).delegations@.len() == old(self).delegations@.len() + 1
                &&& final(self).delegations@.drop_last() == old(self).delegations@
                &&& ({
                    let e = final(self).delegations@.last();
                    &&& e.path.0@ == child_path.0@
                    &&& e.deleg.meta.m() == p.1
                    &&& e.deleg.env.raw@ == raw@
                    &&& e.deleg.env.env.m() == p.0
                    &&& e.deleg.parent.0@ == parent_path.0@
                    &&& m_seq(e.deleg.paths@) == m_seq(rec.paths@)
                    &&& e.deleg.terminating == rec.terminating
                })
                &&& final(self).root == old(self).root
                &&& final(self).root_env == old(self).root_env
                &&& final(self).timestamp == old(self).timestamp
                &&& final(self).timestamp_env == old(self).timestamp_env
                &&& final(self).snapshot == old(self).snapshot
                &&& final(self).snapshot_env == old(self).snapshot_env
                &&& final(self).targets == old(self).targets
                &&& final(self).targets_env == old(self).targets_env
            }),
            match tg_parsed(raw@) {
                Option::None => r == Err::<bool, Error>(Error::MalformedMetadata),
                Option::Some(p) => {
                    &&& (parent_meta(*old(self), parent_path.0@) is None ==> (r matches Err(e)
                        && (e matches Error::MetadataNotFound { path }
                            && path@ == parent_path.0@)))
                    &&& (parent_meta(*old(self), parent_path.0@) matches Some(pm)
                        && find_record(pm.delegations.roles@, child_path.0@) is None
                        ==> r == Err::<bool, Error>(Error::NotAuthorized))
                    &&& (match parent_meta(*old(self), parent_path.0@) {
                        Option::Some(pm) => match find_record(pm.delegations.roles@,
                            child_path.0@) {
                            Option::Some(rec) => {
                                let wfrec = 1 <= rec.threshold <= rec.key_ids@.len();
                                let verified = env_verified(pm.delegations.keys@, rec.key_ids@,
                                    p.0, rec.threshold);
                                &&& (!wfrec ==> r == Err::<bool, Error>(Error::MalformedMetadata))
                                &&& (wfrec && !verified
                                    ==> r == Err::<bool, Error>(Error::VerificationFailure {
                                        role: RoleKind::Delegated,
                                        got: signer_set(pm.delegations.keys@, rec.key_ids@,
                                            p.0.payload, p.0.sigs).len() as u64,
                                        need: rec.threshold,
                                    }))
                                &&& (wfrec && verified && old(self).snapshot is None
                                    ==> (r matches Err(e)
                                        && (e matches Error::MetadataNotFound { path }
                                            && path@ == snapshot_path_m())))
                                &&& (match old(self).snapshot {
                                    Option::Some(sn) => match snap_lookup(sn.m().metas,
                                        child_path.0@) {
                                        Option::None => wfrec && verified
                                            ==> (r matches Err(e)
                                                && (e matches Error::MetadataNotFound { path }
                                                    && path@ == child_path.0@)),
                                        Option::Some(d) => {
                                            &&& (wfrec && verified
                                                && !desc_matches(d, p.1.version, raw@)
                                                ==> r == Err::<bool, Error>(
                                                    Error::MalformedMetadata))
                                            &&& (wfrec && verified
                                                && desc_matches(d, p.1.version, raw@)
                                                && p.1.expires < now
                                                ==> r == Err::<bool, Error>(Error::Expired {
                                                    role: RoleKind::Delegated,
                                                    expired_at: p.1.expires,
                                                }))
                                            &&& (match deleg_lookup(old(self).delegations@,
                                                child_path.0@) {
                                                Option::Some(e2) => (e2.deleg.parent.0@
                                                        == parent_path.0@
                                                    && wfrec && verified
                                                    && desc_matches(d, p.1.version, raw@)
                                                    && p.1.expires >= now
                                                    && (p.1.version < e2.deleg.meta.version
                                                        || (p.1.version == e2.deleg.meta.version
                                                            && e2.deleg.env.raw@ != raw@)))
                                                    ==> r == Err::<bool, Error>(
                                                        Error::VersionLessThanCurrent {
                                                        role: RoleKind::Delegated,
                                                        got: p.1.version,
                                                        current: e2.deleg.meta.version,
                                                    }),
                                                Option::None => true,
                                            })
                                        },
                                    },
                                    Option::None => true,
                                })
                            },
                            Option::None => true,
                        },
                        Option::None => true,
                    })
                },
            },
    {
        let (env, meta) = match parse_signed(raw) {
            Option::None => { return Err(Error::MalformedMetadata); },
            Option::Some(p) => p,
        };
        let child = match meta {
            Metadata::Targets(t) => t,
            _ => { return Err(Error::MalformedMetadata); },
        };
        // Resolve the parent and extract the authoritative record's data.
        let is_top = {
            let tp = targets_path();
            bytes_eq(&parent_path.0, &tp)
        };
        let (keys, authorized, threshold, rec_paths, rec_terminating): (Vec<u64>, Vec<u64>, u64, Vec<TargetPath>, bool);
        if is_top {
            let pm = match &self.targets {
                Option::None => {
                    return Err(Error::MetadataNotFound { path: copy_bytes(&parent_path.0) });
                },
                Option::Some(t) => t,
            };
            let i = match find_record_exec(&pm.delegations.roles, &child_path.0) {
                Option::None => { return Err(Error::NotAuthorized); },
                Option::Some(i) => i,
            };
            let rec = &pm.delegations.roles[i];
            keys = copy_u64s(&pm.delegations.keys);
            authorized = copy_u64s(&rec.key_ids);
            threshold = rec.threshold;
            rec_paths = copy_paths(&rec.paths);
            rec_terminating = rec.terminating;
        } else {
            let j = match deleg_lookup_exec(&self.delegations, &parent_path.0) {
                Option::None => {
                    return Err(Error::MetadataNotFound { path: copy_bytes(&parent_path.0) });
                },
                Option::Some(j) => j,
            };
            let pm = &self.delegations[j].deleg.meta;
            let i = match find_record_exec(&pm.delegations.roles, &child_path.0) {
                Option::None => { return Err(Error::NotAuthorized); },
                Option::Some(i) => i,
            };
            let rec = &pm.delegations.roles[i];
            keys = copy_u64s(&pm.delegations.keys);
            authorized = copy_u64s(&rec.key_ids);
            threshold = rec.threshold;
            rec_paths = copy_paths(&rec.paths);
            rec_terminating = rec.terminating;
        }
        if !(1 <= threshold && threshold <= authorized.len() as u64) {
            return Err(Error::MalformedMetadata);
        }
        match verify_role(&keys, &authorized, threshold, &env.payload, &env.sigs,
            RoleKind::Delegated) {
            Result::Err(e) => { return Err(e); },
            Result::Ok(()) => {},
        }
        let desc = match &self.snapshot {
            Option::None => {
                return Err(Error::MetadataNotFound { path: snapshot_path() });
            },
            Option::Some(sn) => match snap_lookup_exec(&sn.metas, &child_path.0) {
                Option::None => {
                    return Err(Error::MetadataNotFound { path: copy_bytes(&child_path.0) });
                },
                Option::Some(d) => d,
            },
        };
        if !check_desc(&desc, child.version, raw) {
            return Err(Error::MalformedMetadata);
        }
        if child.expires < now {
            return Err(Error::Expired { role: RoleKind::Delegated, expired_at: child.expires });
        }
        match deleg_lookup_exec(&self.delegations, &child_path.0) {
            Option::None => {},
            Option::Some(i) => {
                let e = &self.delegations[i];
                if bytes_eq(&e.deleg.parent.0, &parent_path.0) {
                    if child.version < e.deleg.meta.version {
                        return Err(Error::VersionLessThanCurrent {
                            role: RoleKind::Delegated,
                            got: child.version,
                            current: e.deleg.meta.version,
                        });
                    }
                    if child.version == e.deleg.meta.version {
                        if bytes_eq(&e.deleg.env.raw, raw) {
                            return Ok(false);
                        } else {
                            return Err(Error::VersionLessThanCurrent {
                                role: RoleKind::Delegated,
                                got: child.version,
                                current: e.deleg.meta.version,
                            });
                        }
                    }
                }
            },
        }
        let entry = DelegEntry {
            path: MetadataPath(copy_bytes(&child_path.0)),
            deleg: TrustedDelegation {
                env: RawSigned { raw: copy_bytes(raw), env },
                meta: child,
                parent: MetadataPath(copy_bytes(&parent_path.0)),
                paths: rec_paths,
                terminating: rec_terminating,
            },
        };
        let ghost pre = self.delegations@;
        self.delegations.push(entry);
        proof {
            assert(self.delegations@.drop_last() =~= pre);
            assert forall|k: int| 0 <= k < self.delegations@.len()
                implies targets_pair_wf((#[trigger] self.delegations@[k]).deleg.env,
                    self.delegations@[k].deleg.meta) by {
                if k < pre.len() {
                    assert(self.delegations@[k] == pre[k]);
                }
            }
        }
        Ok(true)
    }
}

/// The description a targets role declares directly for a target path;
/// first match wins.
pub open spec fn targets_lookup(entries: Seq<crate::metadata::TargetEntryM>, path: Seq<u8>) -> Option<TargetDescription>
    decreases entries.len(),
{
    if entries.len() == 0 {
        Option::None
    } else if entries[0].path == path {
        Option::Some(entries[0].desc)
    } else {
        targets_lookup(entries.drop_first(), path)
    }
}

/// Look a target path up in a role's declared targets.
fn targets_lookup_exec(entries: &Vec<crate::metadata::TargetEntry>, path: &Vec<u8>) -> (r: Option<TargetDescription>)
    ensures
        r == targets_lookup(m_seq(entries@), path@),
{
    let mut i: usize = 0;
    proof {
        assert(m_seq(entries@).skip(0) =~= m_seq(entries@));
    }
    while i < entries.len()
        invariant
            i <= entries.len(),
            targets_lookup(m_seq(entries@), path@)
                == targets_lookup(m_seq(entries@).skip(i as int), path@),
        decreases entries.len() - i,
    {
        let ghost s = m_seq(entries@).skip(i as int);
        proof {
            assert(s[0] == m_seq(entries@)[i as int]);
            assert(m_seq(entries@)[i as int] == entries@[i as int].m());
            assert(s.drop_first() =~= m_seq(entries@).skip(i + 1));
        }
        if bytes_eq(&entries[i].path.0, path) {
            return Some(entries[i].desc);
        }
        i = i + 1;
    }
    proof {
        assert(m_seq(entries@).skip(m_seq(entries@).len() as int).len() == 0);
    }
    None
}

/// Resolve `target` at a targets node: a directly declared target takes
/// precedence; otherwise the node's delegations are consulted in order.
pub open spec fn spec_resolve_node(db: Database, meta: TargetsMetadata, node: Seq<u8>, target: Seq<u8>, visited: Seq<Seq<u8>>, fuel: nat) -> Option<TargetDescription>
    decreases fuel, meta.delegations.roles@.len() + 2,
{
    match targets_lookup(m_seq(meta.targets@), target) {
        Option::Some(d) => Option::Some(d),
        Option::None => spec_resolve_records(db, meta, node, 0, target, visited, fuel),
    }
}

/// Walk a node's delegation records from index `k` in order. A matching
/// record whose branch yields nothing stops the walk when terminating.
pub open spec fn spec_resolve_records(db: Database, meta: TargetsMetadata, node: Seq<u8>, k: int, target: Seq<u8>, visited: Seq<Seq<u8>>, fuel: nat) -> Option<TargetDescription>
    decreases fuel, meta.delegations.roles@.len() - k + 1,
{
    if k < 0 || k >= meta.delegations.roles@.len() {
        Option::None
    } else {
        let rec = meta.delegations.roles@[k];
        if some_pattern_matches(m_seq(rec.paths@), target) {
            let sub = spec_resolve_child(db, node, rec.role.0@, target, visited, fuel);
            if sub is Some {
                sub
            } else if rec.terminating {
                Option::None
            } else {
                spec_resolve_records(db, meta, node, k + 1, target, visited, fuel)
            }
        } else {
            spec_resolve_records(db, meta, node, k + 1, target, visited, fuel)
        }
    }
}

/// Resolve through one delegation edge: the child must have been admitted
/// through this very parent, and a revisit of a path yields nothing.
pub open spec fn spec_resolve_child(db: Database, parent: Seq<u8>, child: Seq<u8>, target: Seq<u8>, visited: Seq<Seq<u8>>, fuel: nat) -> Option<TargetDescription>
    decreases fuel, 0nat,
{
    if visited.contains(child) {
        Option::None
    } else if fuel == 0 {
        Option::None
    } else {
        match deleg_lookup(db.delegations@, child) {
            Option::None => Option::None,
            Option::Some(e) => if e.deleg.parent.0@ == parent {
                spec_resolve_node(db, e.deleg.meta, child, target, visited.push(child),
                    (fuel - 1) as nat)
            } else {
                Option::None
            },
        }
    }
}

/// What target resolution answers on a database: the traversal from the
/// top-level targets role, with the tree size as recursion budget.
pub open spec fn spec_target_description(db: Database, target: Seq<u8>) -> Option<TargetDescription> {
    match db.targets {
        Option::None => Option::None,
        Option::Some(tm) => spec_resolve_node(db, tm, targets_path_m(), target,
            seq![targets_path_m()], db.delegations@.len()),
    }
}

/// Whether `path` is among the visited metadata paths.
fn visited_contains(visited: &Vec<MetadataPath>, path: &Vec<u8>) -> (r: bool)
    ensures
        r == m_seq(visited@).contains(path@),
{
    let mut i: usize = 0;
    while i < visited.len()
        invariant
            i <= visited.len(),
            forall|j: int| 0 <= j < i ==> visited@[j].0@ != path@,
        decreases visited.len() - i,
    {
        if bytes_eq(&visited[i].0, path) {
            proof {
                assert(m_seq(visited@)[i as int] == path@);
            }
            return true;
        }
        i = i + 1;
    }
    proof {
        assert forall|j: int| 0 <= j < m_seq(visited@).len()
            implies m_seq(visited@)[j] != path@ by {
            assert(m_seq(visited@)[j] == visited@[j].0@);
        }
    }
    false
}

/// Copy a list of metadata paths.
fn copy_meta_paths(src: &Vec<MetadataPath>) -> (r: Vec<MetadataPath>)
    ensures
        m_seq(r@) == m_seq(src@),
{
    let mut out: Vec<MetadataPath> = Vec::new();
    let mut i: usize = 0;
    while i < src.len()
        invariant
            i <= src.len(),
            m_seq(out@) == m_seq(src@).take(i as int),
        decreases src.len() - i,
    {
        let ghost pre = out@;
        let np = MetadataPath(copy_bytes(&src[i].0));
        proof {
            assert(np.m() == src@[i as int].m());
        }
        out.push(np);
        proof {
            assert(m_seq(pre).len() == pre.len());
            assert(pre.len() == i as int);
            assert(out@ == pre.push(np));
            assert forall|j: int| 0 <= j < out@.len()
                implies m_seq(out@)[j] == m_seq(src@).take(i + 1)[j] by {
                if j < i {
                    assert(out@[j] == pre[j]);
                    assert(m_seq(pre)[j] == m_seq(src@).take(i as int)[j]);
                } else {
                    assert(out@[j] == np);
                }
            }
            assert(m_seq(out@) =~= m_seq(src@).take(i + 1));
        }
        i = i + 1;
    }
    proof {
        assert(m_seq(src@).take(m_seq(src@).len() as int) =~= m_seq(src@));
    }
    out
}

/// Resolve `target` at a targets node.
fn resolve_node(db: &Database, meta: &TargetsMetadata, node: &Vec<u8>, target: &TargetPath, visited: &Vec<MetadataPath>, fuel: u64) -> (r: Option<TargetDescription>)
    ensures
        r == spec_resolve_node(*db, *meta, node@, target.0@, m_seq(visited@), fuel as nat),
    decreases fuel, meta.delegations.roles@.len() + 2,
{
    match targets_lookup_exec(&meta.targets, &target.0) {
        Option::Some(d) => Some(d),
        Option::None => resolve_records(db, meta, node, 0, target, visited, fuel),
    }
}

/// Walk a node's delegation records from index `k`.
fn resolve_records(db: &Database, meta: &TargetsMetadata, node: &Vec<u8>, k: usize, target: &TargetPath, visited: &Vec<MetadataPath>, fuel: u64) -> (r: Option<TargetDescription>)
    ensures
        r == spec_resolve_records(*db, *meta, node@, k as int, target.0@, m_seq(visited@),
            fuel as nat),
    decreases fuel, meta.delegations.roles@.len() - k + 1,
{
    if k >= meta.delegations.roles.len() {
        None
    } else {
        let rec = &meta.delegations.roles[k];
        if any_target_match(&rec.paths, target) {
            let sub = resolve_child(db, node, &rec.role.0, target, visited, fuel);
            match sub {
                Option::Some(d) => Some(d),
                Option::None => {
                    if rec.terminating {
                        None
                    } else {
                        resolve_records(db, meta, node, k + 1, target, visited, fuel)
                    }
                },
            }
        } else {
            resolve_records(db, meta, node, k + 1, target, visited, fuel)
        }
    }
}

/// Resolve through one delegation edge.
fn resolve_child(db: &Database, parent: &Vec<u8>, child: &Vec<u8>, target: &TargetPath, visited: &Vec<MetadataPath>, fuel: u64) -> (r: Option<TargetDescription>)
    ensures
        r == spec_resolve_child(*db, parent@, child@, target.0@, m_seq(visited@), fuel as nat),
    decreases fuel, 0nat,
{
    if visited_contains(visited, child) {
        None
    } else if fuel == 0 {
        None
    } else {
        match deleg_lookup_exec(&db.delegations, child) {
            Option::None => None,
            Option::Some(i) => {
                let e = &db.delegations[i];
                if bytes_eq(&e.deleg.parent.0, parent) {
                    let mut v2 = copy_meta_paths(visited);
                    let ghost pre2 = v2@;
                    let np = MetadataPath(copy_bytes(child));
                    v2.push(np);
                    proof {
                        assert(m_seq(pre2).len() == pre2.len());
                        assert(m_seq(visited@).len() == visited@.len());
                        assert(pre2.len() == visited@.len());
                        assert(v2@ == pre2.push(np));
                        assert(np.m() == child@);
                        assert forall|j: int| 0 <= j < m_seq(v2@).len()
                            implies m_seq(v2@)[j] == m_seq(visited@).push(child@)[j] by {
                            if j < pre2.len() {
                                assert(v2@[j] == pre2[j]);
                                assert(m_seq(pre2)[j] == m_seq(visited@)[j]);
                            } else {
                                assert(v2@[j] == np);
                            }
                        }
                        assert(m_seq(v2@) =~= m_seq(visited@).push(child@));
                    }
                    resolve_node(db, &e.deleg.meta, child, target, &v2, fuel - 1)
                } else {
                    None
                }
            },
        }
    }
}

impl Database {
    /// Resolve a target path to its authorized description by traversing
    /// the delegation graph from the top-level targets role. Never mutates.
    pub fn target_description(&self, target: &TargetPath) -> (r: Result<TargetDescription, Error>)
        requires
            self.wf(),
        ensures
            self.targets is None ==> (r matches Err(e)
                && (e matches Error::MetadataNotFound { path } && path@ == targets_path_m())),
            self.targets is Some ==> match spec_target_description(*self, target.0@) {
                Option::Some(d) => r == Ok::<TargetDescription, Error>(d),
                Option::None => r == Err::<TargetDescription, Error>(Error::TargetUnavailable),
            },
    {
        let tm = match &self.targets {
            Option::None => {
                return Err(Error::MetadataNotFound { path: targets_path() });
            },
            Option::Some(t) => t,
        };
        let tp = targets_path();
        let mut visited: Vec<MetadataPath> = Vec::new();
        visited.push(MetadataPath(targets_path()));
        proof {
            assert(m_seq(visited@) =~= seq![targets_path_m()]);
        }
        let fuel = self.delegations.len() as u64;
        match resolve_node(self, tm, &tp, target, &visited, fuel) {
            Option::Some(d) => Ok(d),
            Option::None => Err(Error::TargetUnavailable),
        }
    }

    /// The trusted root metadata.
    pub fn trusted_root(&self) -> (r: &RootMetadata)
        ensures
            *r == self.root,
    {
        &self.root
    }

    /// The retained canonical bytes of the trusted root envelope.
    pub fn trusted_root_bytes(&self) -> (r: &Vec<u8>)
        ensures
            r@ == self.root_env.raw@,
    {
        &self.root_env.raw
    }

    /// The trusted timestamp metadata, if admitted.
    pub fn trusted_timestamp(&self) -> (r: Option<&TimestampMetadata>)
        ensures
            match self.timestamp {
                Option::Some(t) => r matches Some(x) && *x == t,
                Option::None => r is None,
            },
    {
        match &self.timestamp {
            Option::Some(t) => Some(t),
            Option::None => None,
        }
    }

    /// The trusted snapshot metadata, if admitted.
    pub fn trusted_snapshot(&self) -> (r: Option<&SnapshotMetadata>)
        ensures
            match self.snapshot {
                Option::Some(s) => r matches Some(x) && *x == s,
                Option::None => r is None,
            },
    {
        match &self.snapshot {
            Option::Some(s) => Some(s),
            Option::None => None,
        }
    }

    /// The trusted top-level targets metadata, if admitted.
    pub fn trusted_targets(&self) -> (r: Option<&TargetsMetadata>)
        ensures
            match self.targets {
                Option::Some(t) => r matches Some(x) && *x == t,
                Option::None => r is None,
            },
    {
        match &self.targets {
            Option::Some(t) => Some(t),
            Option::None => None,
        }
    }

    /// The retained canonical bytes of the trusted timestamp envelope.
    pub fn trusted_timestamp_bytes(&self) -> (r: Option<&Vec<u8>>)
        ensures
            match self.timestamp_env {
                Option::Some(rs) => r matches Some(b) && b@ == rs.raw@,
                Option::None => r is None,
            },
    {
        match &self.timestamp_env {
            Option::Some(rs) => Some(&rs.raw),
            Option::None => None,
        }
    }

    /// The retained canonical bytes of the trusted snapshot envelope.
    pub fn trusted_snapshot_bytes(&self) -> (r: Option<&Vec<u8>>)
        ensures
            match self.snapshot_env {
                Option::Some(rs) => r matches Some(b) && b@ == rs.raw@,
                Option::None => r is None,
            },
    {
        match &self.snapshot_env {
            Option::Some(rs) => Some(&rs.raw),
            Option::None => None,
        }
    }

    /// The retained canonical bytes of the trusted targets envelope.
    pub fn trusted_targets_bytes(&self) -> (r: Option<&Vec<u8>>)
        ensures
            match self.targets_env {
                Option::Some(rs) => r matches Some(b) && b@ == rs.raw@,
                Option::None => r is None,
            },
    {
        match &self.targets_env {
            Option::Some(rs) => Some(&rs.raw),
            Option::None => None,
        }
    }
}

/// Append a copy of `src` to `dst`.
fn append_bytes(dst: &mut Vec<u8>, src: &Vec<u8>)
    ensures
        final(dst)@ == old(dst)@ + src@,
{
    let mut i: usize = 0;
    while i < src.len()
        invariant
            i <= src.len(),
            dst@ == old(dst)@ + src@.take(i as int),
        decreases src.len() - i,
    {
        dst.push(src[i]);
        proof {
            assert(old(dst)@ + src@.take(i + 1) =~= (old(dst)@ + src@.take(i as int)).push(
                src@[i as int]));
        }
        i = i + 1;
    }
    proof {
        assert(src@.take(src@.len() as int) =~= src@);
    }
}

/// Copy a byte string.
fn copy_bytes(src: &Vec<u8>) -> (r: Vec<u8>)
    ensures
        r@ == src@,
{
    let mut out: Vec<u8> = Vec::new();
    append_bytes(&mut out, src);
    proof {
        assert(Seq::<u8>::empty() + src@ =~= src@);
    }
    out
}

} // verus!
