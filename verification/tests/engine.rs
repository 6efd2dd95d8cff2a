use tuf::crypto::digest;
use tuf::crypto::key_id;
use tuf::crypto::sign;
use tuf::database::Database;
use tuf::error::Error;
use tuf::interchange::canonicalize_env;
use tuf::interchange::canonicalize_meta;
use tuf::interchange::parse_meta;
use tuf::metadata::Delegation;
use tuf::metadata::Delegations;
use tuf::metadata::Envelope;
use tuf::metadata::Metadata;
use tuf::metadata::MetadataDescription;
use tuf::metadata::MetadataPath;
use tuf::metadata::RoleDef;
use tuf::metadata::RootMetadata;
use tuf::metadata::SnapEntry;
use tuf::metadata::SnapshotMetadata;
use tuf::metadata::TargetDescription;
use tuf::metadata::TargetEntry;
use tuf::metadata::TargetPath;
use tuf::metadata::TargetsMetadata;
use tuf::metadata::TimestampMetadata;

const NOW: u64 = 100;
const EXP: u64 = 1000;

fn path(s: &str) -> Vec<u8> {
    s.as_bytes().to_vec()
}

fn signed(meta: &Metadata, keys: &[u64]) -> Vec<u8> {
    let payload = canonicalize_meta(meta);
    let mut sigs = Vec::new();
    for k in keys {
        sigs.push(sign(*k, &payload));
    }
    canonicalize_env(&Envelope { payload, sigs })
}

fn role(keys: &[u64], threshold: u64) -> RoleDef {
    RoleDef { threshold, key_ids: keys.iter().map(|k| key_id(*k)).collect() }
}

fn make_root_with(version: u64, keys: Vec<u64>, root_role: RoleDef, timestamp_role: RoleDef,
    snapshot_role: RoleDef, targets_role: RoleDef) -> Metadata {
    Metadata::Root(RootMetadata {
        version,
        expires: EXP,
        keys,
        root_role,
        timestamp_role,
        snapshot_role,
        targets_role,
    })
}

fn make_root() -> Metadata {
    make_root_with(1, vec![1, 2, 3, 4], role(&[1], 1), role(&[4], 1), role(&[2], 1),
        role(&[3], 1))
}

fn target_entry(name: &str, content: &[u8]) -> TargetEntry {
    TargetEntry {
        path: TargetPath::new(path(name)),
        desc: TargetDescription {
            length: content.len() as u64,
            digest: digest(&content.to_vec()),
        },
    }
}

fn delegation(name: &str, terminating: bool, threshold: u64, keys: &[u64], paths: &[&str]) -> Delegation {
    Delegation {
        role: MetadataPath::new(path(name)),
        terminating,
        threshold,
        key_ids: keys.iter().map(|k| key_id(*k)).collect(),
        paths: paths.iter().map(|p| TargetPath::new(path(p))).collect(),
    }
}

fn no_delegations() -> Delegations {
    Delegations { keys: vec![], roles: vec![] }
}

fn desc_of(raw: &Vec<u8>, version: u64) -> MetadataDescription {
    MetadataDescription {
        version,
        length: Some(raw.len() as u64),
        digest: Some(digest(raw)),
    }
}

fn snap_entry(name: &str, raw: &Vec<u8>) -> SnapEntry {
    SnapEntry { path: MetadataPath::new(path(name)), desc: desc_of(raw, 1) }
}

fn setup(root: &Metadata, targets_raw: &Vec<u8>, listed: &[(&str, &Vec<u8>)]) -> Database {
    let mut entries = vec![snap_entry("targets", targets_raw)];
    for (name, raw) in listed {
        entries.push(snap_entry(name, raw));
    }
    let snapshot_raw = signed(
        &Metadata::Snapshot(SnapshotMetadata { version: 1, expires: EXP, metas: entries }),
        &[2],
    );
    let timestamp_raw = signed(
        &Metadata::Timestamp(TimestampMetadata {
            version: 1,
            expires: EXP,
            snapshot: desc_of(&snapshot_raw, 1),
        }),
        &[4],
    );
    let root_raw = signed(root, &[1]);
    let mut db = Database::from_trusted_root(&root_raw).unwrap();
    db.update_timestamp(&timestamp_raw, NOW).unwrap();
    db.update_snapshot(&snapshot_raw, NOW).unwrap();
    db.update_targets(targets_raw, NOW).unwrap();
    db
}

fn timestamp_meta(version: u64, expires: u64, snapshot_raw: &Vec<u8>) -> Metadata {
    Metadata::Timestamp(TimestampMetadata {
        version,
        expires,
        snapshot: desc_of(snapshot_raw, 1),
    })
}

#[test]
fn round_trip_canonical_bytes() {
    let meta = Metadata::Targets(TargetsMetadata {
        version: 7,
        expires: EXP,
        targets: vec![target_entry("foo", b"bar")],
        delegations: Delegations {
            keys: vec![5],
            roles: vec![delegation("delegation", true, 1, &[5], &["foo", "dir/*"])],
        },
    });
    let bytes = canonicalize_meta(&meta);
    let parsed = parse_meta(&bytes).unwrap();
    // parse after canonicalize restores the value: re-encoding is identical.
    assert_eq!(canonicalize_meta(&parsed), bytes);
    match parsed {
        Metadata::Targets(t) => {
            assert_eq!(t.version, 7);
            assert_eq!(t.targets.len(), 1);
            assert_eq!(t.targets[0].desc.length, 3);
            assert_eq!(t.delegations.roles[0].terminating, true);
        },
        _ => panic!("wrong payload kind"),
    }
}

#[test]
fn exact_canonical_bytes() {
    // A timestamp payload lays out as tokens — kind tag, version, expires,
    // then the description's version and two absent options — each token
    // eight big-endian bytes.
    let meta = Metadata::Timestamp(TimestampMetadata {
        version: 1,
        expires: 2,
        snapshot: MetadataDescription { version: 3, length: None, digest: None },
    });
    let bytes = canonicalize_meta(&meta);
    let mut expected = Vec::new();
    for tok in [2u64, 1, 2, 3, 0, 0] {
        expected.extend_from_slice(&tok.to_be_bytes());
    }
    assert_eq!(bytes, expected);
}

#[test]
fn parse_rejects_garbage() {
    assert!(parse_meta(&vec![1, 2, 3]).is_none());
    assert!(parse_meta(&vec![0xff; 32]).is_none());
}

#[test]
fn threshold_counts_distinct_signers() {
    // Timestamp role needs 2 of the 3 keys 4, 5 and 6.
    let root = make_root_with(1, vec![1, 2, 3, 4, 5, 6], role(&[1], 1), role(&[4, 5, 6], 2),
        role(&[2], 1), role(&[3], 1));
    let root_raw = signed(&root, &[1]);
    let snapshot_raw = signed(
        &Metadata::Snapshot(SnapshotMetadata { version: 1, expires: EXP, metas: vec![] }),
        &[2],
    );

    // Two distinct signers meet the threshold.
    let mut db = Database::from_trusted_root(&root_raw).unwrap();
    let ok_raw = signed(&timestamp_meta(1, EXP, &snapshot_raw), &[4, 5]);
    assert_eq!(db.update_timestamp(&ok_raw, NOW).unwrap(), true);

    // One signer is below the threshold.
    let mut db = Database::from_trusted_root(&root_raw).unwrap();
    let short_raw = signed(&timestamp_meta(1, EXP, &snapshot_raw), &[4]);
    assert!(matches!(
        db.update_timestamp(&short_raw, NOW),
        Err(Error::VerificationFailure { got: 1, need: 2, .. })
    ));

    // The same key twice counts once.
    let mut db = Database::from_trusted_root(&root_raw).unwrap();
    let dup_raw = signed(&timestamp_meta(1, EXP, &snapshot_raw), &[4, 4]);
    assert!(matches!(
        db.update_timestamp(&dup_raw, NOW),
        Err(Error::VerificationFailure { got: 1, need: 2, .. })
    ));

    // A bad signature alongside enough good ones does not abort.
    let mut db = Database::from_trusted_root(&root_raw).unwrap();
    let mixed_raw = {
        let payload = canonicalize_meta(&timestamp_meta(1, EXP, &snapshot_raw));
        let mut sigs = vec![sign(4, &payload), sign(5, &payload)];
        // A signature by an unknown key is ignored, not an error.
        sigs.push(sign(99, &payload));
        canonicalize_env(&Envelope { payload, sigs })
    };
    assert_eq!(db.update_timestamp(&mixed_raw, NOW).unwrap(), true);
}

#[test]
fn rollback_protection() {
    let root = make_root();
    let root_raw = signed(&root, &[1]);
    let snapshot_raw = signed(
        &Metadata::Snapshot(SnapshotMetadata { version: 1, expires: EXP, metas: vec![] }),
        &[2],
    );
    let mut db = Database::from_trusted_root(&root_raw).unwrap();

    let v2_raw = signed(&timestamp_meta(2, EXP, &snapshot_raw), &[4]);
    assert_eq!(db.update_timestamp(&v2_raw, NOW).unwrap(), true);

    // An older version is rejected.
    let v1_raw = signed(&timestamp_meta(1, EXP, &snapshot_raw), &[4]);
    assert!(matches!(
        db.update_timestamp(&v1_raw, NOW),
        Err(Error::VersionLessThanCurrent { got: 1, current: 2, .. })
    ));

    // The same version with identical bytes is a no-op.
    assert_eq!(db.update_timestamp(&v2_raw, NOW).unwrap(), false);

    // The same version with different bytes is rejected.
    let v2_other_raw = signed(&timestamp_meta(2, EXP - 1, &snapshot_raw), &[4]);
    assert!(matches!(
        db.update_timestamp(&v2_other_raw, NOW),
        Err(Error::VersionLessThanCurrent { got: 2, current: 2, .. })
    ));
    assert_eq!(db.trusted_timestamp().unwrap().version, 2);
}

#[test]
fn expiration_rejected() {
    let root = make_root();
    let root_raw = signed(&root, &[1]);
    let snapshot_raw = signed(
        &Metadata::Snapshot(SnapshotMetadata { version: 1, expires: NOW - 1, metas: vec![] }),
        &[2],
    );
    let timestamp_raw = signed(&timestamp_meta(1, EXP, &snapshot_raw), &[4]);
    let mut db = Database::from_trusted_root(&root_raw).unwrap();
    db.update_timestamp(&timestamp_raw, NOW).unwrap();

    // The snapshot expired just before the injected clock.
    assert!(matches!(
        db.update_snapshot(&snapshot_raw, NOW),
        Err(Error::Expired { expired_at, .. }) if expired_at == NOW - 1
    ));
    assert!(db.trusted_snapshot().is_none());
}

#[test]
fn root_rotation_invalidates_subordinates() {
    // R1 authorizes timestamp key 4; R2, signed by both root quorums,
    // authorizes timestamp key 5 only.
    let root1 = make_root_with(1, vec![1, 2, 3, 4], role(&[1], 1), role(&[4], 1),
        role(&[2], 1), role(&[3], 1));
    let root1_raw = signed(&root1, &[1]);
    let snapshot_raw = signed(
        &Metadata::Snapshot(SnapshotMetadata { version: 1, expires: EXP, metas: vec![] }),
        &[2],
    );
    let timestamp_raw = signed(&timestamp_meta(1, EXP, &snapshot_raw), &[4]);

    let mut db = Database::from_trusted_root(&root1_raw).unwrap();
    db.update_timestamp(&timestamp_raw, NOW).unwrap();
    assert!(db.trusted_timestamp().is_some());

    let root2 = make_root_with(2, vec![2, 3, 5, 7], role(&[7], 1), role(&[5], 1),
        role(&[2], 1), role(&[3], 1));
    let root2_raw = signed(&root2, &[1, 7]);
    assert_eq!(db.update_root(&root2_raw).unwrap(), true);

    // The timestamp signed by key 4 is no longer authorized: it reads as
    // absent until re-admitted under key 5.
    assert!(db.trusted_timestamp().is_none());
    assert_eq!(db.trusted_root().version, 2);

    let timestamp2_raw = signed(&timestamp_meta(2, EXP, &snapshot_raw), &[5]);
    assert_eq!(db.update_timestamp(&timestamp2_raw, NOW).unwrap(), true);
    assert!(db.trusted_timestamp().is_some());
}

#[test]
fn root_rotation_requires_both_quorums() {
    let root1 = make_root();
    let root1_raw = signed(&root1, &[1]);
    let mut db = Database::from_trusted_root(&root1_raw).unwrap();

    let root2 = make_root_with(2, vec![2, 3, 4, 7], role(&[7], 1), role(&[4], 1),
        role(&[2], 1), role(&[3], 1));

    // Signed only by the new quorum: the old root's quorum is not met.
    let only_new = signed(&root2, &[7]);
    assert!(matches!(db.update_root(&only_new), Err(Error::VerificationFailure { .. })));

    // Signed only by the old quorum: the new root's own quorum is not met.
    let only_old = signed(&root2, &[1]);
    assert!(matches!(db.update_root(&only_old), Err(Error::VerificationFailure { .. })));

    // Signed by both: accepted.
    let both = signed(&root2, &[1, 7]);
    assert_eq!(db.update_root(&both).unwrap(), true);
    assert_eq!(db.trusted_root().version, 2);
}

#[test]
fn pattern_restriction_unavailable_outside_patterns() {
    let delegations = Delegations {
        keys: vec![5],
        roles: vec![delegation("delegation", false, 1, &[5], &["foo"])],
    };
    let targets_raw = signed(
        &Metadata::Targets(TargetsMetadata {
            version: 1,
            expires: EXP,
            targets: vec![],
            delegations,
        }),
        &[3],
    );
    // The delegated role declares both "foo" and "other", but its edge only
    // covers "foo".
    let raw_delegation = signed(
        &Metadata::Targets(TargetsMetadata {
            version: 1,
            expires: EXP,
            targets: vec![target_entry("foo", b"bar"), target_entry("other", b"baz")],
            delegations: no_delegations(),
        }),
        &[5],
    );
    let root = make_root();
    let mut db = setup(&root, &targets_raw, &[("delegation", &raw_delegation)]);
    db.update_delegation(
        &MetadataPath::new(path("targets")),
        &MetadataPath::new(path("delegation")),
        &raw_delegation,
        NOW,
    )
    .unwrap();

    assert!(db.target_description(&TargetPath::new(path("foo"))).is_ok());
    assert!(matches!(
        db.target_description(&TargetPath::new(path("other"))),
        Err(Error::TargetUnavailable)
    ));
}

#[test]
fn terminating_delegation_stops_search() {
    // Sibling delegations over "foo": A (terminating) does not declare it,
    // B does. With A terminating, resolution stops at A.
    let delegations = Delegations {
        keys: vec![5, 6],
        roles: vec![
            delegation("delegation-a", true, 1, &[5], &["foo"]),
            delegation("delegation-b", false, 1, &[6], &["foo"]),
        ],
    };
    let targets_raw = signed(
        &Metadata::Targets(TargetsMetadata {
            version: 1,
            expires: EXP,
            targets: vec![],
            delegations,
        }),
        &[3],
    );
    let raw_a = signed(
        &Metadata::Targets(TargetsMetadata {
            version: 1,
            expires: EXP,
            targets: vec![],
            delegations: no_delegations(),
        }),
        &[5],
    );
    let raw_b = signed(
        &Metadata::Targets(TargetsMetadata {
            version: 1,
            expires: EXP,
            targets: vec![target_entry("foo", b"bar")],
            delegations: no_delegations(),
        }),
        &[6],
    );
    let root = make_root();
    let mut db = setup(&root, &targets_raw,
        &[("delegation-a", &raw_a), ("delegation-b", &raw_b)]);
    db.update_delegation(
        &MetadataPath::new(path("targets")),
        &MetadataPath::new(path("delegation-a")),
        &raw_a,
        NOW,
    )
    .unwrap();
    db.update_delegation(
        &MetadataPath::new(path("targets")),
        &MetadataPath::new(path("delegation-b")),
        &raw_b,
        NOW,
    )
    .unwrap();

    assert!(matches!(
        db.target_description(&TargetPath::new(path("foo"))),
        Err(Error::TargetUnavailable)
    ));
}

#[test]
fn non_terminating_delegation_falls_through() {
    let delegations = Delegations {
        keys: vec![5, 6],
        roles: vec![
            delegation("delegation-a", false, 1, &[5], &["foo"]),
            delegation("delegation-b", false, 1, &[6], &["foo"]),
        ],
    };
    let targets_raw = signed(
        &Metadata::Targets(TargetsMetadata {
            version: 1,
            expires: EXP,
            targets: vec![],
            delegations,
        }),
        &[3],
    );
    let raw_a = signed(
        &Metadata::Targets(TargetsMetadata {
            version: 1,
            expires: EXP,
            targets: vec![],
            delegations: no_delegations(),
        }),
        &[5],
    );
    let raw_b = signed(
        &Metadata::Targets(TargetsMetadata {
            version: 1,
            expires: EXP,
            targets: vec![target_entry("foo", b"bar")],
            delegations: no_delegations(),
        }),
        &[6],
    );
    let root = make_root();
    let mut db = setup(&root, &targets_raw,
        &[("delegation-a", &raw_a), ("delegation-b", &raw_b)]);
    db.update_delegation(
        &MetadataPath::new(path("targets")),
        &MetadataPath::new(path("delegation-a")),
        &raw_a,
        NOW,
    )
    .unwrap();
    db.update_delegation(
        &MetadataPath::new(path("targets")),
        &MetadataPath::new(path("delegation-b")),
        &raw_b,
        NOW,
    )
    .unwrap();

    let d = db.target_description(&TargetPath::new(path("foo"))).unwrap();
    assert_eq!(d.length, 3);
    assert_eq!(d.digest, digest(&b"bar".to_vec()));
}

#[test]
fn failed_admission_leaves_answers_unchanged() {
    let delegations = Delegations {
        keys: vec![5],
        roles: vec![delegation("delegation", false, 1, &[5], &["foo"])],
    };
    let targets_raw = signed(
        &Metadata::Targets(TargetsMetadata {
            version: 1,
            expires: EXP,
            targets: vec![],
            delegations,
        }),
        &[3],
    );
    let raw_delegation = signed(
        &Metadata::Targets(TargetsMetadata {
            version: 1,
            expires: EXP,
            targets: vec![target_entry("foo", b"bar")],
            delegations: no_delegations(),
        }),
        &[5],
    );
    let root = make_root();
    let mut db = setup(&root, &targets_raw, &[("delegation", &raw_delegation)]);
    db.update_delegation(
        &MetadataPath::new(path("targets")),
        &MetadataPath::new(path("delegation")),
        &raw_delegation,
        NOW,
    )
    .unwrap();

    let before = db.target_description(&TargetPath::new(path("foo"))).unwrap();

    // A rolled-back delegation admission fails and must change nothing.
    let stale = signed(
        &Metadata::Targets(TargetsMetadata {
            version: 0,
            expires: EXP,
            targets: vec![],
            delegations: no_delegations(),
        }),
        &[5],
    );
    assert!(db
        .update_delegation(
            &MetadataPath::new(path("targets")),
            &MetadataPath::new(path("delegation")),
            &stale,
            NOW,
        )
        .is_err());

    let after = db.target_description(&TargetPath::new(path("foo"))).unwrap();
    assert_eq!(before.length, after.length);
    assert_eq!(before.digest, after.digest);
}

#[test]
fn undeclared_target_unavailable() {
    let targets_raw = signed(
        &Metadata::Targets(TargetsMetadata {
            version: 1,
            expires: EXP,
            targets: vec![target_entry("foo", b"bar")],
            delegations: no_delegations(),
        }),
        &[3],
    );
    let root = make_root();
    let db = setup(&root, &targets_raw, &[]);
    assert!(db.target_description(&TargetPath::new(path("foo"))).is_ok());
    assert!(matches!(
        db.target_description(&TargetPath::new(path("other"))),
        Err(Error::TargetUnavailable)
    ));
}

#[test]
fn nested_child_not_admittable_through_grandparent() {
    // Targets delegates to delegation-a, which delegates to delegation-b.
    // Admitting delegation-b with targets as its parent is not authorized:
    // targets has no record for it.
    let delegations = Delegations {
        keys: vec![5],
        roles: vec![delegation("delegation-a", false, 1, &[5], &["foo"])],
    };
    let targets_raw = signed(
        &Metadata::Targets(TargetsMetadata {
            version: 1,
            expires: EXP,
            targets: vec![],
            delegations,
        }),
        &[3],
    );
    let raw_b = signed(
        &Metadata::Targets(TargetsMetadata {
            version: 1,
            expires: EXP,
            targets: vec![target_entry("foo", b"bar")],
            delegations: no_delegations(),
        }),
        &[6],
    );
    let root = make_root();
    let mut db = setup(&root, &targets_raw, &[("delegation-b", &raw_b)]);
    assert!(matches!(
        db.update_delegation(
            &MetadataPath::new(path("targets")),
            &MetadataPath::new(path("delegation-b")),
            &raw_b,
            NOW,
        ),
        Err(Error::NotAuthorized)
    ));
}

#[test]
fn delegation_cycle_yields_unavailable() {
    // The delegated role delegates "foo" onward to itself; resolution must
    // break the cycle and answer rather than loop.
    let delegations = Delegations {
        keys: vec![5],
        roles: vec![delegation("delegation-a", false, 1, &[5], &["foo"])],
    };
    let targets_raw = signed(
        &Metadata::Targets(TargetsMetadata {
            version: 1,
            expires: EXP,
            targets: vec![],
            delegations,
        }),
        &[3],
    );
    let raw_a = signed(
        &Metadata::Targets(TargetsMetadata {
            version: 1,
            expires: EXP,
            targets: vec![],
            delegations: Delegations {
                keys: vec![5],
                roles: vec![delegation("delegation-a", false, 1, &[5], &["foo"])],
            },
        }),
        &[5],
    );
    let root = make_root();
    let mut db = setup(&root, &targets_raw, &[("delegation-a", &raw_a)]);
    db.update_delegation(
        &MetadataPath::new(path("targets")),
        &MetadataPath::new(path("delegation-a")),
        &raw_a,
        NOW,
    )
    .unwrap();
    assert!(matches!(
        db.target_description(&TargetPath::new(path("foo"))),
        Err(Error::TargetUnavailable)
    ));
}

#[test]
fn snapshot_replacement_evicts_stale_delegation() {
    let delegations = Delegations {
        keys: vec![5],
        roles: vec![delegation("delegation", false, 1, &[5], &["foo"])],
    };
    let targets_raw = signed(
        &Metadata::Targets(TargetsMetadata {
            version: 1,
            expires: EXP,
            targets: vec![],
            delegations,
        }),
        &[3],
    );
    let raw_delegation = signed(
        &Metadata::Targets(TargetsMetadata {
            version: 1,
            expires: EXP,
            targets: vec![target_entry("foo", b"bar")],
            delegations: no_delegations(),
        }),
        &[5],
    );
    let root = make_root();
    let mut db = setup(&root, &targets_raw, &[("delegation", &raw_delegation)]);
    db.update_delegation(
        &MetadataPath::new(path("targets")),
        &MetadataPath::new(path("delegation")),
        &raw_delegation,
        NOW,
    )
    .unwrap();
    assert!(db.target_description(&TargetPath::new(path("foo"))).is_ok());

    // A new snapshot vouches for the targets file as before, but records
    // the delegation at a different version: the stale entry is evicted.
    let entries = vec![
        snap_entry("targets", &targets_raw),
        SnapEntry {
            path: MetadataPath::new(path("delegation")),
            desc: desc_of(&raw_delegation, 2),
        },
    ];
    let snapshot2_raw = signed(
        &Metadata::Snapshot(SnapshotMetadata { version: 2, expires: EXP, metas: entries }),
        &[2],
    );
    let timestamp2_raw = signed(
        &Metadata::Timestamp(TimestampMetadata {
            version: 2,
            expires: EXP,
            snapshot: desc_of(&snapshot2_raw, 2),
        }),
        &[4],
    );
    db.update_timestamp(&timestamp2_raw, NOW).unwrap();
    assert_eq!(db.update_snapshot(&snapshot2_raw, NOW).unwrap(), true);

    // The targets role survives; the delegated role must be re-admitted.
    assert!(db.trusted_targets().is_some());
    assert!(matches!(
        db.target_description(&TargetPath::new(path("foo"))),
        Err(Error::TargetUnavailable)
    ));
}

#[test]
fn retained_bytes_accessors() {
    let root = make_root();
    let root_raw = signed(&root, &[1]);
    let snapshot_raw = signed(
        &Metadata::Snapshot(SnapshotMetadata { version: 1, expires: EXP, metas: vec![] }),
        &[2],
    );
    let timestamp_raw = signed(&timestamp_meta(1, EXP, &snapshot_raw), &[4]);
    let mut db = Database::from_trusted_root(&root_raw).unwrap();
    assert_eq!(db.trusted_root_bytes(), &root_raw);
    assert!(db.trusted_timestamp_bytes().is_none());
    db.update_timestamp(&timestamp_raw, NOW).unwrap();
    db.update_snapshot(&snapshot_raw, NOW).unwrap();
    assert_eq!(db.trusted_timestamp_bytes().unwrap(), &timestamp_raw);
    assert_eq!(db.trusted_snapshot_bytes().unwrap(), &snapshot_raw);
    assert!(db.trusted_targets_bytes().is_none());
}

#[test]
fn missing_predecessors_reported() {
    let root = make_root();
    let root_raw = signed(&root, &[1]);
    let snapshot_raw = signed(
        &Metadata::Snapshot(SnapshotMetadata { version: 1, expires: EXP, metas: vec![] }),
        &[2],
    );
    let mut db = Database::from_trusted_root(&root_raw).unwrap();

    // A snapshot before any timestamp names the missing predecessor.
    assert!(matches!(
        db.update_snapshot(&snapshot_raw, NOW),
        Err(Error::MetadataNotFound { .. })
    ));

    // Garbage bytes are malformed.
    assert!(matches!(
        db.update_timestamp(&vec![9, 9, 9], NOW),
        Err(Error::MalformedMetadata)
    ));
}

#[test]
fn unknown_child_not_authorized() {
    let targets_raw = signed(
        &Metadata::Targets(TargetsMetadata {
            version: 1,
            expires: EXP,
            targets: vec![],
            delegations: no_delegations(),
        }),
        &[3],
    );
    let raw_delegation = signed(
        &Metadata::Targets(TargetsMetadata {
            version: 1,
            expires: EXP,
            targets: vec![target_entry("foo", b"bar")],
            delegations: no_delegations(),
        }),
        &[5],
    );
    let root = make_root();
    let mut db = setup(&root, &targets_raw, &[("delegation", &raw_delegation)]);

    // The parent delegates nothing, so the child is not authorized.
    assert!(matches!(
        db.update_delegation(
            &MetadataPath::new(path("targets")),
            &MetadataPath::new(path("delegation")),
            &raw_delegation,
            NOW,
        ),
        Err(Error::NotAuthorized)
    ));

    // An unknown parent is reported as missing.
    assert!(matches!(
        db.update_delegation(
            &MetadataPath::new(path("nobody")),
            &MetadataPath::new(path("delegation")),
            &raw_delegation,
            NOW,
        ),
        Err(Error::MetadataNotFound { .. })
    ));
}

#[test]
fn snapshot_description_mismatch_rejected() {
    let root = make_root();
    let root_raw = signed(&root, &[1]);
    let snapshot_raw = signed(
        &Metadata::Snapshot(SnapshotMetadata { version: 1, expires: EXP, metas: vec![] }),
        &[2],
    );
    // The timestamp describes different snapshot bytes.
    let other_snapshot_raw = signed(
        &Metadata::Snapshot(SnapshotMetadata { version: 1, expires: EXP - 1, metas: vec![] }),
        &[2],
    );
    let timestamp_raw = signed(&timestamp_meta(1, EXP, &other_snapshot_raw), &[4]);
    let mut db = Database::from_trusted_root(&root_raw).unwrap();
    db.update_timestamp(&timestamp_raw, NOW).unwrap();
    assert!(matches!(
        db.update_snapshot(&snapshot_raw, NOW),
        Err(Error::MalformedMetadata)
    ));
}
