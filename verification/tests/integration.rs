use tuf::crypto::digest;
use tuf::crypto::key_id;
use tuf::crypto::sign;
use tuf::database::Database;
use tuf::error::Error;
use tuf::interchange::canonicalize_env;
use tuf::interchange::canonicalize_meta;
use tuf::metadata::Delegation;
use tuf::metadata::Delegations;
use tuf::metadata::Envelope;
use tuf::metadata::Metadata;
use tuf::metadata::MetadataDescription;
use tuf::metadata::MetadataPath;
use tuf::metadata::RoleDef;
use tuf::metadata::RootMetadata;
use tuf::metadata::SnapEntry;
use tuf::metadata::SnapshotMetadata;
use tuf::metadata::TargetDescription;
use tuf::metadata::TargetEntry;
use tuf::metadata::TargetPath;
use tuf::metadata::TargetsMetadata;
use tuf::metadata::TimestampMetadata;

const NOW: u64 = 100;
const EXP: u64 = 1000;

fn path(s: &str) -> Vec<u8> {
    s.as_bytes().to_vec()
}

fn signed(meta: &Metadata, keys: &[u64]) -> Vec<u8> {
    let payload = canonicalize_meta(meta);
    let mut sigs = Vec::new();
    for k in keys {
        sigs.push(sign(*k, &payload));
    }
    canonicalize_env(&Envelope { payload, sigs })
}

fn role(key: u64) -> RoleDef {
    RoleDef { threshold: 1, key_ids: vec![key_id(key)] }
}

fn make_root(root: u64, snapshot: u64, targets: u64, timestamp: u64) -> Metadata {
    Metadata::Root(RootMetadata {
        version: 1,
        expires: EXP,
        keys: vec![root, snapshot, targets, timestamp],
        root_role: role(root),
        timestamp_role: role(timestamp),
        snapshot_role: role(snapshot),
        targets_role: role(targets),
    })
}

fn target_entry(name: &str, content: &[u8]) -> TargetEntry {
    TargetEntry {
        path: TargetPath::new(path(name)),
        desc: TargetDescription {
            length: content.len() as u64,
            digest: digest(&content.to_vec()),
        },
    }
}

fn delegation(name: &str, terminating: bool, threshold: u64, keys: &[u64], paths: &[&str]) -> Delegation {
    Delegation {
        role: MetadataPath::new(path(name)),
        terminating,
        threshold,
        key_ids: keys.iter().map(|k| key_id(*k)).collect(),
        paths: paths.iter().map(|p| TargetPath::new(path(p))).collect(),
    }
}

fn no_delegations() -> Delegations {
    Delegations { keys: vec![], roles: vec![] }
}

fn desc_of(raw: &Vec<u8>, version: u64) -> MetadataDescription {
    MetadataDescription {
        version,
        length: Some(raw.len() as u64),
        digest: Some(digest(raw)),
    }
}

fn snap_entry(name: &str, raw: &Vec<u8>) -> SnapEntry {
    SnapEntry { path: MetadataPath::new(path(name)), desc: desc_of(raw, 1) }
}

/// Build a database trusting `root`, with a timestamp, a snapshot listing
/// the given metadata files, and the top-level targets admitted.
fn setup(root: &Metadata, targets_raw: &Vec<u8>, listed: &[(&str, &Vec<u8>)],
    root_key: u64, snapshot_key: u64, timestamp_key: u64) -> Database {
    let mut entries = vec![snap_entry("targets", targets_raw)];
    for (name, raw) in listed {
        entries.push(snap_entry(name, raw));
    }
    let snapshot_raw = signed(
        &Metadata::Snapshot(SnapshotMetadata { version: 1, expires: EXP, metas: entries }),
        &[snapshot_key],
    );
    let timestamp_raw = signed(
        &Metadata::Timestamp(TimestampMetadata {
            version: 1,
            expires: EXP,
            snapshot: desc_of(&snapshot_raw, 1),
        }),
        &[timestamp_key],
    );
    let root_raw = signed(root, &[root_key]);
    let mut db = Database::from_trusted_root(&root_raw).unwrap();
    db.update_timestamp(&timestamp_raw, NOW).unwrap();
    db.update_snapshot(&snapshot_raw, NOW).unwrap();
    db.update_targets(targets_raw, NOW).unwrap();
    db
}

#[test]
fn simple_delegation() {
    let root_key: u64 = 1;
    let snapshot_key: u64 = 2;
    let targets_key: u64 = 3;
    let timestamp_key: u64 = 4;
    let delegation_key: u64 = 5;

    let delegations = Delegations {
        keys: vec![delegation_key],
        roles: vec![delegation("delegation", false, 1, &[delegation_key], &["foo"])],
    };
    let targets_raw = signed(
        &Metadata::Targets(TargetsMetadata {
            version: 1,
            expires: EXP,
            targets: vec![],
            delegations,
        }),
        &[targets_key],
    );

    let target_file: &[u8] = b"bar";
    let raw_delegation = signed(
        &Metadata::Targets(TargetsMetadata {
            version: 1,
            expires: EXP,
            targets: vec![target_entry("foo", target_file)],
            delegations: no_delegations(),
        }),
        &[delegation_key],
    );

    let root = make_root(root_key, snapshot_key, targets_key, timestamp_key);
    let mut tuf = setup(&root, &targets_raw, &[("delegation", &raw_delegation)],
        root_key, snapshot_key, timestamp_key);

    tuf.update_delegation(
        &MetadataPath::new(path("targets")),
        &MetadataPath::new(path("delegation")),
        &raw_delegation,
        NOW,
    )
    .unwrap();

    assert!(tuf.target_description(&TargetPath::new(path("foo"))).is_ok());
}

#[test]
fn nested_delegation() {
    let root_key: u64 = 1;
    let snapshot_key: u64 = 2;
    let targets_key: u64 = 3;
    let timestamp_key: u64 = 4;
    let delegation_a_key: u64 = 5;
    let delegation_b_key: u64 = 6;

    let delegations = Delegations {
        keys: vec![delegation_a_key],
        roles: vec![delegation("delegation-a", false, 1, &[delegation_a_key], &["foo"])],
    };
    let targets_raw = signed(
        &Metadata::Targets(TargetsMetadata {
            version: 1,
            expires: EXP,
            targets: vec![],
            delegations,
        }),
        &[targets_key],
    );

    let raw_delegation_a = signed(
        &Metadata::Targets(TargetsMetadata {
            version: 1,
            expires: EXP,
            targets: vec![],
            delegations: Delegations {
                keys: vec![delegation_b_key],
                roles: vec![delegation("delegation-b", false, 1, &[delegation_b_key], &["foo"])],
            },
        }),
        &[delegation_a_key],
    );

    let target_file: &[u8] = b"bar";
    let raw_delegation_b = signed(
        &Metadata::Targets(TargetsMetadata {
            version: 1,
            expires: EXP,
            targets: vec![target_entry("foo", target_file)],
            delegations: no_delegations(),
        }),
        &[delegation_b_key],
    );

    let root = make_root(root_key, snapshot_key, targets_key, timestamp_key);
    let mut tuf = setup(&root, &targets_raw,
        &[("delegation-a", &raw_delegation_a), ("delegation-b", &raw_delegation_b)],
        root_key, snapshot_key, timestamp_key);

    tuf.update_delegation(
        &MetadataPath::new(path("targets")),
        &MetadataPath::new(path("delegation-a")),
        &raw_delegation_a,
        NOW,
    )
    .unwrap();

    tuf.update_delegation(
        &MetadataPath::new(path("delegation-a")),
        &MetadataPath::new(path("delegation-b")),
        &raw_delegation_b,
        NOW,
    )
    .unwrap();

    assert!(tuf.target_description(&TargetPath::new(path("foo"))).is_ok());
}

#[test]
fn rejects_bad_delegation_signatures() {
    let root_key: u64 = 1;
    let snapshot_key: u64 = 2;
    let targets_key: u64 = 3;
    let timestamp_key: u64 = 4;
    let delegation_key: u64 = 5;
    let bad_delegation_key: u64 = 6;

    let delegations = Delegations {
        keys: vec![delegation_key],
        roles: vec![delegation("delegation", false, 1, &[delegation_key], &["foo"])],
    };
    let targets_raw = signed(
        &Metadata::Targets(TargetsMetadata {
            version: 1,
            expires: EXP,
            targets: vec![],
            delegations,
        }),
        &[targets_key],
    );

    let target_file: &[u8] = b"bar";
    let raw_delegation = signed(
        &Metadata::Targets(TargetsMetadata {
            version: 1,
            expires: EXP,
            targets: vec![target_entry("foo", target_file)],
            delegations: no_delegations(),
        }),
        &[bad_delegation_key],
    );

    let root = make_root(root_key, snapshot_key, targets_key, timestamp_key);
    let mut tuf = setup(&root, &targets_raw, &[("delegation", &raw_delegation)],
        root_key, snapshot_key, timestamp_key);

    assert!(matches!(
        tuf.update_delegation(
            &MetadataPath::new(path("targets")),
            &MetadataPath::new(path("delegation")),
            &raw_delegation,
            NOW,
        ),
        Err(Error::VerificationFailure { .. })
    ));

    assert!(matches!(
        tuf.target_description(&TargetPath::new(path("foo"))),
        Err(Error::TargetUnavailable)
    ));
}

#[test]
fn diamond_delegation() {
    let etc_key: u64 = 1;
    let targets_key: u64 = 2;
    let delegation_a_key: u64 = 3;
    let delegation_b_key: u64 = 4;
    let delegation_c_key: u64 = 5;

    // targets delegates "foo" to delegation-a and "bar" to delegation-b;
    // both delegate onward to delegation-c, but delegation-b lists the
    // wrong key for it, so delegation-c verifies only through delegation-a.
    let delegations = Delegations {
        keys: vec![delegation_a_key, delegation_b_key],
        roles: vec![
            delegation("delegation-a", false, 1, &[delegation_a_key], &["foo"]),
            delegation("delegation-b", false, 1, &[delegation_b_key], &["bar"]),
        ],
    };
    let targets_raw = signed(
        &Metadata::Targets(TargetsMetadata {
            version: 1,
            expires: EXP,
            targets: vec![],
            delegations,
        }),
        &[targets_key],
    );

    let raw_delegation_a = signed(
        &Metadata::Targets(TargetsMetadata {
            version: 1,
            expires: EXP,
            targets: vec![],
            delegations: Delegations {
                keys: vec![delegation_c_key],
                roles: vec![delegation("delegation-c", false, 1, &[delegation_c_key], &["foo"])],
            },
        }),
        &[delegation_a_key],
    );

    // oops, wrong key.
    let raw_delegation_b = signed(
        &Metadata::Targets(TargetsMetadata {
            version: 1,
            expires: EXP,
            targets: vec![],
            delegations: Delegations {
                keys: vec![delegation_c_key],
                roles: vec![delegation("delegation-c", false, 1, &[delegation_b_key], &["bar"])],
            },
        }),
        &[delegation_b_key],
    );

    let foo_target_file: &[u8] = b"foo contents";
    let bar_target_file: &[u8] = b"bar contents";
    let raw_delegation_c = signed(
        &Metadata::Targets(TargetsMetadata {
            version: 1,
            expires: EXP,
            targets: vec![
                target_entry("foo", foo_target_file),
                target_entry("bar", bar_target_file),
            ],
            delegations: no_delegations(),
        }),
        &[delegation_c_key],
    );

    let root = make_root(etc_key, etc_key, targets_key, etc_key);
    let mut tuf = setup(&root, &targets_raw,
        &[
            ("delegation-a", &raw_delegation_a),
            ("delegation-b", &raw_delegation_b),
            ("delegation-c", &raw_delegation_c),
        ],
        etc_key, etc_key, etc_key);

    tuf.update_delegation(
        &MetadataPath::new(path("targets")),
        &MetadataPath::new(path("delegation-a")),
        &raw_delegation_a,
        NOW,
    )
    .unwrap();

    tuf.update_delegation(
        &MetadataPath::new(path("targets")),
        &MetadataPath::new(path("delegation-b")),
        &raw_delegation_b,
        NOW,
    )
    .unwrap();

    tuf.update_delegation(
        &MetadataPath::new(path("delegation-a")),
        &MetadataPath::new(path("delegation-c")),
        &raw_delegation_c,
        NOW,
    )
    .unwrap();

    assert!(matches!(
        tuf.update_delegation(
            &MetadataPath::new(path("delegation-b")),
            &MetadataPath::new(path("delegation-c")),
            &raw_delegation_c,
            NOW,
        ),
        Err(Error::VerificationFailure { .. })
    ));

    assert!(tuf.target_description(&TargetPath::new(path("foo"))).is_ok());

    assert!(matches!(
        tuf.target_description(&TargetPath::new(path("bar"))),
        Err(Error::TargetUnavailable)
    ));
}
