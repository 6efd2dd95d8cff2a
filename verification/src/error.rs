//! The error taxonomy: every way an admission or a resolution can fail.

use vstd::prelude::*;

verus! {

/// The role a failure speaks of.
#[derive(Clone, Copy, Debug, PartialEq, Eq, Structural)]
pub enum RoleKind {
    Root,
    Timestamp,
    Snapshot,
    Targets,
    Delegated,
}

/// A failure of admission or resolution. Admission errors always leave the
/// database unchanged.
#[derive(Clone, Debug)]
pub enum Error {
    /// Too few distinct authorized keys signed the metadata: `got` valid
    /// signatures where `need` were required.
    VerificationFailure { role: RoleKind, got: u64, need: u64 },
    /// The metadata is past its expiration as of the injected clock.
    Expired { role: RoleKind, expired_at: u64 },
    /// The bytes do not parse, the payload is of the wrong role kind, a
    /// structural rule is broken, or a recorded description does not match.
    MalformedMetadata,
    /// A rollback attempt: the offered version is behind the trusted one.
    VersionLessThanCurrent { role: RoleKind, got: u64, current: u64 },
    /// A required predecessor or parent has not been admitted.
    MetadataNotFound { path: Vec<u8> },
    /// Resolution found no authorized description for the path.
    TargetUnavailable,
    /// The delegation edge does not authorize the child.
    NotAuthorized,
    /// A byte encoding could not be produced or consumed.
    Encoding,
}

} // verus!
