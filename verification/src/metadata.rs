//! Typed representations of the role metadata: root, timestamp, snapshot,
//! targets, and the delegation records, together with their canonical token
//! forms under the interchange.

use vstd::prelude::*;
use crate::codec::{
    Codec, dec_seq_m, m_seq, toks_seq, wf_seq, enc_vec, dec_vec_exec, lemma_rt_seq,
};
use crate::crypto::Signature;

verus! {

impl Codec for bool {
    type M = bool;

    open spec fn m(&self) -> bool {
        *self
    }

    open spec fn toks(m: bool) -> Seq<u64> {
        seq![if m { 1u64 } else { 0u64 }]
    }

    open spec fn wf_m(m: bool) -> bool {
        true
    }

    open spec fn dec(s: Seq<u64>) -> Option<(bool, Seq<u64>)> {
        if s.len() >= 1 && s[0] <= 1 {
            Some((s[0] == 1, s.drop_first()))
        } else {
            None
        }
    }

    proof fn lemma_rt(m: bool, r: Seq<u64>) {
        assert((Self::toks(m) + r).drop_first() =~= r);
    }

    proof fn lemma_wf(&self) {
    }

    fn enc(&self, out: &mut Vec<u64>) {
        if *self {
            out.push(1);
        } else {
            out.push(0);
        }
        proof {
            assert(out@ =~= old(out)@ + Self::toks(*self));
        }
    }

    fn dec_exec(toks: &Vec<u64>, i: usize) -> (r: Option<(bool, usize)>) {
        if i < toks.len() && toks[i] <= 1 {
            proof {
                assert(toks@.skip(i as int)[0] == toks@[i as int]);
                assert(toks@.skip(i as int).drop_first() =~= toks@.skip(i + 1));
            }
            Some((toks[i] == 1, i + 1))
        } else {
            proof {
                if i < toks.len() {
                    assert(toks@.skip(i as int)[0] == toks@[i as int]);
                }
            }
            None
        }
    }
}

/// The logical name of a role's metadata (for example `targets` or a
/// delegated role's name).
#[derive(Clone, Debug)]
pub struct MetadataPath(pub Vec<u8>);

/// The logical name of a target artifact.
#[derive(Clone, Debug)]
pub struct TargetPath(pub Vec<u8>);

impl MetadataPath {
    /// Build a path from its name bytes.
    pub fn new(name: Vec<u8>) -> (r: Self)
        ensures
            r.0@ == name@,
    {
        MetadataPath(name)
    }
}

impl TargetPath {
    /// Build a path from its name bytes.
    pub fn new(name: Vec<u8>) -> (r: Self)
        ensures
            r.0@ == name@,
    {
        TargetPath(name)
    }
}

/// Byte-for-byte equality of two byte strings.
pub fn bytes_eq(a: &Vec<u8>, b: &Vec<u8>) -> (r: bool)
    ensures
        r == (a@ == b@),
{
    if a.len() != b.len() {
        proof {
            assert(a@ != b@);
        }
        return false;
    }
    let mut i: usize = 0;
    while i < a.len()
        invariant
            a.len() == b.len(),
            i <= a.len(),
            forall|k: int| 0 <= k < i ==> a@[k] == b@[k],
        decreases a.len() - i,
    {
        if a[i] != b[i] {
            proof {
                assert(a@[i as int] != b@[i as int]);
            }
            return false;
        }
        i = i + 1;
    }
    proof {
        assert(a@ =~= b@);
    }
    true
}

impl Codec for MetadataPath {
    type M = Seq<u8>;

    open spec fn m(&self) -> Seq<u8> {
        self.0@
    }

    open spec fn toks(m: Seq<u8>) -> Seq<u64> {
        <Vec<u8> as Codec>::toks(m)
    }

    open spec fn wf_m(m: Seq<u8>) -> bool {
        <Vec<u8> as Codec>::wf_m(m)
    }

    open spec fn dec(s: Seq<u64>) -> Option<(Seq<u8>, Seq<u64>)> {
        <Vec<u8> as Codec>::dec(s)
    }

    proof fn lemma_rt(m: Seq<u8>, r: Seq<u64>) {
        <Vec<u8> as Codec>::lemma_rt(m, r);
    }

    proof fn lemma_wf(&self) {
        self.0.lemma_wf();
    }

    fn enc(&self, out: &mut Vec<u64>) {
        self.0.enc(out);
    }

    fn dec_exec(toks: &Vec<u64>, i: usize) -> (r: Option<(MetadataPath, usize)>) {
        match <Vec<u8> as Codec>::dec_exec(toks, i) {
            Option::None => None,
            Option::Some((v, j)) => Some((MetadataPath(v), j)),
        }
    }
}

impl Codec for TargetPath {
    type M = Seq<u8>;

    open spec fn m(&self) -> Seq<u8> {
        self.0@
    }

    open spec fn toks(m: Seq<u8>) -> Seq<u64> {
        <Vec<u8> as Codec>::toks(m)
    }

    open spec fn wf_m(m: Seq<u8>) -> bool {
        <Vec<u8> as Codec>::wf_m(m)
    }

    open spec fn dec(s: Seq<u64>) -> Option<(Seq<u8>, Seq<u64>)> {
        <Vec<u8> as Codec>::dec(s)
    }

    proof fn lemma_rt(m: Seq<u8>, r: Seq<u64>) {
        <Vec<u8> as Codec>::lemma_rt(m, r);
    }

    proof fn lemma_wf(&self) {
        self.0.lemma_wf();
    }

    fn enc(&self, out: &mut Vec<u64>) {
        self.0.enc(out);
    }

    fn dec_exec(toks: &Vec<u64>, i: usize) -> (r: Option<(TargetPath, usize)>) {
        match <Vec<u8> as Codec>::dec_exec(toks, i) {
            Option::None => None,
            Option::Some((v, j)) => Some((TargetPath(v), j)),
        }
    }
}

/// Description of a metadata file as another role records it: its version,
/// and optionally its length in bytes and its digest.
#[derive(Clone, Copy, Debug)]
pub struct MetadataDescription {
    pub version: u64,
    pub length: Option<u64>,
    pub digest: Option<u64>,
}

impl Codec for MetadataDescription {
    type M = MetadataDescription;

    open spec fn m(&self) -> MetadataDescription {
        *self
    }

    open spec fn toks(m: MetadataDescription) -> Seq<u64> {
        <u64 as Codec>::toks(m.version) + <Option<u64> as Codec>::toks(m.length)
            + <Option<u64> as Codec>::toks(m.digest)
    }

    open spec fn wf_m(m: MetadataDescription) -> bool {
        true
    }

    open spec fn dec(s: Seq<u64>) -> Option<(MetadataDescription, Seq<u64>)> {
        match <u64 as Codec>::dec(s) {
            Option::None => Option::None,
            Option::Some((version, s1)) => match <Option<u64> as Codec>::dec(s1) {
                Option::None => Option::None,
                Option::Some((length, s2)) => match <Option<u64> as Codec>::dec(s2) {
                    Option::None => Option::None,
                    Option::Some((digest, s3)) => Option::Some(
                        (MetadataDescription { version, length, digest }, s3),
                    ),
                },
            },
        }
    }

    proof fn lemma_rt(m: MetadataDescription, r: Seq<u64>) {
        let t1 = <Option<u64> as Codec>::toks(m.length)
            + (<Option<u64> as Codec>::toks(m.digest) + r);
        assert(Self::toks(m) + r =~= <u64 as Codec>::toks(m.version) + t1);
        <u64 as Codec>::lemma_rt(m.version, t1);
        let t2 = <Option<u64> as Codec>::toks(m.digest) + r;
        <Option<u64> as Codec>::lemma_rt(m.length, t2);
        <Option<u64> as Codec>::lemma_rt(m.digest, r);
    }

    proof fn lemma_wf(&self) {
    }

    fn enc(&self, out: &mut Vec<u64>) {
        self.version.enc(out);
        self.length.enc(out);
        self.digest.enc(out);
        proof {
            assert(out@ =~= old(out)@ + Self::toks(self.m()));
        }
    }

    fn dec_exec(toks: &Vec<u64>, i: usize) -> (r: Option<(MetadataDescription, usize)>) {
        let (version, j1) = match <u64 as Codec>::dec_exec(toks, i) {
            Option::None => { return None; },
            Option::Some(p) => p,
        };
        let (length, j2) = match <Option<u64> as Codec>::dec_exec(toks, j1) {
            Option::None => { return None; },
            Option::Some(p) => p,
        };
        let (digest, j3) = match <Option<u64> as Codec>::dec_exec(toks, j2) {
            Option::None => { return None; },
            Option::Some(p) => p,
        };
        Some((MetadataDescription { version, length, digest }, j3))
    }
}

/// Description of a target artifact: its length and its digest.
#[derive(Clone, Copy, Debug)]
pub struct TargetDescription {
    pub length: u64,
    pub digest: u64,
}

impl Codec for TargetDescription {
    type M = TargetDescription;

    open spec fn m(&self) -> TargetDescription {
        *self
    }

    open spec fn toks(m: TargetDescription) -> Seq<u64> {
        <u64 as Codec>::toks(m.length) + <u64 as Codec>::toks(m.digest)
    }

    open spec fn wf_m(m: TargetDescription) -> bool {
        true
    }

    open spec fn dec(s: Seq<u64>) -> Option<(TargetDescription, Seq<u64>)> {
        match <u64 as Codec>::dec(s) {
            Option::None => Option::None,
            Option::Some((length, s1)) => match <u64 as Codec>::dec(s1) {
                Option::None => Option::None,
                Option::Some((digest, s2)) => Option::Some(
                    (TargetDescription { length, digest }, s2),
                ),
            },
        }
    }

    proof fn lemma_rt(m: TargetDescription, r: Seq<u64>) {
        let t1 = <u64 as Codec>::toks(m.digest) + r;
        assert(Self::toks(m) + r =~= <u64 as Codec>::toks(m.length) + t1);
        <u64 as Codec>::lemma_rt(m.length, t1);
        <u64 as Codec>::lemma_rt(m.digest, r);
    }

    proof fn lemma_wf(&self) {
    }

    fn enc(&self, out: &mut Vec<u64>) {
        self.length.enc(out);
        self.digest.enc(out);
        proof {
            assert(out@ =~= old(out)@ + Self::toks(self.m()));
        }
    }

    fn dec_exec(toks: &Vec<u64>, i: usize) -> (r: Option<(TargetDescription, usize)>) {
        let (length, j1) = match <u64 as Codec>::dec_exec(toks, i) {
            Option::None => { return None; },
            Option::Some(p) => p,
        };
        let (digest, j2) = match <u64 as Codec>::dec_exec(toks, j1) {
            Option::None => { return None; },
            Option::Some(p) => p,
        };
        Some((TargetDescription { length, digest }, j2))
    }
}

/// A role definition inside the root: the authorized key identifiers and the
/// signature threshold.
#[derive(Clone, Debug)]
pub struct RoleDef {
    pub threshold: u64,
    pub key_ids: Vec<u64>,
}

/// Model of a role definition.
pub struct RoleDefM {
    pub threshold: u64,
    pub key_ids: Seq<u64>,
}

impl Codec for RoleDef {
    type M = RoleDefM;

    open spec fn m(&self) -> RoleDefM {
        RoleDefM { threshold: self.threshold, key_ids: self.key_ids@ }
    }

    open spec fn toks(m: RoleDefM) -> Seq<u64> {
        <u64 as Codec>::toks(m.threshold) + toks_seq::<u64>(m.key_ids)
    }

    open spec fn wf_m(m: RoleDefM) -> bool {
        wf_seq::<u64>(m.key_ids)
    }

    open spec fn dec(s: Seq<u64>) -> Option<(RoleDefM, Seq<u64>)> {
        match <u64 as Codec>::dec(s) {
            Option::None => Option::None,
            Option::Some((threshold, s1)) => match dec_seq_m::<u64>(s1) {
                Option::None => Option::None,
                Option::Some((key_ids, s2)) => Option::Some(
                    (RoleDefM { threshold, key_ids }, s2),
                ),
            },
        }
    }

    proof fn lemma_rt(m: RoleDefM, r: Seq<u64>) {
        let t1 = toks_seq::<u64>(m.key_ids) + r;
        assert(Self::toks(m) + r =~= <u64 as Codec>::toks(m.threshold) + t1);
        <u64 as Codec>::lemma_rt(m.threshold, t1);
        lemma_rt_seq::<u64>(m.key_ids, r);
        assert(Self::dec(Self::toks(m) + r) == Some((m, r)));
    }

    proof fn lemma_wf(&self) {
        vstd::std_specs::vec::axiom_spec_len(&self.key_ids);
        assert(m_seq(self.key_ids@) =~= self.key_ids@);
    }

    fn enc(&self, out: &mut Vec<u64>) {
        self.threshold.enc(out);
        enc_vec(&self.key_ids, out);
        proof {
            assert(m_seq(self.key_ids@) =~= self.key_ids@);
            assert(out@ =~= old(out)@ + Self::toks(self.m()));
        }
    }

    fn dec_exec(toks: &Vec<u64>, i: usize) -> (r: Option<(RoleDef, usize)>) {
        let (threshold, j1) = match <u64 as Codec>::dec_exec(toks, i) {
            Option::None => { return None; },
            Option::Some(p) => p,
        };
        let (key_ids, j2) = match dec_vec_exec::<u64>(toks, j1) {
            Option::None => { return None; },
            Option::Some(p) => p,
        };
        proof {
            assert(m_seq(key_ids@) =~= key_ids@);
        }
        Some((RoleDef { threshold, key_ids }, j2))
    }
}

impl Codec for Signature {
    type M = Signature;

    open spec fn m(&self) -> Signature {
        *self
    }

    open spec fn toks(m: Signature) -> Seq<u64> {
        <u64 as Codec>::toks(m.key_id) + <u64 as Codec>::toks(m.sig)
    }

    open spec fn wf_m(m: Signature) -> bool {
        true
    }

    open spec fn dec(s: Seq<u64>) -> Option<(Signature, Seq<u64>)> {
        match <u64 as Codec>::dec(s) {
            Option::None => Option::None,
            Option::Some((key_id, s1)) => match <u64 as Codec>::dec(s1) {
                Option::None => Option::None,
                Option::Some((sig, s2)) => Option::Some((Signature { key_id, sig }, s2)),
            },
        }
    }

    proof fn lemma_rt(m: Signature, r: Seq<u64>) {
        let t1 = <u64 as Codec>::toks(m.sig) + r;
        assert(Self::toks(m) + r =~= <u64 as Codec>::toks(m.key_id) + t1);
        <u64 as Codec>::lemma_rt(m.key_id, t1);
        <u64 as Codec>::lemma_rt(m.sig, r);
    }

    proof fn lemma_wf(&self) {
    }

    fn enc(&self, out: &mut Vec<u64>) {
        self.key_id.enc(out);
        self.sig.enc(out);
        proof {
            assert(out@ =~= old(out)@ + Self::toks(self.m()));
        }
    }

    fn dec_exec(toks: &Vec<u64>, i: usize) -> (r: Option<(Signature, usize)>) {
        let (key_id, j1) = match <u64 as Codec>::dec_exec(toks, i) {
            Option::None => { return None; },
            Option::Some(p) => p,
        };
        let (sig, j2) = match <u64 as Codec>::dec_exec(toks, j1) {
            Option::None => { return None; },
            Option::Some(p) => p,
        };
        Some((Signature { key_id, sig }, j2))
    }
}

/// Timestamp metadata: the freshest role, describing the current snapshot.
#[derive(Clone, Copy, Debug)]
pub struct TimestampMetadata {
    pub version: u64,
    pub expires: u64,
    pub snapshot: MetadataDescription,
}

impl Codec for TimestampMetadata {
    type M = TimestampMetadata;

    open spec fn m(&self) -> TimestampMetadata {
        *self
    }

    open spec fn toks(m: TimestampMetadata) -> Seq<u64> {
        <u64 as Codec>::toks(m.version) + <u64 as Codec>::toks(m.expires)
            + <MetadataDescription as Codec>::toks(m.snapshot)
    }

    open spec fn wf_m(m: TimestampMetadata) -> bool {
        true
    }

    open spec fn dec(s: Seq<u64>) -> Option<(TimestampMetadata, Seq<u64>)> {
        match <u64 as Codec>::dec(s) {
            Option::None => Option::None,
            Option::Some((version, s1)) => match <u64 as Codec>::dec(s1) {
                Option::None => Option::None,
                Option::Some((expires, s2)) => match <MetadataDescription as Codec>::dec(s2) {
                    Option::None => Option::None,
                    Option::Some((snapshot, s3)) => Option::Some(
                        (TimestampMetadata { version, expires, snapshot }, s3),
                    ),
                },
            },
        }
    }

    proof fn lemma_rt(m: TimestampMetadata, r: Seq<u64>) {
        let t2 = <MetadataDescription as Codec>::toks(m.snapshot) + r;
        let t1 = <u64 as Codec>::toks(m.expires) + t2;
        assert(Self::toks(m) + r =~= <u64 as Codec>::toks(m.version) + t1);
        <u64 as Codec>::lemma_rt(m.version, t1);
        <u64 as Codec>::lemma_rt(m.expires, t2);
        <MetadataDescription as Codec>::lemma_rt(m.snapshot, r);
    }

    proof fn lemma_wf(&self) {
    }

    fn enc(&self, out: &mut Vec<u64>) {
        self.version.enc(out);
        self.expires.enc(out);
        self.snapshot.enc(out);
        proof {
            assert(out@ =~= old(out)@ + Self::toks(self.m()));
        }
    }

    fn dec_exec(toks: &Vec<u64>, i: usize) -> (r: Option<(TimestampMetadata, usize)>) {
        let (version, j1) = match <u64 as Codec>::dec_exec(toks, i) {
            Option::None => { return None; },
            Option::Some(p) => p,
        };
        let (expires, j2) = match <u64 as Codec>::dec_exec(toks, j1) {
            Option::None => { return None; },
            Option::Some(p) => p,
        };
        let (snapshot, j3) = match <MetadataDescription as Codec>::dec_exec(toks, j2) {
            Option::None => { return None; },
            Option::Some(p) => p,
        };
        Some((TimestampMetadata { version, expires, snapshot }, j3))
    }
}

/// One snapshot entry: a metadata path and the description of its file.
#[derive(Clone, Debug)]
pub struct SnapEntry {
    pub path: MetadataPath,
    pub desc: MetadataDescription,
}

/// Model of a snapshot entry.
pub struct SnapEntryM {
    pub path: Seq<u8>,
    pub desc: MetadataDescription,
}

impl Codec for SnapEntry {
    type M = SnapEntryM;

    open spec fn m(&self) -> SnapEntryM {
        SnapEntryM { path: self.path.m(), desc: self.desc }
    }

    open spec fn toks(m: SnapEntryM) -> Seq<u64> {
        <MetadataPath as Codec>::toks(m.path) + <MetadataDescription as Codec>::toks(m.desc)
    }

    open spec fn wf_m(m: SnapEntryM) -> bool {
        <MetadataPath as Codec>::wf_m(m.path)
    }

    open spec fn dec(s: Seq<u64>) -> Option<(SnapEntryM, Seq<u64>)> {
        match <MetadataPath as Codec>::dec(s) {
            Option::None => Option::None,
            Option::Some((path, s1)) => match <MetadataDescription as Codec>::dec(s1) {
                Option::None => Option::None,
                Option::Some((desc, s2)) => Option::Some((SnapEntryM { path, desc }, s2)),
            },
        }
    }

    proof fn lemma_rt(m: SnapEntryM, r: Seq<u64>) {
        let t1 = <MetadataDescription as Codec>::toks(m.desc) + r;
        assert(Self::toks(m) + r =~= <MetadataPath as Codec>::toks(m.path) + t1);
        <MetadataPath as Codec>::lemma_rt(m.path, t1);
        <MetadataDescription as Codec>::lemma_rt(m.desc, r);
        assert(Self::dec(Self::toks(m) + r) == Some((m, r)));
    }

    proof fn lemma_wf(&self) {
        self.path.lemma_wf();
    }

    fn enc(&self, out: &mut Vec<u64>) {
        self.path.enc(out);
        self.desc.enc(out);
        proof {
            assert(out@ =~= old(out)@ + Self::toks(self.m()));
        }
    }

    fn dec_exec(toks: &Vec<u64>, i: usize) -> (r: Option<(SnapEntry, usize)>) {
        let (path, j1) = match <MetadataPath as Codec>::dec_exec(toks, i) {
            Option::None => { return None; },
            Option::Some(p) => p,
        };
        let (desc, j2) = match <MetadataDescription as Codec>::dec_exec(toks, j1) {
            Option::None => { return None; },
            Option::Some(p) => p,
        };
        Some((SnapEntry { path, desc }, j2))
    }
}

/// Snapshot metadata: the descriptions of the targets metadata and of every
/// delegated targets metadata.
#[derive(Clone, Debug)]
pub struct SnapshotMetadata {
    pub version: u64,
    pub expires: u64,
    pub metas: Vec<SnapEntry>,
}

/// Model of snapshot metadata.
pub struct SnapshotMetadataM {
    pub version: u64,
    pub expires: u64,
    pub metas: Seq<SnapEntryM>,
}

impl Codec for SnapshotMetadata {
    type M = SnapshotMetadataM;

    open spec fn m(&self) -> SnapshotMetadataM {
        SnapshotMetadataM { version: self.version, expires: self.expires, metas: m_seq(self.metas@) }
    }

    open spec fn toks(m: SnapshotMetadataM) -> Seq<u64> {
        <u64 as Codec>::toks(m.version) + <u64 as Codec>::toks(m.expires)
            + toks_seq::<SnapEntry>(m.metas)
    }

    open spec fn wf_m(m: SnapshotMetadataM) -> bool {
        wf_seq::<SnapEntry>(m.metas)
    }

    open spec fn dec(s: Seq<u64>) -> Option<(SnapshotMetadataM, Seq<u64>)> {
        match <u64 as Codec>::dec(s) {
            Option::None => Option::None,
            Option::Some((version, s1)) => match <u64 as Codec>::dec(s1) {
                Option::None => Option::None,
                Option::Some((expires, s2)) => match dec_seq_m::<SnapEntry>(s2) {
                    Option::None => Option::None,
                    Option::Some((metas, s3)) => Option::Some(
                        (SnapshotMetadataM { version, expires, metas }, s3),
                    ),
                },
            },
        }
    }

    proof fn lemma_rt(m: SnapshotMetadataM, r: Seq<u64>) {
        let t2 = toks_seq::<SnapEntry>(m.metas) + r;
        let t1 = <u64 as Codec>::toks(m.expires) + t2;
        assert(Self::toks(m) + r =~= <u64 as Codec>::toks(m.version) + t1);
        <u64 as Codec>::lemma_rt(m.version, t1);
        <u64 as Codec>::lemma_rt(m.expires, t2);
        lemma_rt_seq::<SnapEntry>(m.metas, r);
        assert(Self::dec(Self::toks(m) + r) == Some((m, r)));
    }

    proof fn lemma_wf(&self) {
        crate::codec::lemma_wf_vec::<SnapEntry>(&self.metas);
    }

    fn enc(&self, out: &mut Vec<u64>) {
        self.version.enc(out);
        self.expires.enc(out);
        enc_vec(&self.metas, out);
        proof {
            assert(out@ =~= old(out)@ + Self::toks(self.m()));
        }
    }

    fn dec_exec(toks: &Vec<u64>, i: usize) -> (r: Option<(SnapshotMetadata, usize)>) {
        let (version, j1) = match <u64 as Codec>::dec_exec(toks, i) {
            Option::None => { return None; },
            Option::Some(p) => p,
        };
        let (expires, j2) = match <u64 as Codec>::dec_exec(toks, j1) {
            Option::None => { return None; },
            Option::Some(p) => p,
        };
        let (metas, j3) = match dec_vec_exec::<SnapEntry>(toks, j2) {
            Option::None => { return None; },
            Option::Some(p) => p,
        };
        Some((SnapshotMetadata { version, expires, metas }, j3))
    }
}

/// One targets entry: a target path and the description of the artifact.
#[derive(Clone, Debug)]
pub struct TargetEntry {
    pub path: TargetPath,
    pub desc: TargetDescription,
}

/// Model of a targets entry.
pub struct TargetEntryM {
    pub path: Seq<u8>,
    pub desc: TargetDescription,
}

impl Codec for TargetEntry {
    type M = TargetEntryM;

    open spec fn m(&self) -> TargetEntryM {
        TargetEntryM { path: self.path.m(), desc: self.desc }
    }

    open spec fn toks(m: TargetEntryM) -> Seq<u64> {
        <TargetPath as Codec>::toks(m.path) + <TargetDescription as Codec>::toks(m.desc)
    }

    open spec fn wf_m(m: TargetEntryM) -> bool {
        <TargetPath as Codec>::wf_m(m.path)
    }

    open spec fn dec(s: Seq<u64>) -> Option<(TargetEntryM, Seq<u64>)> {
        match <TargetPath as Codec>::dec(s) {
            Option::None => Option::None,
            Option::Some((path, s1)) => match <TargetDescription as Codec>::dec(s1) {
                Option::None => Option::None,
                Option::Some((desc, s2)) => Option::Some((TargetEntryM { path, desc }, s2)),
            },
        }
    }

    proof fn lemma_rt(m: TargetEntryM, r: Seq<u64>) {
        let t1 = <TargetDescription as Codec>::toks(m.desc) + r;
        assert(Self::toks(m) + r =~= <TargetPath as Codec>::toks(m.path) + t1);
        <TargetPath as Codec>::lemma_rt(m.path, t1);
        <TargetDescription as Codec>::lemma_rt(m.desc, r);
        assert(Self::dec(Self::toks(m) + r) == Some((m, r)));
    }

    proof fn lemma_wf(&self) {
        self.path.lemma_wf();
    }

    fn enc(&self, out: &mut Vec<u64>) {
        self.path.enc(out);
        self.desc.enc(out);
        proof {
            assert(out@ =~= old(out)@ + Self::toks(self.m()));
        }
    }

    fn dec_exec(toks: &Vec<u64>, i: usize) -> (r: Option<(TargetEntry, usize)>) {
        let (path, j1) = match <TargetPath as Codec>::dec_exec(toks, i) {
            Option::None => { return None; },
            Option::Some(p) => p,
        };
        let (desc, j2) = match <TargetDescription as Codec>::dec_exec(toks, j1) {
            Option::None => { return None; },
            Option::Some(p) => p,
        };
        Some((TargetEntry { path, desc }, j2))
    }
}

/// One delegation record: the delegated role's name, whether the record
/// terminates the search at its level, the signature threshold, the
/// authorized key identifiers, and the path patterns it may serve.
#[derive(Clone, Debug)]
pub struct Delegation {
    pub role: MetadataPath,
    pub terminating: bool,
    pub threshold: u64,
    pub key_ids: Vec<u64>,
    pub paths: Vec<TargetPath>,
}

/// Model of a delegation record.
pub struct DelegationM {
    pub role: Seq<u8>,
    pub terminating: bool,
    pub threshold: u64,
    pub key_ids: Seq<u64>,
    pub paths: Seq<Seq<u8>>,
}

impl Codec for Delegation {
    type M = DelegationM;

    open spec fn m(&self) -> DelegationM {
        DelegationM {
            role: self.role.m(),
            terminating: self.terminating,
            threshold: self.threshold,
            key_ids: self.key_ids@,
            paths: m_seq(self.paths@),
        }
    }

    open spec fn toks(m: DelegationM) -> Seq<u64> {
        <MetadataPath as Codec>::toks(m.role) + <bool as Codec>::toks(m.terminating)
            + <u64 as Codec>::toks(m.threshold) + toks_seq::<u64>(m.key_ids)
            + toks_seq::<TargetPath>(m.paths)
    }

    open spec fn wf_m(m: DelegationM) -> bool {
        <MetadataPath as Codec>::wf_m(m.role) && wf_seq::<u64>(m.key_ids)
            && wf_seq::<TargetPath>(m.paths)
    }

    open spec fn dec(s: Seq<u64>) -> Option<(DelegationM, Seq<u64>)> {
        match <MetadataPath as Codec>::dec(s) {
            Option::None => Option::None,
            Option::Some((role, s1)) => match <bool as Codec>::dec(s1) {
                Option::None => Option::None,
                Option::Some((terminating, s2)) => match <u64 as Codec>::dec(s2) {
                    Option::None => Option::None,
                    Option::Some((threshold, s3)) => match dec_seq_m::<u64>(s3) {
                        Option::None => Option::None,
                        Option::Some((key_ids, s4)) => match dec_seq_m::<TargetPath>(s4) {
                            Option::None => Option::None,
                            Option::Some((paths, s5)) => Option::Some(
                                (DelegationM { role, terminating, threshold, key_ids, paths }, s5),
                            ),
                        },
                    },
                },
            },
        }
    }

    proof fn lemma_rt(m: DelegationM, r: Seq<u64>) {
        let t4 = toks_seq::<TargetPath>(m.paths) + r;
        let t3 = toks_seq::<u64>(m.key_ids) + t4;
        let t2 = <u64 as Codec>::toks(m.threshold) + t3;
        let t1 = <bool as Codec>::toks(m.terminating) + t2;
        assert(Self::toks(m) + r =~= <MetadataPath as Codec>::toks(m.role) + t1);
        <MetadataPath as Codec>::lemma_rt(m.role, t1);
        <bool as Codec>::lemma_rt(m.terminating, t2);
        <u64 as Codec>::lemma_rt(m.threshold, t3);
        lemma_rt_seq::<u64>(m.key_ids, t4);
        lemma_rt_seq::<TargetPath>(m.paths, r);
        assert(Self::dec(Self::toks(m) + r) == Some((m, r)));
    }

    proof fn lemma_wf(&self) {
        self.role.lemma_wf();
        crate::codec::lemma_wf_vec::<u64>(&self.key_ids);
        assert(m_seq(self.key_ids@) =~= self.key_ids@);
        crate::codec::lemma_wf_vec::<TargetPath>(&self.paths);
    }

    fn enc(&self, out: &mut Vec<u64>) {
        self.role.enc(out);
        self.terminating.enc(out);
        self.threshold.enc(out);
        enc_vec(&self.key_ids, out);
        enc_vec(&self.paths, out);
        proof {
            assert(m_seq(self.key_ids@) =~= self.key_ids@);
            assert(out@ =~= old(out)@ + Self::toks(self.m()));
        }
    }

    fn dec_exec(toks: &Vec<u64>, i: usize) -> (r: Option<(Delegation, usize)>) {
        let (role, j1) = match <MetadataPath as Codec>::dec_exec(toks, i) {
            Option::None => { return None; },
            Option::Some(p) => p,
        };
        let (terminating, j2) = match <bool as Codec>::dec_exec(toks, j1) {
            Option::None => { return None; },
            Option::Some(p) => p,
        };
        let (threshold, j3) = match <u64 as Codec>::dec_exec(toks, j2) {
            Option::None => { return None; },
            Option::Some(p) => p,
        };
        let (key_ids, j4) = match dec_vec_exec::<u64>(toks, j3) {
            Option::None => { return None; },
            Option::Some(p) => p,
        };
        let (paths, j5) = match dec_vec_exec::<TargetPath>(toks, j4) {
            Option::None => { return None; },
            Option::Some(p) => p,
        };
        proof {
            assert(m_seq(key_ids@) =~= key_ids@);
        }
        Some((Delegation { role, terminating, threshold, key_ids, paths }, j5))
    }
}

/// The delegations block of a targets role: a key table and an ordered list
/// of delegation records.
#[derive(Clone, Debug)]
pub struct Delegations {
    pub keys: Vec<u64>,
    pub roles: Vec<Delegation>,
}

/// Model of a delegations block.
pub struct DelegationsM {
    pub keys: Seq<u64>,
    pub roles: Seq<DelegationM>,
}

impl Codec for Delegations {
    type M = DelegationsM;

    open spec fn m(&self) -> DelegationsM {
        DelegationsM { keys: self.keys@, roles: m_seq(self.roles@) }
    }

    open spec fn toks(m: DelegationsM) -> Seq<u64> {
        toks_seq::<u64>(m.keys) + toks_seq::<Delegation>(m.roles)
    }

    open spec fn wf_m(m: DelegationsM) -> bool {
        wf_seq::<u64>(m.keys) && wf_seq::<Delegation>(m.roles)
    }

    open spec fn dec(s: Seq<u64>) -> Option<(DelegationsM, Seq<u64>)> {
        match dec_seq_m::<u64>(s) {
            Option::None => Option::None,
            Option::Some((keys, s1)) => match dec_seq_m::<Delegation>(s1) {
                Option::None => Option::None,
                Option::Some((roles, s2)) => Option::Some((DelegationsM { keys, roles }, s2)),
            },
        }
    }

    proof fn lemma_rt(m: DelegationsM, r: Seq<u64>) {
        let t1 = toks_seq::<Delegation>(m.roles) + r;
        assert(Self::toks(m) + r =~= toks_seq::<u64>(m.keys) + t1);
        lemma_rt_seq::<u64>(m.keys, t1);
        lemma_rt_seq::<Delegation>(m.roles, r);
        assert(Self::dec(Self::toks(m) + r) == Some((m, r)));
    }

    proof fn lemma_wf(&self) {
        crate::codec::lemma_wf_vec::<u64>(&self.keys);
        assert(m_seq(self.keys@) =~= self.keys@);
        crate::codec::lemma_wf_vec::<Delegation>(&self.roles);
    }

    fn enc(&self, out: &mut Vec<u64>) {
        enc_vec(&self.keys, out);
        enc_vec(&self.roles, out);
        proof {
            assert(m_seq(self.keys@) =~= self.keys@);
            assert(out@ =~= old(out)@ + Self::toks(self.m()));
        }
    }

    fn dec_exec(toks: &Vec<u64>, i: usize) -> (r: Option<(Delegations, usize)>) {
        let (keys, j1) = match dec_vec_exec::<u64>(toks, i) {
            Option::None => { return None; },
            Option::Some(p) => p,
        };
        let (roles, j2) = match dec_vec_exec::<Delegation>(toks, j1) {
            Option::None => { return None; },
            Option::Some(p) => p,
        };
        proof {
            assert(m_seq(keys@) =~= keys@);
        }
        Some((Delegations { keys, roles }, j2))
    }
}

/// Targets metadata: the targets a role declares directly, and its
/// delegations block (empty when the role delegates nothing).
#[derive(Clone, Debug)]
pub struct TargetsMetadata {
    pub version: u64,
    pub expires: u64,
    pub targets: Vec<TargetEntry>,
    pub delegations: Delegations,
}

/// Model of targets metadata.
pub struct TargetsMetadataM {
    pub version: u64,
    pub expires: u64,
    pub targets: Seq<TargetEntryM>,
    pub delegations: DelegationsM,
}

impl Codec for TargetsMetadata {
    type M = TargetsMetadataM;

    open spec fn m(&self) -> TargetsMetadataM {
        TargetsMetadataM {
            version: self.version,
            expires: self.expires,
            targets: m_seq(self.targets@),
            delegations: self.delegations.m(),
        }
    }

    open spec fn toks(m: TargetsMetadataM) -> Seq<u64> {
        <u64 as Codec>::toks(m.version) + <u64 as Codec>::toks(m.expires)
            + toks_seq::<TargetEntry>(m.targets) + <Delegations as Codec>::toks(m.delegations)
    }

    open spec fn wf_m(m: TargetsMetadataM) -> bool {
        wf_seq::<TargetEntry>(m.targets) && <Delegations as Codec>::wf_m(m.delegations)
    }

    open spec fn dec(s: Seq<u64>) -> Option<(TargetsMetadataM, Seq<u64>)> {
        match <u64 as Codec>::dec(s) {
            Option::None => Option::None,
            Option::Some((version, s1)) => match <u64 as Codec>::dec(s1) {
                Option::None => Option::None,
                Option::Some((expires, s2)) => match dec_seq_m::<TargetEntry>(s2) {
                    Option::None => Option::None,
                    Option::Some((targets, s3)) => match <Delegations as Codec>::dec(s3) {
                        Option::None => Option::None,
                        Option::Some((delegations, s4)) => Option::Some(
                            (TargetsMetadataM { version, expires, targets, delegations }, s4),
                        ),
                    },
                },
            },
        }
    }

    proof fn lemma_rt(m: TargetsMetadataM, r: Seq<u64>) {
        let t3 = <Delegations as Codec>::toks(m.delegations) + r;
        let t2 = toks_seq::<TargetEntry>(m.targets) + t3;
        let t1 = <u64 as Codec>::toks(m.expires) + t2;
        assert(Self::toks(m) + r =~= <u64 as Codec>::toks(m.version) + t1);
        <u64 as Codec>::lemma_rt(m.version, t1);
        <u64 as Codec>::lemma_rt(m.expires, t2);
        lemma_rt_seq::<TargetEntry>(m.targets, t3);
        <Delegations as Codec>::lemma_rt(m.delegations, r);
        assert(Self::dec(Self::toks(m) + r) == Some((m, r)));
    }

    proof fn lemma_wf(&self) {
        crate::codec::lemma_wf_vec::<TargetEntry>(&self.targets);
        self.delegations.lemma_wf();
    }

    fn enc(&self, out: &mut Vec<u64>) {
        self.version.enc(out);
        self.expires.enc(out);
        enc_vec(&self.targets, out);
        self.delegations.enc(out);
        proof {
            assert(out@ =~= old(out)@ + Self::toks(self.m()));
        }
    }

    fn dec_exec(toks: &Vec<u64>, i: usize) -> (r: Option<(TargetsMetadata, usize)>) {
        let (version, j1) = match <u64 as Codec>::dec_exec(toks, i) {
            Option::None => { return None; },
            Option::Some(p) => p,
        };
        let (expires, j2) = match <u64 as Codec>::dec_exec(toks, j1) {
            Option::None => { return None; },
            Option::Some(p) => p,
        };
        let (targets, j3) = match dec_vec_exec::<TargetEntry>(toks, j2) {
            Option::None => { return None; },
            Option::Some(p) => p,
        };
        let (delegations, j4) = match <Delegations as Codec>::dec_exec(toks, j3) {
            Option::None => { return None; },
            Option::Some(p) => p,
        };
        Some((TargetsMetadata { version, expires, targets, delegations }, j4))
    }
}

/// Root metadata: the trust anchor. It carries the key table and the four
/// top-level role definitions.
#[derive(Clone, Debug)]
pub struct RootMetadata {
    pub version: u64,
    pub expires: u64,
    pub keys: Vec<u64>,
    pub root_role: RoleDef,
    pub timestamp_role: RoleDef,
    pub snapshot_role: RoleDef,
    pub targets_role: RoleDef,
}

/// Model of root metadata.
pub struct RootMetadataM {
    pub version: u64,
    pub expires: u64,
    pub keys: Seq<u64>,
    pub root_role: RoleDefM,
    pub timestamp_role: RoleDefM,
    pub snapshot_role: RoleDefM,
    pub targets_role: RoleDefM,
}

impl Codec for RootMetadata {
    type M = RootMetadataM;

    open spec fn m(&self) -> RootMetadataM {
        RootMetadataM {
            version: self.version,
            expires: self.expires,
            keys: self.keys@,
            root_role: self.root_role.m(),
            timestamp_role: self.timestamp_role.m(),
            snapshot_role: self.snapshot_role.m(),
            targets_role: self.targets_role.m(),
        }
    }

    open spec fn toks(m: RootMetadataM) -> Seq<u64> {
        <u64 as Codec>::toks(m.version) + <u64 as Codec>::toks(m.expires)
            + toks_seq::<u64>(m.keys) + <RoleDef as Codec>::toks(m.root_role)
            + <RoleDef as Codec>::toks(m.timestamp_role)
            + <RoleDef as Codec>::toks(m.snapshot_role)
            + <RoleDef as Codec>::toks(m.targets_role)
    }

    open spec fn wf_m(m: RootMetadataM) -> bool {
        wf_seq::<u64>(m.keys) && <RoleDef as Codec>::wf_m(m.root_role)
            && <RoleDef as Codec>::wf_m(m.timestamp_role)
            && <RoleDef as Codec>::wf_m(m.snapshot_role)
            && <RoleDef as Codec>::wf_m(m.targets_role)
    }

    open spec fn dec(s: Seq<u64>) -> Option<(RootMetadataM, Seq<u64>)> {
        match <u64 as Codec>::dec(s) {
            Option::None => Option::None,
            Option::Some((version, s1)) => match <u64 as Codec>::dec(s1) {
                Option::None => Option::None,
                Option::Some((expires, s2)) => match dec_seq_m::<u64>(s2) {
                    Option::None => Option::None,
                    Option::Some((keys, s3)) => match <RoleDef as Codec>::dec(s3) {
                        Option::None => Option::None,
                        Option::Some((root_role, s4)) => match <RoleDef as Codec>::dec(s4) {
                            Option::None => Option::None,
                            Option::Some((timestamp_role, s5)) => match <RoleDef as Codec>::dec(s5) {
                                Option::None => Option::None,
                                Option::Some((snapshot_role, s6)) => match <RoleDef as Codec>::dec(s6) {
                                    Option::None => Option::None,
                                    Option::Some((targets_role, s7)) => Option::Some(
                                        (RootMetadataM {
                                            version,
                                            expires,
                                            keys,
                                            root_role,
                                            timestamp_role,
                                            snapshot_role,
                                            targets_role,
                                        }, s7),
                                    ),
                                },
                            },
                        },
                    },
                },
            },
        }
    }

    proof fn lemma_rt(m: RootMetadataM, r: Seq<u64>) {
        let t6 = <RoleDef as Codec>::toks(m.targets_role) + r;
        let t5 = <RoleDef as Codec>::toks(m.snapshot_role) + t6;
        let t4 = <RoleDef as Codec>::toks(m.timestamp_role) + t5;
        let t3 = <RoleDef as Codec>::toks(m.root_role) + t4;
        let t2 = toks_seq::<u64>(m.keys) + t3;
        let t1 = <u64 as Codec>::toks(m.expires) + t2;
        assert(Self::toks(m) + r =~= <u64 as Codec>::toks(m.version) + t1);
        <u64 as Codec>::lemma_rt(m.version, t1);
        <u64 as Codec>::lemma_rt(m.expires, t2);
        lemma_rt_seq::<u64>(m.keys, t3);
        <RoleDef as Codec>::lemma_rt(m.root_role, t4);
        <RoleDef as Codec>::lemma_rt(m.timestamp_role, t5);
        <RoleDef as Codec>::lemma_rt(m.snapshot_role, t6);
        <RoleDef as Codec>::lemma_rt(m.targets_role, r);
        assert(Self::dec(Self::toks(m) + r) == Some((m, r)));
    }

    proof fn lemma_wf(&self) {
        crate::codec::lemma_wf_vec::<u64>(&self.keys);
        assert(m_seq(self.keys@) =~= self.keys@);
        self.root_role.lemma_wf();
        self.timestamp_role.lemma_wf();
        self.snapshot_role.lemma_wf();
        self.targets_role.lemma_wf();
    }

    fn enc(&self, out: &mut Vec<u64>) {
        self.version.enc(out);
        self.expires.enc(out);
        enc_vec(&self.keys, out);
        self.root_role.enc(out);
        self.timestamp_role.enc(out);
        self.snapshot_role.enc(out);
        self.targets_role.enc(out);
        proof {
            assert(m_seq(self.keys@) =~= self.keys@);
            assert(out@ =~= old(out)@ + Self::toks(self.m()));
        }
    }

    fn dec_exec(toks: &Vec<u64>, i: usize) -> (r: Option<(RootMetadata, usize)>) {
        let (version, j1) = match <u64 as Codec>::dec_exec(toks, i) {
            Option::None => { return None; },
            Option::Some(p) => p,
        };
        let (expires, j2) = match <u64 as Codec>::dec_exec(toks, j1) {
            Option::None => { return None; },
            Option::Some(p) => p,
        };
        let (keys, j3) = match dec_vec_exec::<u64>(toks, j2) {
            Option::None => { return None; },
            Option::Some(p) => p,
        };
        let (root_role, j4) = match <RoleDef as Codec>::dec_exec(toks, j3) {
            Option::None => { return None; },
            Option::Some(p) => p,
        };
        let (timestamp_role, j5) = match <RoleDef as Codec>::dec_exec(toks, j4) {
            Option::None => { return None; },
            Option::Some(p) => p,
        };
        let (snapshot_role, j6) = match <RoleDef as Codec>::dec_exec(toks, j5) {
            Option::None => { return None; },
            Option::Some(p) => p,
        };
        let (targets_role, j7) = match <RoleDef as Codec>::dec_exec(toks, j6) {
            Option::None => { return None; },
            Option::Some(p) => p,
        };
        proof {
            assert(m_seq(keys@) =~= keys@);
        }
        Some((RootMetadata {
            version,
            expires,
            keys,
            root_role,
            timestamp_role,
            snapshot_role,
            targets_role,
        }, j7))
    }
}

/// A parsed metadata payload of any of the four role kinds.
#[derive(Clone, Debug)]
pub enum Metadata {
    Root(RootMetadata),
    Timestamp(TimestampMetadata),
    Snapshot(SnapshotMetadata),
    Targets(TargetsMetadata),
}

/// Model of a metadata payload.
pub enum MetadataM {
    Root(RootMetadataM),
    Timestamp(TimestampMetadata),
    Snapshot(SnapshotMetadataM),
    Targets(TargetsMetadataM),
}

impl Codec for Metadata {
    type M = MetadataM;

    open spec fn m(&self) -> MetadataM {
        match self {
            Metadata::Root(x) => MetadataM::Root(x.m()),
            Metadata::Timestamp(x) => MetadataM::Timestamp(x.m()),
            Metadata::Snapshot(x) => MetadataM::Snapshot(x.m()),
            Metadata::Targets(x) => MetadataM::Targets(x.m()),
        }
    }

    open spec fn toks(m: MetadataM) -> Seq<u64> {
        match m {
            MetadataM::Root(x) => seq![1u64] + <RootMetadata as Codec>::toks(x),
            MetadataM::Timestamp(x) => seq![2u64] + <TimestampMetadata as Codec>::toks(x),
            MetadataM::Snapshot(x) => seq![3u64] + <SnapshotMetadata as Codec>::toks(x),
            MetadataM::Targets(x) => seq![4u64] + <TargetsMetadata as Codec>::toks(x),
        }
    }

    open spec fn wf_m(m: MetadataM) -> bool {
        match m {
            MetadataM::Root(x) => <RootMetadata as Codec>::wf_m(x),
            MetadataM::Timestamp(x) => <TimestampMetadata as Codec>::wf_m(x),
            MetadataM::Snapshot(x) => <SnapshotMetadata as Codec>::wf_m(x),
            MetadataM::Targets(x) => <TargetsMetadata as Codec>::wf_m(x),
        }
    }

    open spec fn dec(s: Seq<u64>) -> Option<(MetadataM, Seq<u64>)> {
        match <u64 as Codec>::dec(s) {
            Option::None => Option::None,
            Option::Some((tag, s1)) => if tag == 1 {
                match <RootMetadata as Codec>::dec(s1) {
                    Option::None => Option::None,
                    Option::Some((x, s2)) => Option::Some((MetadataM::Root(x), s2)),
                }
            } else if tag == 2 {
                match <TimestampMetadata as Codec>::dec(s1) {
                    Option::None => Option::None,
                    Option::Some((x, s2)) => Option::Some((MetadataM::Timestamp(x), s2)),
                }
            } else if tag == 3 {
                match <SnapshotMetadata as Codec>::dec(s1) {
                    Option::None => Option::None,
                    Option::Some((x, s2)) => Option::Some((MetadataM::Snapshot(x), s2)),
                }
            } else if tag == 4 {
                match <TargetsMetadata as Codec>::dec(s1) {
                    Option::None => Option::None,
                    Option::Some((x, s2)) => Option::Some((MetadataM::Targets(x), s2)),
                }
            } else {
                Option::None
            },
        }
    }

    #[verifier::spinoff_prover]
    #[verifier::rlimit(50)]
    proof fn lemma_rt(m: MetadataM, r: Seq<u64>) {
        match m {
            MetadataM::Root(x) => {
                let t1 = <RootMetadata as Codec>::toks(x) + r;
                assert(Self::toks(m) + r =~= seq![1u64] + t1);
                <u64 as Codec>::lemma_rt(1u64, t1);
                <RootMetadata as Codec>::lemma_rt(x, r);
            },
            MetadataM::Timestamp(x) => {
                let t1 = <TimestampMetadata as Codec>::toks(x) + r;
                assert(Self::toks(m) + r =~= seq![2u64] + t1);
                <u64 as Codec>::lemma_rt(2u64, t1);
                <TimestampMetadata as Codec>::lemma_rt(x, r);
            },
            MetadataM::Snapshot(x) => {
                let t1 = <SnapshotMetadata as Codec>::toks(x) + r;
                assert(Self::toks(m) + r =~= seq![3u64] + t1);
                <u64 as Codec>::lemma_rt(3u64, t1);
                <SnapshotMetadata as Codec>::lemma_rt(x, r);
            },
            MetadataM::Targets(x) => {
                let t1 = <TargetsMetadata as Codec>::toks(x) + r;
                assert(Self::toks(m) + r =~= seq![4u64] + t1);
                <u64 as Codec>::lemma_rt(4u64, t1);
                <TargetsMetadata as Codec>::lemma_rt(x, r);
            },
        }
    }

    proof fn lemma_wf(&self) {
        match self {
            Metadata::Root(x) => x.lemma_wf(),
            Metadata::Timestamp(x) => x.lemma_wf(),
            Metadata::Snapshot(x) => x.lemma_wf(),
            Metadata::Targets(x) => x.lemma_wf(),
        }
    }

    fn enc(&self, out: &mut Vec<u64>) {
        match self {
            Metadata::Root(x) => {
                out.push(1);
                x.enc(out);
            },
            Metadata::Timestamp(x) => {
                out.push(2);
                x.enc(out);
            },
            Metadata::Snapshot(x) => {
                out.push(3);
                x.enc(out);
            },
            Metadata::Targets(x) => {
                out.push(4);
                x.enc(out);
            },
        }
        proof {
            assert(out@ =~= old(out)@ + Self::toks(self.m()));
        }
    }

    fn dec_exec(toks: &Vec<u64>, i: usize) -> (r: Option<(Metadata, usize)>) {
        let (tag, j1) = match <u64 as Codec>::dec_exec(toks, i) {
            Option::None => { return None; },
            Option::Some(p) => p,
        };
        if tag == 1 {
            match <RootMetadata as Codec>::dec_exec(toks, j1) {
                Option::None => None,
                Option::Some((x, j2)) => Some((Metadata::Root(x), j2)),
            }
        } else if tag == 2 {
            match <TimestampMetadata as Codec>::dec_exec(toks, j1) {
                Option::None => None,
                Option::Some((x, j2)) => Some((Metadata::Timestamp(x), j2)),
            }
        } else if tag == 3 {
            match <SnapshotMetadata as Codec>::dec_exec(toks, j1) {
                Option::None => None,
                Option::Some((x, j2)) => Some((Metadata::Snapshot(x), j2)),
            }
        } else if tag == 4 {
            match <TargetsMetadata as Codec>::dec_exec(toks, j1) {
                Option::None => None,
                Option::Some((x, j2)) => Some((Metadata::Targets(x), j2)),
            }
        } else {
            None
        }
    }
}

/// A signed envelope: the canonical payload bytes exactly as received, and
/// the signatures over them.
#[derive(Clone, Debug)]
pub struct Envelope {
    pub payload: Vec<u8>,
    pub sigs: Vec<Signature>,
}

/// Model of an envelope.
pub struct EnvelopeM {
    pub payload: Seq<u8>,
    pub sigs: Seq<Signature>,
}

impl Codec for Envelope {
    type M = EnvelopeM;

    open spec fn m(&self) -> EnvelopeM {
        EnvelopeM { payload: self.payload@, sigs: self.sigs@ }
    }

    open spec fn toks(m: EnvelopeM) -> Seq<u64> {
        <Vec<u8> as Codec>::toks(m.payload) + toks_seq::<Signature>(m.sigs)
    }

    open spec fn wf_m(m: EnvelopeM) -> bool {
        <Vec<u8> as Codec>::wf_m(m.payload) && wf_seq::<Signature>(m.sigs)
    }

    open spec fn dec(s: Seq<u64>) -> Option<(EnvelopeM, Seq<u64>)> {
        match <Vec<u8> as Codec>::dec(s) {
            Option::None => Option::None,
            Option::Some((payload, s1)) => match dec_seq_m::<Signature>(s1) {
                Option::None => Option::None,
                Option::Some((sigs, s2)) => Option::Some((EnvelopeM { payload, sigs }, s2)),
            },
        }
    }

    proof fn lemma_rt(m: EnvelopeM, r: Seq<u64>) {
        let t1 = toks_seq::<Signature>(m.sigs) + r;
        assert(Self::toks(m) + r =~= <Vec<u8> as Codec>::toks(m.payload) + t1);
        <Vec<u8> as Codec>::lemma_rt(m.payload, t1);
        lemma_rt_seq::<Signature>(m.sigs, r);
        assert(Self::dec(Self::toks(m) + r) == Some((m, r)));
    }

    proof fn lemma_wf(&self) {
        self.payload.lemma_wf();
        crate::codec::lemma_wf_vec::<Signature>(&self.sigs);
        assert(m_seq(self.sigs@) =~= self.sigs@);
    }

    fn enc(&self, out: &mut Vec<u64>) {
        self.payload.enc(out);
        enc_vec(&self.sigs, out);
        proof {
            assert(m_seq(self.sigs@) =~= self.sigs@);
            assert(out@ =~= old(out)@ + Self::toks(self.m()));
        }
    }

    fn dec_exec(toks: &Vec<u64>, i: usize) -> (r: Option<(Envelope, usize)>) {
        let (payload, j1) = match <Vec<u8> as Codec>::dec_exec(toks, i) {
            Option::None => { return None; },
            Option::Some(p) => p,
        };
        let (sigs, j2) = match dec_vec_exec::<Signature>(toks, j1) {
            Option::None => { return None; },
            Option::Some(p) => p,
        };
        proof {
            assert(m_seq(sigs@) =~= sigs@);
        }
        Some((Envelope { payload, sigs }, j2))
    }
}

} // verus!
