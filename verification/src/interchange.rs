//! The interchange surface: canonical byte encodings of metadata payloads
//! and signed envelopes, their parsers, and the round-trip laws.

use vstd::prelude::*;
use crate::codec::{Codec, bytes_of_toks, toks_of_bytes, lemma_toks_of_bytes_rt, toks_to_bytes,
    bytes_to_toks};
use crate::metadata::{Metadata, MetadataM, Envelope, EnvelopeM};

verus! {

/// Canonical byte form of a metadata payload.
pub open spec fn canonical_meta_bytes(m: MetadataM) -> Seq<u8> {
    bytes_of_toks(<Metadata as Codec>::toks(m))
}

/// Parse a metadata payload from its canonical byte form; `None` on any
/// structural failure, including trailing data.
pub open spec fn parse_meta_bytes(b: Seq<u8>) -> Option<MetadataM> {
    match toks_of_bytes(b) {
        Option::None => Option::None,
        Option::Some(ts) => match <Metadata as Codec>::dec(ts) {
            Option::None => Option::None,
            Option::Some((m, rest)) => if rest.len() == 0 {
                Option::Some(m)
            } else {
                Option::None
            },
        },
    }
}

/// Canonical byte form of a signed envelope.
pub open spec fn canonical_env_bytes(m: EnvelopeM) -> Seq<u8> {
    bytes_of_toks(<Envelope as Codec>::toks(m))
}

/// Parse a signed envelope from its canonical byte form.
pub open spec fn parse_env_bytes(b: Seq<u8>) -> Option<EnvelopeM> {
    match toks_of_bytes(b) {
        Option::None => Option::None,
        Option::Some(ts) => match <Envelope as Codec>::dec(ts) {
            Option::None => Option::None,
            Option::Some((m, rest)) => if rest.len() == 0 {
                Option::Some(m)
            } else {
                Option::None
            },
        },
    }
}

/// Round trip, first direction: parsing a canonical encoding yields the
/// encoded payload back.
pub proof fn lemma_parse_canonical_meta(m: MetadataM)
    requires
        <Metadata as Codec>::wf_m(m),
    ensures
        parse_meta_bytes(canonical_meta_bytes(m)) == Some(m),
{
    let ts = <Metadata as Codec>::toks(m);
    lemma_toks_of_bytes_rt(ts);
    <Metadata as Codec>::lemma_rt(m, Seq::empty());
    assert(ts + Seq::<u64>::empty() =~= ts);
}

/// Round trip, second direction: re-canonicalizing a parsed canonical
/// encoding yields the same bytes back.
pub proof fn lemma_canonical_parse_meta(b: Seq<u8>, m: MetadataM)
    requires
        <Metadata as Codec>::wf_m(m),
        b == canonical_meta_bytes(m),
    ensures
        parse_meta_bytes(b) is Some,
        canonical_meta_bytes(parse_meta_bytes(b).unwrap()) == b,
{
    lemma_parse_canonical_meta(m);
}

/// Round trip for envelopes, first direction.
pub proof fn lemma_parse_canonical_env(m: EnvelopeM)
    requires
        <Envelope as Codec>::wf_m(m),
    ensures
        parse_env_bytes(canonical_env_bytes(m)) == Some(m),
{
    let ts = <Envelope as Codec>::toks(m);
    lemma_toks_of_bytes_rt(ts);
    <Envelope as Codec>::lemma_rt(m, Seq::empty());
    assert(ts + Seq::<u64>::empty() =~= ts);
}

/// Round trip for envelopes, second direction.
pub proof fn lemma_canonical_parse_env(b: Seq<u8>, m: EnvelopeM)
    requires
        <Envelope as Codec>::wf_m(m),
        b == canonical_env_bytes(m),
    ensures
        parse_env_bytes(b) is Some,
        canonical_env_bytes(parse_env_bytes(b).unwrap()) == b,
{
    lemma_parse_canonical_env(m);
}

/// Produce the canonical byte form of a metadata payload.
pub fn canonicalize_meta(m: &Metadata) -> (r: Vec<u8>)
    ensures
        r@ == canonical_meta_bytes(m.m()),
{
    let mut toks: Vec<u64> = Vec::new();
    m.enc(&mut toks);
    proof {
        assert(toks@ =~= <Metadata as Codec>::toks(m.m()));
    }
    toks_to_bytes(&toks)
}

/// Parse a metadata payload from bytes.
pub fn parse_meta(b: &Vec<u8>) -> (r: Option<Metadata>)
    ensures
        r is Some <==> parse_meta_bytes(b@) is Some,
        r matches Some(x) ==> x.m() == parse_meta_bytes(b@).unwrap(),
{
    let toks = match bytes_to_toks(b) {
        Option::None => { return None; },
        Option::Some(t) => t,
    };
    proof {
        assert(toks@.skip(0) =~= toks@);
    }
    match <Metadata as Codec>::dec_exec(&toks, 0) {
        Option::None => None,
        Option::Some((x, j)) => {
            if j == toks.len() {
                proof {
                    assert(toks@.skip(j as int).len() == 0);
                }
                Some(x)
            } else {
                proof {
                    assert(toks@.skip(j as int).len() > 0);
                }
                None
            }
        },
    }
}

/// Produce the canonical byte form of a signed envelope.
pub fn canonicalize_env(e: &Envelope) -> (r: Vec<u8>)
    ensures
        r@ == canonical_env_bytes(e.m()),
{
    let mut toks: Vec<u64> = Vec::new();
    e.enc(&mut toks);
    proof {
        assert(toks@ =~= <Envelope as Codec>::toks(e.m()));
    }
    toks_to_bytes(&toks)
}

/// Parse a signed envelope from bytes.
pub fn parse_env(b: &Vec<u8>) -> (r: Option<Envelope>)
    ensures
        r is Some <==> parse_env_bytes(b@) is Some,
        r matches Some(x) ==> x.m() == parse_env_bytes(b@).unwrap(),
{
    let toks = match bytes_to_toks(b) {
        Option::None => { return None; },
        Option::Some(t) => t,
    };
    proof {
        assert(toks@.skip(0) =~= toks@);
    }
    match <Envelope as Codec>::dec_exec(&toks, 0) {
        Option::None => None,
        Option::Some((x, j)) => {
            if j == toks.len() {
                proof {
                    assert(toks@.skip(j as int).len() == 0);
                }
                Some(x)
            } else {
                proof {
                    assert(toks@.skip(j as int).len() > 0);
                }
                None
            }
        },
    }
}

} // verus!
