//! The canonical interchange: a deterministic byte encoding over which
//! signatures are computed, together with its parser.
//!
//! Every structure is first flattened to a sequence of 64-bit tokens, and the
//! token stream is laid out as big-endian bytes. Each encodable type carries
//! its token form, its decoder, and a proof that decoding inverts encoding,
//! which is what the round-trip law of the interchange rests on.

use vstd::prelude::*;

verus! {

// ---------------------------------------------------------------------------
// Token layer: u64 tokens laid out as 8 big-endian bytes each.
// ---------------------------------------------------------------------------

/// The 8 big-endian bytes of one token.
pub open spec fn u64_bytes(v: u64) -> Seq<u8> {
    seq![
        (v >> 56) as u8,
        (v >> 48) as u8,
        (v >> 40) as u8,
        (v >> 32) as u8,
        (v >> 24) as u8,
        (v >> 16) as u8,
        (v >> 8) as u8,
        v as u8,
    ]
}

/// Recombine 8 big-endian bytes into one token.
pub open spec fn u64_of_bytes(
    b0: u8, b1: u8, b2: u8, b3: u8, b4: u8, b5: u8, b6: u8, b7: u8,
) -> u64 {
    ((b0 as u64) << 56) | ((b1 as u64) << 48) | ((b2 as u64) << 40) | ((b3 as u64) << 32)
        | ((b4 as u64) << 24) | ((b5 as u64) << 16) | ((b6 as u64) << 8) | (b7 as u64)
}

/// Splitting a token into bytes and recombining them yields the token back.
pub proof fn lemma_u64_bytes_rt(v: u64)
    ensures
        u64_of_bytes(
            (v >> 56) as u8, (v >> 48) as u8, (v >> 40) as u8, (v >> 32) as u8,
            (v >> 24) as u8, (v >> 16) as u8, (v >> 8) as u8, v as u8,
        ) == v,
{
    assert((((v >> 56) as u8 as u64) << 56) | (((v >> 48) as u8 as u64) << 48)
        | (((v >> 40) as u8 as u64) << 40) | (((v >> 32) as u8 as u64) << 32)
        | (((v >> 24) as u8 as u64) << 24) | (((v >> 16) as u8 as u64) << 16)
        | (((v >> 8) as u8 as u64) << 8) | (v as u8 as u64) == v) by (bit_vector);
}

/// Byte form of a token stream.
pub open spec fn bytes_of_toks(ts: Seq<u64>) -> Seq<u8>
    decreases ts.len(),
{
    if ts.len() == 0 {
        Seq::empty()
    } else {
        u64_bytes(ts[0]) + bytes_of_toks(ts.drop_first())
    }
}

/// Token stream read back from bytes; fails unless the length is a multiple
/// of eight.
pub open spec fn toks_of_bytes(b: Seq<u8>) -> Option<Seq<u64>>
    decreases b.len(),
{
    if b.len() == 0 {
        Some(Seq::empty())
    } else if b.len() >= 8 {
        match toks_of_bytes(b.skip(8)) {
            Option::None => Option::None,
            Option::Some(ts) => Option::Some(
                seq![u64_of_bytes(b[0], b[1], b[2], b[3], b[4], b[5], b[6], b[7])] + ts,
            ),
        }
    } else {
        Option::None
    }
}

/// Reading bytes back as tokens inverts the byte layout.
pub proof fn lemma_toks_of_bytes_rt(ts: Seq<u64>)
    ensures
        toks_of_bytes(bytes_of_toks(ts)) == Some(ts),
    decreases ts.len(),
{
    if ts.len() == 0 {
        assert(bytes_of_toks(ts) =~= Seq::<u8>::empty());
    } else {
        let b = bytes_of_toks(ts);
        let head = u64_bytes(ts[0]);
        let rest = bytes_of_toks(ts.drop_first());
        assert(b == head + rest);
        assert(b.len() >= 8);
        assert(b.skip(8) =~= rest);
        lemma_toks_of_bytes_rt(ts.drop_first());
        lemma_u64_bytes_rt(ts[0]);
        assert(b[0] == head[0] && b[1] == head[1] && b[2] == head[2] && b[3] == head[3]
            && b[4] == head[4] && b[5] == head[5] && b[6] == head[6] && b[7] == head[7]);
        assert(u64_of_bytes(b[0], b[1], b[2], b[3], b[4], b[5], b[6], b[7]) == ts[0]);
        assert(seq![ts[0]] + ts.drop_first() =~= ts);
    }
}

/// Byte forms concatenate as the token streams do.
pub proof fn lemma_bytes_of_toks_app(a: Seq<u64>, b: Seq<u64>)
    ensures
        bytes_of_toks(a + b) == bytes_of_toks(a) + bytes_of_toks(b),
    decreases a.len(),
{
    if a.len() == 0 {
        assert(a + b =~= b);
        assert(bytes_of_toks(a) + bytes_of_toks(b) =~= bytes_of_toks(b));
    } else {
        assert((a + b).drop_first() =~= a.drop_first() + b);
        lemma_bytes_of_toks_app(a.drop_first(), b);
        assert(bytes_of_toks(a + b) =~= bytes_of_toks(a) + bytes_of_toks(b));
    }
}

/// Lay a token stream out as bytes.
pub fn toks_to_bytes(ts: &Vec<u64>) -> (r: Vec<u8>)
    ensures
        r@ == bytes_of_toks(ts@),
{
    let mut out: Vec<u8> = Vec::new();
    let mut i: usize = 0;
    while i < ts.len()
        invariant
            i <= ts.len(),
            out@ == bytes_of_toks(ts@.take(i as int)),
        decreases ts.len() - i,
    {
        let v = ts[i];
        out.push((v >> 56) as u8);
        out.push((v >> 48) as u8);
        out.push((v >> 40) as u8);
        out.push((v >> 32) as u8);
        out.push((v >> 24) as u8);
        out.push((v >> 16) as u8);
        out.push((v >> 8) as u8);
        out.push(v as u8);
        proof {
            assert(ts@.take(i + 1) =~= ts@.take(i as int) + seq![ts@[i as int]]);
            lemma_bytes_of_toks_app(ts@.take(i as int), seq![ts@[i as int]]);
            assert(seq![ts@[i as int]].drop_first() =~= Seq::<u64>::empty());
            assert(bytes_of_toks(Seq::<u64>::empty()) =~= Seq::<u8>::empty());
            assert(u64_bytes(ts@[i as int]) + Seq::<u8>::empty() =~= u64_bytes(ts@[i as int]));
            assert(bytes_of_toks(seq![ts@[i as int]]) =~= u64_bytes(ts@[i as int]));
            assert(out@ =~= bytes_of_toks(ts@.take(i + 1)));
        }
        i = i + 1;
    }
    proof {
        assert(ts@.take(ts@.len() as int) =~= ts@);
    }
    out
}

/// Read a byte string back as a token stream.
pub fn bytes_to_toks(b: &Vec<u8>) -> (r: Option<Vec<u64>>)
    ensures
        match toks_of_bytes(b@) {
            Option::None => r is None,
            Option::Some(ts) => r matches Some(v) && v@ == ts,
        },
{
    let mut out: Vec<u64> = Vec::new();
    let ok = bytes_to_toks_at(b, 0, &mut out);
    proof {
        assert(b@.skip(0) =~= b@);
        if toks_of_bytes(b@) is Some {
            assert(out@ =~= toks_of_bytes(b@).unwrap());
        }
    }
    if ok {
        Some(out)
    } else {
        None
    }
}

/// Read tokens from `b` starting at `i`, appending to `out`.
fn bytes_to_toks_at(b: &Vec<u8>, i: usize, out: &mut Vec<u64>) -> (ok: bool)
    requires
        i <= b.len(),
    ensures
        match toks_of_bytes(b@.skip(i as int)) {
            Option::None => !ok,
            Option::Some(ts) => ok && final(out)@ == old(out)@ + ts,
        },
    decreases b.len() - i,
{
    if i == b.len() {
        proof {
            assert(b@.skip(i as int) =~= Seq::<u8>::empty());
            assert(out@ =~= out@ + Seq::<u64>::empty());
        }
        true
    } else if b.len() - i >= 8 {
        let v: u64 = ((b[i] as u64) << 56) | ((b[i + 1] as u64) << 48)
            | ((b[i + 2] as u64) << 40) | ((b[i + 3] as u64) << 32)
            | ((b[i + 4] as u64) << 24) | ((b[i + 5] as u64) << 16)
            | ((b[i + 6] as u64) << 8) | (b[i + 7] as u64);
        out.push(v);
        let ghost mid = out@;
        let ok = bytes_to_toks_at(b, i + 8, out);
        proof {
            let s = b@.skip(i as int);
            assert(s.len() >= 8);
            assert(s.skip(8) =~= b@.skip(i + 8));
            assert(s[0] == b@[i as int] && s[1] == b@[i + 1] && s[2] == b@[i + 2]
                && s[3] == b@[i + 3] && s[4] == b@[i + 4] && s[5] == b@[i + 5]
                && s[6] == b@[i + 6] && s[7] == b@[i + 7]);
            assert(v == u64_of_bytes(s[0], s[1], s[2], s[3], s[4], s[5], s[6], s[7]));
            if ok {
                let ts_rest = toks_of_bytes(b@.skip(i + 8)).unwrap();
                assert(out@ == old(out)@ + (seq![v] + ts_rest));
            }
        }
        ok
    } else {
        false
    }
}

// ---------------------------------------------------------------------------
// The token codec: every encodable structure implements it.
// ---------------------------------------------------------------------------

/// An encodable structure. `M` is the mathematical model of the structure;
/// `toks` gives the canonical token form of a model, `dec` reads a model off
/// the front of a token stream, and `lemma_rt` proves that `dec` inverts
/// `toks`.
pub trait Codec: Sized {
    type M;

    /// Model of this value.
    spec fn m(&self) -> Self::M;

    /// Canonical token form of a model.
    spec fn toks(m: Self::M) -> Seq<u64>;

    /// Whether a model can arise from an executable value (for example,
    /// collection lengths fit the machine).
    spec fn wf_m(m: Self::M) -> bool;

    /// Decode one model off the front of a stream, returning the remainder.
    spec fn dec(s: Seq<u64>) -> Option<(Self::M, Seq<u64>)>;

    /// Decoding inverts encoding and every encoding is non-empty.
    proof fn lemma_rt(m: Self::M, r: Seq<u64>)
        requires
            Self::wf_m(m),
        ensures
            Self::dec(Self::toks(m) + r) == Some((m, r)),
            Self::toks(m).len() >= 1,
    ;

    /// Every executable value has a well-formed model.
    proof fn lemma_wf(&self)
        ensures
            Self::wf_m(self.m()),
    ;

    /// Append this value's canonical token form to `out`.
    fn enc(&self, out: &mut Vec<u64>)
        ensures
            final(out)@ == old(out)@ + Self::toks(self.m()),
    ;

    /// Decode one value from `toks` starting at `i`; on success, return the
    /// value and the index just past its encoding.
    fn dec_exec(toks: &Vec<u64>, i: usize) -> (r: Option<(Self, usize)>)
        requires
            i <= toks.len(),
        ensures
            r is Some <==> Self::dec(toks@.skip(i as int)) is Some,
            r matches Some(p) ==> {
                let (mv, rest) = Self::dec(toks@.skip(i as int)).unwrap();
                p.0.m() == mv && i <= p.1 <= toks.len() && toks@.skip(p.1 as int) == rest
            },
    ;
}

impl Codec for u64 {
    type M = u64;

    open spec fn m(&self) -> u64 {
        *self
    }

    open spec fn toks(m: u64) -> Seq<u64> {
        seq![m]
    }

    open spec fn wf_m(m: u64) -> bool {
        true
    }

    open spec fn dec(s: Seq<u64>) -> Option<(u64, Seq<u64>)> {
        if s.len() >= 1 {
            Some((s[0], s.drop_first()))
        } else {
            None
        }
    }

    proof fn lemma_rt(m: u64, r: Seq<u64>) {
        assert((seq![m] + r).drop_first() =~= r);
    }

    proof fn lemma_wf(&self) {
    }

    fn enc(&self, out: &mut Vec<u64>) {
        out.push(*self);
        proof {
            assert(out@ =~= old(out)@ + seq![*self]);
        }
    }

    fn dec_exec(toks: &Vec<u64>, i: usize) -> (r: Option<(u64, usize)>) {
        if i < toks.len() {
            proof {
                assert(toks@.skip(i as int)[0] == toks@[i as int]);
                assert(toks@.skip(i as int).drop_first() =~= toks@.skip(i + 1));
            }
            Some((toks[i], i + 1))
        } else {
            proof {
                assert(toks@.skip(i as int).len() == 0);
            }
            None
        }
    }
}

impl Codec for Option<u64> {
    type M = Option<u64>;

    open spec fn m(&self) -> Option<u64> {
        *self
    }

    open spec fn toks(m: Option<u64>) -> Seq<u64> {
        match m {
            Option::None => seq![0u64],
            Option::Some(v) => seq![1u64, v],
        }
    }

    open spec fn wf_m(m: Option<u64>) -> bool {
        true
    }

    open spec fn dec(s: Seq<u64>) -> Option<(Option<u64>, Seq<u64>)> {
        if s.len() >= 1 && s[0] == 0 {
            Some((Option::None, s.drop_first()))
        } else if s.len() >= 2 && s[0] == 1 {
            Some((Option::Some(s[1]), s.skip(2)))
        } else {
            None
        }
    }

    proof fn lemma_rt(m: Option<u64>, r: Seq<u64>) {
        match m {
            Option::None => {
                assert((seq![0u64] + r).drop_first() =~= r);
            },
            Option::Some(v) => {
                assert((seq![1u64, v] + r).skip(2) =~= r);
            },
        }
    }

    proof fn lemma_wf(&self) {
    }

    fn enc(&self, out: &mut Vec<u64>) {
        match self {
            Option::None => {
                out.push(0);
                proof {
                    assert(out@ =~= old(out)@ + seq![0u64]);
                }
            },
            Option::Some(v) => {
                out.push(1);
                out.push(*v);
                proof {
                    assert(out@ =~= old(out)@ + seq![1u64, *v]);
                }
            },
        }
    }

    fn dec_exec(toks: &Vec<u64>, i: usize) -> (r: Option<(Option<u64>, usize)>) {
        let ghost s = toks@.skip(i as int);
        if i < toks.len() && toks[i] == 0 {
            proof {
                assert(s.drop_first() =~= toks@.skip(i + 1));
            }
            Some((None, i + 1))
        } else if i < toks.len() && toks.len() - i >= 2 && toks[i] == 1 {
            proof {
                assert(s[0] == toks@[i as int] && s[1] == toks@[i + 1]);
                assert(s.skip(2) =~= toks@.skip(i + 2));
            }
            Some((Some(toks[i + 1]), i + 2))
        } else {
            proof {
                if i < toks.len() {
                    assert(s[0] == toks@[i as int]);
                }
                assert(s.len() == toks@.len() - i);
            }
            None
        }
    }
}

// ---------------------------------------------------------------------------
// Byte strings as token streams: a count followed by one token per byte.
// ---------------------------------------------------------------------------

impl Codec for Vec<u8> {
    type M = Seq<u8>;

    open spec fn m(&self) -> Seq<u8> {
        self@
    }

    open spec fn toks(m: Seq<u8>) -> Seq<u64> {
        seq![m.len() as u64] + m.map(|_i: int, b: u8| b as u64)
    }

    open spec fn wf_m(m: Seq<u8>) -> bool {
        m.len() <= usize::MAX
    }

    open spec fn dec(s: Seq<u64>) -> Option<(Seq<u8>, Seq<u64>)> {
        if s.len() >= 1 {
            let n = s[0] as int;
            let body = s.drop_first();
            if body.len() >= n && (forall|k: int| 0 <= k < n ==> body[k] <= 0xff) {
                Some((body.take(n).map(|_i: int, t: u64| t as u8), body.skip(n)))
            } else {
                None
            }
        } else {
            None
        }
    }

    proof fn lemma_rt(m: Seq<u8>, r: Seq<u64>) {
        let body0 = m.map(|_i: int, b: u8| b as u64);
        let s = Self::toks(m) + r;
        assert(s[0] == m.len() as u64);
        let n = m.len() as int;
        let body = s.drop_first();
        assert(body =~= body0 + r);
        assert(forall|k: int| 0 <= k < n ==> body[k] == m[k] as u64 && body[k] <= 0xff);
        assert(body.take(n) =~= body0);
        assert(body0.map(|_i: int, t: u64| t as u8) =~= m);
        assert(body.skip(n) =~= r);
    }

    proof fn lemma_wf(&self) {
        vstd::std_specs::vec::axiom_spec_len(self);
    }

    fn enc(&self, out: &mut Vec<u64>) {
        let n = self.len();
        out.push(n as u64);
        let mut i: usize = 0;
        while i < n
            invariant
                n == self.len(),
                i <= n,
                out@ == old(out)@ + seq![n as u64]
                    + self@.take(i as int).map(|_i: int, b: u8| b as u64),
            decreases n - i,
        {
            out.push(self[i] as u64);
            proof {
                assert(self@.take(i + 1).map(|_i: int, b: u8| b as u64)
                    =~= self@.take(i as int).map(|_i: int, b: u8| b as u64)
                        + seq![self@[i as int] as u64]);
                assert(out@ =~= old(out)@ + seq![n as u64]
                    + self@.take(i + 1).map(|_i: int, b: u8| b as u64));
            }
            i = i + 1;
        }
        proof {
            assert(self@.take(n as int) =~= self@);
            assert(out@ =~= old(out)@ + Self::toks(self@));
        }
    }

    #[verifier::loop_isolation(false)]
    fn dec_exec(toks: &Vec<u64>, i: usize) -> (r: Option<(Vec<u8>, usize)>) {
        let ghost s = toks@.skip(i as int);
        if i >= toks.len() {
            return None;
        }
        let n64 = toks[i];
        let rem: usize = toks.len() - (i + 1);
        proof {
            assert(s[0] == toks@[i as int]);
            assert(s.drop_first() =~= toks@.skip(i + 1));
        }
        if n64 > rem as u64 {
            return None;
        }
        let n = n64 as usize;
        let mut out: Vec<u8> = Vec::new();
        let mut k: usize = 0;
        let start = i + 1;
        while k < n
            invariant
                start == i + 1,
                i + 1 <= toks.len(),
                n == n64 as int,
                n <= toks.len() - start,
                k <= n,
                out@ == toks@.skip(start as int).take(n as int).take(k as int)
                    .map(|_i: int, t: u64| t as u8),
                forall|q: int| 0 <= q < k ==> toks@.skip(start as int)[q] <= 0xff,
            decreases n - k,
        {
            let t = toks[start + k];
            if t > 0xff {
                proof {
                    let body = s.drop_first();
                    assert(body =~= toks@.skip(start as int));
                    assert(body[k as int] == toks@[start + k]);
                    assert(!(forall|q: int| 0 <= q < s[0] as int ==> body[q] <= 0xff))
                        by {
                        assert(body[k as int] > 0xff);
                    }
                }
                return None;
            }
            out.push(t as u8);
            proof {
                let body = toks@.skip(start as int);
                assert(body[k as int] == toks@[start + k]);
                assert(body.take(n as int).take(k + 1)
                    =~= body.take(n as int).take(k as int) + seq![body[k as int]]);
                assert(out@ =~= body.take(n as int).take(k + 1)
                    .map(|_i: int, t: u64| t as u8));
            }
            k = k + 1;
        }
        proof {
            let body = s.drop_first();
            assert(body =~= toks@.skip(start as int));
            assert(body.take(n as int).take(n as int) =~= body.take(n as int));
            assert(out@ == body.take(n as int).map(|_i: int, t: u64| t as u8));
            assert(body.skip(n as int) =~= toks@.skip(start + n));
        }
        Some((out, start + n))
    }
}

// ---------------------------------------------------------------------------
// Homogeneous lists of any encodable element.
// ---------------------------------------------------------------------------

/// Models of a list's elements.
pub open spec fn m_seq<T: Codec>(s: Seq<T>) -> Seq<T::M> {
    s.map(|_i: int, x: T| x.m())
}

/// Token form of the elements, concatenated.
pub open spec fn toks_cat<T: Codec>(ms: Seq<T::M>) -> Seq<u64>
    decreases ms.len(),
{
    if ms.len() == 0 {
        Seq::empty()
    } else {
        T::toks(ms[0]) + toks_cat::<T>(ms.drop_first())
    }
}

/// Token form of a list: a count, then the elements.
pub open spec fn toks_seq<T: Codec>(ms: Seq<T::M>) -> Seq<u64> {
    seq![ms.len() as u64] + toks_cat::<T>(ms)
}

/// Well-formed list model: machine-sized, with well-formed elements.
pub open spec fn wf_seq<T: Codec>(ms: Seq<T::M>) -> bool {
    ms.len() <= usize::MAX && forall|k: int| 0 <= k < ms.len() ==> T::wf_m(ms[k])
}

/// Decode `n` elements off the front of a stream.
pub open spec fn dec_cat<T: Codec>(s: Seq<u64>, n: nat) -> Option<(Seq<T::M>, Seq<u64>)>
    decreases n,
{
    if n == 0 {
        Some((Seq::empty(), s))
    } else {
        match T::dec(s) {
            Option::None => Option::None,
            Option::Some((mv, rest)) => match dec_cat::<T>(rest, (n - 1) as nat) {
                Option::None => Option::None,
                Option::Some((ms, rest2)) => Option::Some((seq![mv] + ms, rest2)),
            },
        }
    }
}

/// Decode a counted list off the front of a stream.
pub open spec fn dec_seq_m<T: Codec>(s: Seq<u64>) -> Option<(Seq<T::M>, Seq<u64>)> {
    match <u64 as Codec>::dec(s) {
        Option::None => Option::None,
        Option::Some((n, rest)) => dec_cat::<T>(rest, n as nat),
    }
}

/// Element token forms concatenate as the element lists do.
pub proof fn lemma_toks_cat_app<T: Codec>(a: Seq<T::M>, b: Seq<T::M>)
    ensures
        toks_cat::<T>(a + b) == toks_cat::<T>(a) + toks_cat::<T>(b),
    decreases a.len(),
{
    if a.len() == 0 {
        assert(a + b =~= b);
        assert(toks_cat::<T>(a) + toks_cat::<T>(b) =~= toks_cat::<T>(b));
    } else {
        assert((a + b).drop_first() =~= a.drop_first() + b);
        lemma_toks_cat_app::<T>(a.drop_first(), b);
        assert(toks_cat::<T>(a + b) =~= toks_cat::<T>(a) + toks_cat::<T>(b));
    }
}

/// Decoding `n` elements inverts concatenating `n` encodings.
pub proof fn lemma_rt_cat<T: Codec>(ms: Seq<T::M>, r: Seq<u64>)
    requires
        forall|k: int| 0 <= k < ms.len() ==> T::wf_m(ms[k]),
    ensures
        dec_cat::<T>(toks_cat::<T>(ms) + r, ms.len()) == Some((ms, r)),
    decreases ms.len(),
{
    if ms.len() == 0 {
        assert(toks_cat::<T>(ms) + r =~= r);
    } else {
        let rest = toks_cat::<T>(ms.drop_first()) + r;
        assert(toks_cat::<T>(ms) + r =~= T::toks(ms[0]) + rest);
        T::lemma_rt(ms[0], rest);
        lemma_rt_cat::<T>(ms.drop_first(), r);
        assert(seq![ms[0]] + ms.drop_first() =~= ms);
    }
}

/// Decoding a counted list inverts encoding one.
pub proof fn lemma_rt_seq<T: Codec>(ms: Seq<T::M>, r: Seq<u64>)
    requires
        wf_seq::<T>(ms),
    ensures
        dec_seq_m::<T>(toks_seq::<T>(ms) + r) == Some((ms, r)),
        toks_seq::<T>(ms).len() >= 1,
{
    let tail = toks_cat::<T>(ms) + r;
    assert(toks_seq::<T>(ms) + r =~= seq![ms.len() as u64] + tail);
    <u64 as Codec>::lemma_rt(ms.len() as u64, tail);
    lemma_rt_cat::<T>(ms, r);
    assert((ms.len() as u64) as nat == ms.len());
}

/// Every executable list has a well-formed list model.
pub proof fn lemma_wf_vec<T: Codec>(v: &Vec<T>)
    ensures
        wf_seq::<T>(m_seq(v@)),
{
    vstd::std_specs::vec::axiom_spec_len(v);
    assert forall|k: int| 0 <= k < m_seq(v@).len() implies T::wf_m(m_seq(v@)[k]) by {
        v@[k].lemma_wf();
    }
}

/// Append a list's canonical token form to `out`.
pub fn enc_vec<T: Codec>(v: &Vec<T>, out: &mut Vec<u64>)
    ensures
        final(out)@ == old(out)@ + toks_seq::<T>(m_seq(v@)),
{
    out.push(v.len() as u64);
    let ghost base = out@;
    let mut i: usize = 0;
    while i < v.len()
        invariant
            i <= v.len(),
            base == old(out)@ + seq![v@.len() as u64],
            out@ == base + toks_cat::<T>(m_seq(v@).take(i as int)),
        decreases v.len() - i,
    {
        v[i].enc(out);
        proof {
            assert(m_seq(v@).take(i + 1)
                =~= m_seq(v@).take(i as int) + seq![v@[i as int].m()]);
            lemma_toks_cat_app::<T>(m_seq(v@).take(i as int), seq![v@[i as int].m()]);
            assert(seq![v@[i as int].m()].drop_first() =~= Seq::<T::M>::empty());
            assert(toks_cat::<T>(Seq::<T::M>::empty()) =~= Seq::<u64>::empty());
            assert(toks_cat::<T>(seq![v@[i as int].m()]) =~= T::toks(v@[i as int].m()));
            assert(out@ =~= base + toks_cat::<T>(m_seq(v@).take(i + 1)));
        }
        i = i + 1;
    }
    proof {
        assert(m_seq(v@).take(v@.len() as int) =~= m_seq(v@));
        assert(out@ =~= old(out)@ + toks_seq::<T>(m_seq(v@)));
    }
}

/// Decode a counted list from `toks` starting at `i`.
#[verifier::loop_isolation(false)]
pub fn dec_vec_exec<T: Codec>(toks: &Vec<u64>, i: usize) -> (r: Option<(Vec<T>, usize)>)
    requires
        i <= toks.len(),
    ensures
        r is Some <==> dec_seq_m::<T>(toks@.skip(i as int)) is Some,
        r matches Some(p) ==> {
            let (ms, rest) = dec_seq_m::<T>(toks@.skip(i as int)).unwrap();
            m_seq(p.0@) == ms && i <= p.1 <= toks.len() && toks@.skip(p.1 as int) == rest
        },
{
    let ghost s = toks@.skip(i as int);
    if i >= toks.len() {
        return None;
    }
    let n = toks[i];
    proof {
        assert(s[0] == toks@[i as int]);
        assert(s.drop_first() =~= toks@.skip(i + 1));
        assert(dec_seq_m::<T>(toks@.skip(i as int))
            == dec_cat::<T>(toks@.skip(i + 1), n as nat));
    }
    let mut out: Vec<T> = Vec::new();
    let mut j: usize = i + 1;
    let mut k: u64 = 0;
    while k < n
        invariant
            i + 1 <= j <= toks.len(),
            k <= n,
            dec_cat::<T>(toks@.skip(i + 1), n as nat) matches Option::Some(p)
                ==> dec_cat::<T>(toks@.skip(j as int), (n - k) as nat) is Some,
            dec_cat::<T>(toks@.skip(j as int), (n - k) as nat) matches Option::Some(p2)
                ==> dec_cat::<T>(toks@.skip(i + 1), n as nat)
                    == Option::Some((m_seq(out@) + p2.0, p2.1)),
        decreases n - k,
    {
        let step = T::dec_exec(toks, j);
        match step {
            Option::None => {
                proof {
                    assert(dec_cat::<T>(toks@.skip(j as int), (n - k) as nat) is None);
                }
                return None;
            },
            Option::Some((x, j2)) => {
                proof {
                    let (mv, rest) = T::dec(toks@.skip(j as int)).unwrap();
                    assert(rest == toks@.skip(j2 as int));
                    match dec_cat::<T>(toks@.skip(j2 as int), (n - k - 1) as nat) {
                        Option::Some(p3) => {
                            assert(dec_cat::<T>(toks@.skip(j as int), (n - k) as nat)
                                == Option::Some((seq![mv] + p3.0, p3.1)));
                            assert(m_seq(out@.push(x)) =~= m_seq(out@) + seq![mv]);
                            assert((m_seq(out@) + seq![mv]) + p3.0
                                =~= m_seq(out@) + (seq![mv] + p3.0));
                        },
                        Option::None => {},
                    }
                }
                out.push(x);
                j = j2;
                k = k + 1;
            },
        }
    }
    proof {
        assert(dec_cat::<T>(toks@.skip(j as int), 0) == Some((Seq::<T::M>::empty(), toks@.skip(j as int))));
        assert(m_seq(out@) + Seq::<T::M>::empty() =~= m_seq(out@));
        assert(dec_seq_m::<T>(s) == dec_cat::<T>(toks@.skip(i + 1), n as nat));
    }
    Some((out, j))
}

} // verus!
