//! Glob-style path patterns for delegations: `*` matches any run of
//! characters other than `/`; a pattern ending in `*` or `/` matches every
//! continuation of the prefix it covers.

use vstd::prelude::*;
use crate::codec::m_seq;
use crate::metadata::TargetPath;

verus! {

/// The glob wildcard byte, `*`.
pub const STAR: u8 = 42;
/// The path separator byte, `/`.
pub const SLASH: u8 = 47;

/// Whether pattern `p` matches target path `t`.
pub open spec fn pattern_matches(p: Seq<u8>, t: Seq<u8>) -> bool
    decreases p.len(), t.len(),
{
    if p.len() == 0 {
        t.len() == 0
    } else if p[0] == STAR {
        if p.len() == 1 {
            true
        } else {
            pattern_matches(p.drop_first(), t)
                || (t.len() > 0 && t[0] != SLASH && pattern_matches(p, t.drop_first()))
        }
    } else if p.len() == 1 && p[0] == SLASH {
        t.len() >= 1 && t[0] == SLASH
    } else {
        t.len() > 0 && t[0] == p[0] && pattern_matches(p.drop_first(), t.drop_first())
    }
}

/// Whether some pattern in the list matches `t`.
pub open spec fn some_pattern_matches(pats: Seq<Seq<u8>>, t: Seq<u8>) -> bool {
    exists|k: int| 0 <= k < pats.len() && pattern_matches(pats[k], t)
}

/// Match pattern `p[i..]` against target `t[j..]`.
fn pattern_matches_at(p: &Vec<u8>, i: usize, t: &Vec<u8>, j: usize) -> (r: bool)
    requires
        i <= p.len(),
        j <= t.len(),
    ensures
        r == pattern_matches(p@.skip(i as int), t@.skip(j as int)),
    decreases p.len() - i, t.len() - j,
{
    proof {
        if i < p@.len() {
            assert(p@.skip(i as int)[0] == p@[i as int]);
            assert(p@.skip(i as int).drop_first() =~= p@.skip(i + 1));
        }
        if j < t@.len() {
            assert(t@.skip(j as int)[0] == t@[j as int]);
            assert(t@.skip(j as int).drop_first() =~= t@.skip(j + 1));
        }
    }
    if i == p.len() {
        j == t.len()
    } else if p[i] == STAR {
        if i + 1 == p.len() {
            true
        } else if pattern_matches_at(p, i + 1, t, j) {
            true
        } else if j < t.len() && t[j] != SLASH {
            pattern_matches_at(p, i, t, j + 1)
        } else {
            false
        }
    } else if i + 1 == p.len() && p[i] == SLASH {
        j < t.len() && t[j] == SLASH
    } else if j < t.len() && t[j] == p[i] {
        pattern_matches_at(p, i + 1, t, j + 1)
    } else {
        false
    }
}

/// Match one pattern against a target path.
pub fn target_matches(pattern: &TargetPath, target: &TargetPath) -> (r: bool)
    ensures
        r == pattern_matches(pattern.0@, target.0@),
{
    proof {
        assert(pattern.0@.skip(0) =~= pattern.0@);
        assert(target.0@.skip(0) =~= target.0@);
    }
    pattern_matches_at(&pattern.0, 0, &target.0, 0)
}

/// Whether any pattern in the list matches the target path.
pub fn any_target_match(pats: &Vec<TargetPath>, target: &TargetPath) -> (r: bool)
    ensures
        r == some_pattern_matches(m_seq(pats@), target.0@),
{
    let mut k: usize = 0;
    while k < pats.len()
        invariant
            k <= pats.len(),
            forall|q: int| 0 <= q < k ==> !pattern_matches(pats@[q].0@, target.0@),
        decreases pats.len() - k,
    {
        if target_matches(&pats[k], target) {
            proof {
                assert(m_seq(pats@)[k as int] == pats@[k as int].0@);
            }
            return true;
        }
        k = k + 1;
    }
    proof {
        assert forall|q: int| 0 <= q < m_seq(pats@).len()
            implies !pattern_matches(m_seq(pats@)[q], target.0@) by {
            assert(m_seq(pats@)[q] == pats@[q].0@);
        }
    }
    false
}

} // verus!
