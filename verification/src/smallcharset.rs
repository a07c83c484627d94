//! Sets of characters drawn from the first 64 code points, stored as a
//! bit mask.  The tokenizer scans long character runs against such sets.

use vstd::prelude::*;

verus! {

/// A set of characters, all with code points below 64.
#[derive(Clone, Copy)]
pub struct SmallCharSet {
    bits: u64,
}

impl SmallCharSet {
    /// Which characters the set holds.
    pub closed spec fn spec_contains(self, c: char) -> bool {
        (c as u32) < 64 && ((self.bits >> ((c as u32) as u64)) & 1u64) == 1u64
    }

    /// The empty set.
    pub fn new() -> (r: Self)
        ensures
            forall|c: char| !r.spec_contains(c),
    {
        let r = SmallCharSet { bits: 0 };
        proof {
            assert forall|c: char| !r.spec_contains(c) by {
                let k = (c as u32) as u64;
                assert((0u64 >> k) & 1u64 == 0u64) by (bit_vector);
            }
        }
        r
    }

    /// Add one character (code point below 64) to the set.
    pub fn insert(&mut self, c: char)
        requires
            (c as u32) < 64,
        ensures
            forall|d: char|
                final(self).spec_contains(d) == (old(self).spec_contains(d) || d == c),
    {
        let ghost obits = self.bits;
        let k: u64 = (c as u32) as u64;
        self.bits = self.bits | (1u64 << k);
        proof {
            assert forall|d: char|
                final(self).spec_contains(d) == (old(self).spec_contains(d) || d == c) by {
                let j = (d as u32) as u64;
                if (d as u32) < 64 {
                    assert(j < 64 && k < 64 ==> (((obits | (1u64 << k)) >> j) & 1u64 == 1u64)
                        == (((obits >> j) & 1u64 == 1u64) || j == k)) by (bit_vector);
                    assert(((d as u32) as u64 == (c as u32) as u64) == ((d as u32) == (c as u32)));
                    lemma_char_code_injective(c, d);
                }
            }
        }
    }

    /// Build a set from a slice of characters, all with code points below 64.
    pub fn from_slice(cs: &[char]) -> (r: Self)
        requires
            forall|i: int| 0 <= i < cs@.len() ==> (#[trigger] cs@[i] as u32) < 64,
        ensures
            forall|c: char| r.spec_contains(c) == cs@.contains(c),
    {
        let mut r = SmallCharSet::new();
        let n = cs.len();
        let mut i: usize = 0;
        while i < n
            invariant
                i <= n,
                n == cs@.len(),
                forall|k: int| 0 <= k < cs@.len() ==> (#[trigger] cs@[k] as u32) < 64,
                forall|c: char| r.spec_contains(c) == cs@.take(i as int).contains(c),
            decreases n - i,
        {
            let c = cs[i];
            let ghost r0 = r;
            r.insert(c);
            proof {
                let t0 = cs@.take(i as int);
                let t1 = cs@.take(i + 1 as int);
                assert(t1 =~= t0.push(c));
                assert forall|d: char| r.spec_contains(d) == t1.contains(d) by {
                    if r.spec_contains(d) {
                        if t0.contains(d) {
                            let k = choose|k: int| 0 <= k < t0.len() && t0[k] == d;
                            assert(t1[k] == d);
                        } else {
                            assert(d == c);
                            assert(t1[i as int] == d);
                        }
                        assert(t1.contains(d));
                    }
                    if t1.contains(d) {
                        let k = choose|k: int| 0 <= k < t1.len() && t1[k] == d;
                        if k < i as int {
                            assert(t0[k] == d);
                            assert(t0.contains(d));
                        } else {
                            assert(d == c);
                        }
                        assert(r.spec_contains(d));
                    }
                }
            }
            i = i + 1;
        }
        proof {
            assert(cs@.take(n as int) =~= cs@);
        }
        r
    }

    /// Whether the set holds `c`.
    pub fn contains(&self, c: char) -> (r: bool)
        ensures
            r == self.spec_contains(c),
    {
        let u = c as u32;
        u < 64 && ((self.bits >> (u as u64)) & 1u64) == 1u64
    }
}

/// Distinct characters have distinct code points.
proof fn lemma_char_code_injective(a: char, b: char)
    ensures
        (a as u32 == b as u32) == (a == b),
{
    if a as u32 == b as u32 {
        assert(a == b) by {
            assert(a as char == b as char);
        }
    }
}

} // verus!
