//! Byte-scan primitives: the leftmost `=`, and the leftmost `;` or ` `.
use vstd::prelude::*;

verus! {

/// `=`, between a tag's key and its value.
pub const EQUALS: u8 = 0x3d;

/// `;`, between two tags.
pub const SEMI: u8 = 0x3b;

/// ` `, after the last tag.
pub const SPACE: u8 = 0x20;

/// Index of the first byte at or after `i` that equals `a` or `b`;
/// `s.len()` when there is none.
pub open spec fn find_from(s: Seq<u8>, i: int, a: u8, b: u8) -> int
    decreases s.len() - i,
{
    if i < 0 || i >= s.len() {
        s.len() as int
    } else if s[i] == a || s[i] == b {
        i
    } else {
        find_from(s, i + 1, a, b)
    }
}

/// The scan is unaffected by a run of bytes that match neither needle.
pub proof fn lemma_find_skip(s: Seq<u8>, i: int, j: int, a: u8, b: u8)
    requires
        0 <= i <= j <= s.len(),
        forall|k: int| i <= k < j ==> s[k] != a && s[k] != b,
    ensures
        find_from(s, i, a, b) == find_from(s, j, a, b),
    decreases j - i,
{
    if i < j {
        lemma_find_skip(s, i + 1, j, a, b);
    }
}

/// Bounds and meaning of a scan result.
pub proof fn lemma_find_bounds(s: Seq<u8>, i: int, a: u8, b: u8)
    requires
        0 <= i <= s.len(),
    ensures
        i <= find_from(s, i, a, b) <= s.len(),
        find_from(s, i, a, b) < s.len() ==> (s[find_from(s, i, a, b)] == a || s[find_from(
            s,
            i,
            a,
            b,
        )] == b),
        forall|k: int| i <= k < find_from(s, i, a, b) ==> s[k] != a && s[k] != b,
    decreases s.len() - i,
{
    if i < s.len() && s[i] != a && s[i] != b {
        lemma_find_bounds(s, i + 1, a, b);
    }
}

/// The first index in `[from, to)` of `s` holding `a` or `b`; `to` when there
/// is none.
pub open spec fn find_within(s: Seq<u8>, from: int, to: int, a: u8, b: u8) -> int {
    find_from(s.subrange(0, to), from, a, b)
}

/// The first index in `[from, to)` of `s` holding `a` or `b`, as a plain
/// byte loop; `to` when there is none.
pub fn find_in(s: &[u8], from: usize, to: usize, a: u8, b: u8) -> (r: usize)
    requires
        from <= to <= s@.len(),
    ensures
        r == find_within(s@, from as int, to as int, a, b),
        from <= r <= to,
{
    let ghost t = s@.subrange(0, to as int);
    let mut i: usize = from;
    while i < to
        invariant
            from <= i <= to <= s@.len(),
            t == s@.subrange(0, to as int),
            find_from(t, from as int, a, b) == find_from(t, i as int, a, b),
        decreases to - i,
    {
        if s[i] == a || s[i] == b {
            assert(t[i as int] == s@[i as int]);
            return i;
        }
        assert(t[i as int] == s@[i as int]);
        i += 1;
    }
    i
}

/// What the tag scanner found first: a `;` or a ` `, with its index.
#[derive(Clone, Copy, Debug, PartialEq, Eq, Structural)]
pub enum Found {
    Semi(usize),
    Space(usize),
}

/// The leftmost index of `=` in `s`, as a plain byte loop.
pub fn find_equals_scalar(s: &[u8]) -> (r: Option<usize>)
    ensures
        r == (if find_from(s@, 0, EQUALS, EQUALS) < s@.len() {
            Some(find_from(s@, 0, EQUALS, EQUALS) as usize)
        } else {
            None::<usize>
        }),
{
    let mut i: usize = 0;
    while i < s.len()
        invariant
            i <= s@.len(),
            find_from(s@, 0, EQUALS, EQUALS) == find_from(s@, i as int, EQUALS, EQUALS),
        decreases s@.len() - i,
    {
        if s[i] == EQUALS {
            return Some(i);
        }
        i += 1;
    }
    None
}

/// The leftmost `;` or ` ` in `s`, as a plain byte loop.
pub fn find_semi_or_space_scalar(s: &[u8]) -> (r: Option<Found>)
    ensures
        r == semi_or_space_model(s@),
{
    let mut i: usize = 0;
    while i < s.len()
        invariant
            i <= s@.len(),
            find_from(s@, 0, SEMI, SPACE) == find_from(s@, i as int, SEMI, SPACE),
        decreases s@.len() - i,
    {
        if s[i] == SEMI {
            return Some(Found::Semi(i));
        }
        if s[i] == SPACE {
            return Some(Found::Space(i));
        }
        i += 1;
    }
    None
}

/// The leftmost `=` of `s`, if any.
pub open spec fn equals_model(s: Seq<u8>) -> Option<usize> {
    if find_from(s, 0, EQUALS, EQUALS) < s.len() {
        Some(find_from(s, 0, EQUALS, EQUALS) as usize)
    } else {
        None
    }
}

/// The leftmost `;` or ` ` of `s`, with which of the two it is.
pub open spec fn semi_or_space_model(s: Seq<u8>) -> Option<Found> {
    let p = find_from(s, 0, SEMI, SPACE);
    if p < s.len() {
        if s[p] == SEMI {
            Some(Found::Semi(p as usize))
        } else {
            Some(Found::Space(p as usize))
        }
    } else {
        None
    }
}

/// Lane `t` (bits `4t .. 4t + 4`) of a 64-bit mask over sixteen bytes.
pub open spec fn lane(m: u64, t: u64) -> u64 {
    (m >> (t << 2u64)) & 15u64
}

/// A comparison mask of sixteen lanes: four set bits for each byte that
/// matched, none for the others.
pub struct Mask(pub u64);

impl Mask {
    /// Every lane is all ones or all zeros.
    pub open spec fn wf(self) -> bool {
        forall|t: u64| t < 16 ==> #[trigger] lane(self.0, t) == 0 || lane(self.0, t) == 15
    }

    /// Byte `t` of the chunk matched.
    pub open spec fn hit(self, t: u64) -> bool {
        lane(self.0, t) != 0
    }

    /// Compares the `n` bytes of `s` from `start` (a chunk, zero-padded to
    /// sixteen bytes) against `needle`.
    pub fn eq(s: &[u8], start: usize, n: usize, needle: u8) -> (r: Mask)
        requires
            n <= 16,
            start + n <= s@.len(),
        ensures
            r.wf(),
            forall|t: u64|
                t < 16 ==> (#[trigger] r.hit(t) <==> (t < n && s@[start + t] == needle)),
    {
        let mut m: u64 = 0;
        let mut j: usize = 0;
        proof {
            assert forall|t: u64| t < 16 implies #[trigger] lane(0u64, t) == 0 by {
                assert((0u64 >> (t << 2u64)) & 15u64 == 0u64) by (bit_vector);
            }
        }
        while j < n
            invariant
                j <= n <= 16,
                start + n <= s.len(),
                forall|t: u64|
                    t < 16 ==> #[trigger] lane(m, t) == (if t < j && s@[start + t] == needle {
                        15u64
                    } else {
                        0u64
                    }),
            decreases n - j,
        {
            if s[start + j] == needle {
                let ghost old_m = m;
                let jj: u64 = j as u64;
                assert(jj < 16 ==> (jj << 2u64) < 64) by (bit_vector);
                let sh: u64 = jj << 2u64;
                m = m | (15u64 << sh);
                proof {
                    assert forall|t: u64| t < 16 implies #[trigger] lane(m, t) == (if t == j {
                        15u64
                    } else {
                        lane(old_m, t)
                    }) by {
                        lemma_lane_set(old_m, j as u64, t);
                    }
                }
            }
            j += 1;
        }
        Mask(m)
    }

    pub fn has_match(&self) -> (r: bool)
        requires
            self.wf(),
        ensures
            r == exists|t: u64| t < 16 && #[trigger] self.hit(t),
    {
        proof {
            if self.0 != 0 {
                lemma_first_lane(self.0);
                assert(self.hit((self.0.trailing_zeros() >> 2u32) as u64));
            } else {
                assert forall|t: u64| t < 16 implies !#[trigger] self.hit(t) by {
                    assert((0u64 >> (t << 2u64)) & 15u64 == 0u64) by (bit_vector);
                }
            }
        }
        self.0 != 0
    }

    /// The lowest lane that matched.
    pub fn first_match_index(&self) -> (r: usize)
        requires
            self.wf(),
            exists|t: u64| t < 16 && #[trigger] self.hit(t),
        ensures
            r < 16,
            self.hit(r as u64),
            forall|t: u64| t < r ==> !#[trigger] self.hit(t),
    {
        proof {
            if self.0 == 0 {
                let t = choose|t: u64| t < 16 && #[trigger] self.hit(t);
                assert((0u64 >> (t << 2u64)) & 15u64 == 0u64) by (bit_vector);
            }
            lemma_first_lane(self.0);
        }
        (self.0.trailing_zeros() >> 2u32) as usize
    }
}

proof fn lemma_lane_set(m: u64, j: u64, t: u64)
    requires
        j < 16,
        t < 16,
    ensures
        lane(m | (15u64 << (j << 2u64)), t) == if t == j {
            15u64
        } else {
            lane(m, t)
        },
{
    assert(j < 16 && t < 16 && t == j ==> ((m | (15u64 << (j << 2u64))) >> (t << 2u64)) & 15u64
        == 15u64) by (bit_vector);
    assert(j < 16 && t < 16 && t != j ==> ((m | (15u64 << (j << 2u64))) >> (t << 2u64)) & 15u64
        == (m >> (t << 2u64)) & 15u64) by (bit_vector);
}

/// In a mask whose lanes are all ones or all zeros, the trailing zeros
/// divided by four count the empty lanes below the first full one.
proof fn lemma_first_lane(m: u64)
    requires
        m != 0,
        forall|t: u64| t < 16 ==> #[trigger] lane(m, t) == 0 || lane(m, t) == 15,
    ensures
        (m.trailing_zeros() >> 2u32) < 16,
        lane(m, (m.trailing_zeros() >> 2u32) as u64) != 0,
        forall|t: u64| t < (m.trailing_zeros() >> 2u32) ==> #[trigger] lane(m, t) == 0,
{
    broadcast use vstd::std_specs::bits::axiom_u64_trailing_zeros;

    let z = m.trailing_zeros() as u64;
    assert(z < 64);
    assert((m >> z) & 1u64 == 1u64);
    assert(z < 64 && (m >> z) & 1u64 == 1u64 ==> (m >> ((z >> 2u64) << 2u64)) & 15u64 != 0u64)
        by (bit_vector);
    let zw: u32 = m.trailing_zeros();
    assert(zw < 64 ==> (zw >> 2u32) as u64 == (zw as u64) >> 2u64) by (bit_vector);
    assert(z < 64 ==> (z >> 2u64) <= 15) by (bit_vector);
    assert forall|t: u64| t < (m.trailing_zeros() >> 2u32) implies #[trigger] lane(m, t) == 0 by {
        assert(t < (z >> 2u64));
        assert(t < 16);
        assert(t < (z >> 2u64) && z < 64 ==> (t << 2u64) < z) by (bit_vector);
        assert((m >> (t << 2u64)) & 1u64 == 0u64);
        assert(lane(m, t) == 0 || lane(m, t) == 15);
        assert((m >> (t << 2u64)) & 15u64 == 15u64 ==> (m >> (t << 2u64)) & 1u64 == 1u64)
            by (bit_vector);
    }
}

/// The leftmost `=` of `s`, found sixteen bytes at a time through
/// comparison masks.
pub fn find_equals(s: &[u8]) -> (r: Option<usize>)
    ensures
        r == equals_model(s@),
{
    let mut i: usize = 0;
    while i < s.len()
        invariant
            i <= s@.len(),
            find_from(s@, 0, EQUALS, EQUALS) == find_from(s@, i as int, EQUALS, EQUALS),
        decreases s@.len() - i,
    {
        let n: usize = if s.len() - i >= 16 {
            16
        } else {
            s.len() - i
        };
        let mask = Mask::eq(s, i, n, EQUALS);
        if mask.has_match() {
            let k = mask.first_match_index();
            proof {
                assert(mask.hit(k as u64));
                assert forall|j: int| i <= j < i + k implies s@[j] != EQUALS by {
                    assert(!mask.hit((j - i) as u64));
                }
                lemma_find_skip(s@, i as int, i + k, EQUALS, EQUALS);
            }
            return Some(i + k);
        }
        proof {
            assert forall|j: int| i <= j < i + n implies s@[j] != EQUALS by {
                assert(!mask.hit((j - i) as u64));
            }
            lemma_find_skip(s@, i as int, i + n, EQUALS, EQUALS);
        }
        i += n;
    }
    None
}

/// The leftmost `;` or ` ` of `s`, found sixteen bytes at a time through
/// one comparison mask for each needle.
pub fn find_semi_or_space(s: &[u8]) -> (r: Option<Found>)
    ensures
        r == semi_or_space_model(s@),
{
    let mut i: usize = 0;
    while i < s.len()
        invariant
            i <= s@.len(),
            find_from(s@, 0, SEMI, SPACE) == find_from(s@, i as int, SEMI, SPACE),
        decreases s@.len() - i,
    {
        let n: usize = if s.len() - i >= 16 {
            16
        } else {
            s.len() - i
        };
        let semi = Mask::eq(s, i, n, SEMI);
        let space = Mask::eq(s, i, n, SPACE);
        let semi_hit = semi.has_match();
        let space_hit = space.has_match();
        if semi_hit || space_hit {
            let k: usize;
            if semi_hit && space_hit {
                let a = semi.first_match_index();
                let b = space.first_match_index();
                k = if a < b {
                    a
                } else {
                    b
                };
            } else if semi_hit {
                k = semi.first_match_index();
            } else {
                k = space.first_match_index();
            }
            proof {
                assert(semi.hit(k as u64) || space.hit(k as u64));
                assert forall|j: int| i <= j < i + k implies s@[j] != SEMI && s@[j] != SPACE by {
                    assert(!semi.hit((j - i) as u64));
                    assert(!space.hit((j - i) as u64));
                }
                lemma_find_skip(s@, i as int, i + k, SEMI, SPACE);
            }
            if s[i + k] == SEMI {
                return Some(Found::Semi(i + k));
            } else {
                return Some(Found::Space(i + k));
            }
        }
        proof {
            assert forall|j: int| i <= j < i + n implies s@[j] != SEMI && s@[j] != SPACE by {
                assert(!semi.hit((j - i) as u64));
                assert(!space.hit((j - i) as u64));
            }
            lemma_find_skip(s@, i as int, i + n, SEMI, SPACE);
        }
        i += n;
    }
    None
}

} // verus!
