//! Half-open byte ranges into a source line.
use vstd::prelude::*;
use vstd::string::StringSliceAdditionalSpecFns;
use vstd::utf8::*;

verus! {

/// A byte range `[start, end)` of a source line.
#[derive(Clone, Copy, Debug, PartialEq, Eq, Structural)]
pub struct Span {
    pub start: usize,
    pub end: usize,
}

impl Span {
    /// The span lies inside a source of `len` bytes.
    pub open spec fn within(self, len: int) -> bool {
        0 <= self.start <= self.end <= len
    }

    pub fn new(start: usize, end: usize) -> (r: Span)
        requires
            start <= end,
        ensures
            r.start == start,
            r.end == end,
    {
        Span { start, end }
    }

    pub fn len(&self) -> (r: usize)
        requires
            self.start <= self.end,
        ensures
            r == self.end - self.start,
    {
        self.end - self.start
    }

    pub fn is_empty(&self) -> (r: bool)
        ensures
            r == (self.start >= self.end),
    {
        self.start >= self.end
    }

    /// The bytes of `src` that the span covers, as text.
    pub fn get<'a>(&self, src: &'a str) -> (r: &'a str)
        requires
            self.within(src.spec_bytes().len() as int),
            is_char_boundary(src.spec_bytes(), self.start as int),
            is_char_boundary(src.spec_bytes(), self.end as int),
        ensures
            r.spec_bytes() == src.spec_bytes().subrange(self.start as int, self.end as int),
    {
        let ghost b = src.spec_bytes();
        proof {
            encode_utf8_valid_utf8(src@);
        }
        let (_, tail) = src.split_at(self.start);
        proof {
            valid_utf8_split(b, self.start as int);
            let k = self.end - self.start;
            if self.end < b.len() {
                is_char_boundary_iff_not_is_continuation_byte(b, self.end as int);
                is_char_boundary_iff_not_is_continuation_byte(tail.spec_bytes(), k);
                assert(tail.spec_bytes()[k] == b[self.end as int]);
            } else {
                is_char_boundary_start_end_of_seq(tail.spec_bytes());
            }
        }
        let (r, _) = tail.split_at(self.end - self.start);
        assert(r.spec_bytes() =~= b.subrange(self.start as int, self.end as int));
        r
    }
}

/// In UTF-8 text, the position right after an ASCII byte starts a character
/// (or is the end).
pub proof fn lemma_after_ascii(b: Seq<u8>, i: int)
    requires
        valid_utf8(b),
        0 < i <= b.len(),
        b[i - 1] < 0x80,
    ensures
        is_char_boundary(b, i),
    decreases b.len(),
{
    if i == b.len() {
        is_char_boundary_start_end_of_seq(b);
    } else {
        reveal_with_fuel(is_char_boundary, 2);
        let n = length_of_first_scalar(b);
        let rest = pop_first_scalar(b);
        assert(valid_first_scalar(b));
        assert(valid_utf8(rest));
        assert(1 <= n <= b.len());
        if i - 1 < n {
            if i - 1 == 0 {
                assert(n == 1);
            } else {
                assert(is_continuation_byte(b[i - 1]));
            }
        } else {
            assert(rest[i - n - 1] == b[i - 1]);
            lemma_after_ascii(rest, i - n);
        }
    }
}

/// In UTF-8 text, an ASCII byte starts a character.
pub proof fn lemma_at_ascii(b: Seq<u8>, i: int)
    requires
        valid_utf8(b),
        0 <= i < b.len(),
        b[i] < 0x80,
    ensures
        is_char_boundary(b, i),
{
    is_char_boundary_iff_not_is_continuation_byte(b, i);
}

} // verus!
