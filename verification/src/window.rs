//! The sliding-window engine: carries the previous byte and, for each call,
//! compares the eight overlapping three-bit windows of the 16-bit
//! concatenation of previous and current byte against the pattern.

use vstd::prelude::*;

use crate::bits::byte_bit;
use crate::bits::byte_bits;
use crate::bits::consume_count;
use crate::bits::initial_bits;
use crate::bits::pattern_count;
use crate::engine::MethodImplementation;

verus! {

/// The bit at position `k` of the sixteen-bit concatenation that holds `prev`
/// high and `b` low.
pub open spec fn concat_bit(prev: u8, b: u8, k: u16) -> bool
    recommends
        k < 16,
{
    if k < 8 {
        byte_bit(b, k as u8)
    } else {
        byte_bit(prev, (k - 8) as u8)
    }
}

/// Whether the three-bit window at shift `i` of the concatenation spells the
/// pattern 1,1,0.
pub open spec fn window_hit(prev: u8, b: u8, i: u16) -> bool
    recommends
        i < 8,
{
    &&& concat_bit(prev, b, (i + 2) as u16)
    &&& concat_bit(prev, b, (i + 1) as u16)
    &&& !concat_bit(prev, b, i)
}

/// The number of window hits at shifts `i` and above.
pub open spec fn window_count_from(prev: u8, b: u8, i: u16) -> int
    decreases 8 - i,
{
    if i >= 8 {
        0
    } else {
        window_count_from(prev, b, (i + 1) as u16) + if window_hit(prev, b, i) {
            1int
        } else {
            0int
        }
    }
}

/// The count the eight window comparisons yield for one byte.
pub open spec fn window_count(prev: u8, b: u8) -> int {
    window_count_from(prev, b, 0)
}

/// The mask comparison the engine executes is the window comparison.
proof fn lemma_window_hit_exec(prev: u8, b: u8, i: u16)
    by (bit_vector)
    requires
        i < 8,
    ensures
        window_hit(prev, b, i) == (((((prev as u16) << 8) | (b as u16)) >> i) & 0x7 == 6),
{
}

/// Window hits at shifts `8 - j` and above find exactly the occurrences
/// completed when the first `j` bits of `b` are appended to `s`, provided the
/// last two bits of `s` are the low two bits of `prev`.
proof fn lemma_window_segment(s: Seq<bool>, prev: u8, b: u8, j: int)
    requires
        0 <= j <= 8,
        s.len() >= 2,
        s[s.len() - 2] == byte_bit(prev, 1),
        s[s.len() - 1] == byte_bit(prev, 0),
    ensures
        window_count_from(prev, b, (8 - j) as u16) == pattern_count(s + byte_bits(b).take(j))
            - pattern_count(s),
    decreases j,
{
    if j == 0 {
        assert(s + byte_bits(b).take(0) =~= s);
    } else {
        lemma_window_segment(s, prev, b, j - 1);
        let p = s + byte_bits(b).take(j - 1);
        let q = s + byte_bits(b).take(j);
        let i = (8 - j) as u16;
        assert(q =~= p.push(byte_bits(b)[j - 1]));
        assert(q.drop_last() =~= p);
        assert(concat_bit(prev, b, i) == q[q.len() - 1]);
        if j >= 2 {
            assert(concat_bit(prev, b, (i + 1) as u16) == byte_bit(b, (9 - j) as u8));
            assert(q[q.len() - 2] == byte_bits(b)[j - 2]);
        } else {
            assert(concat_bit(prev, b, (i + 1) as u16) == byte_bit(prev, 0));
            assert(q[q.len() - 2] == s[s.len() - 1]);
        }
        if j >= 3 {
            assert(concat_bit(prev, b, (i + 2) as u16) == byte_bit(b, (10 - j) as u8));
            assert(q[q.len() - 3] == byte_bits(b)[j - 3]);
        } else if j == 2 {
            assert(concat_bit(prev, b, (i + 2) as u16) == byte_bit(prev, 0));
            assert(q[q.len() - 3] == s[s.len() - 1]);
        } else {
            assert(concat_bit(prev, b, (i + 2) as u16) == byte_bit(prev, 1));
            assert(q[q.len() - 3] == s[s.len() - 2]);
        }
    }
}

/// The eight window comparisons for `b` count exactly the occurrences
/// completed when the bits of `b` are appended to `s`: the window engine and
/// the stream's pattern count agree byte for byte.
pub proof fn lemma_window_counts_pattern(s: Seq<bool>, prev: u8, b: u8)
    requires
        s.len() >= 2,
        s[s.len() - 2] == byte_bit(prev, 1),
        s[s.len() - 1] == byte_bit(prev, 0),
    ensures
        window_count(prev, b) == consume_count(s, b),
{
    lemma_window_segment(s, prev, b, 8);
    assert(byte_bits(b).take(8) =~= byte_bits(b));
}

/// The sliding-window engine.
pub struct Method2 {
    prev: u8,
    bits: Ghost<Seq<bool>>,
}

impl Method2 {
    /// A fresh engine: the previous byte is the virtual zero byte.
    pub fn new() -> (e: Self)
        ensures
            e.wf(),
            e.history() == initial_bits(),
    {
        proof {
            assert(!byte_bit(0, 0) && !byte_bit(0, 1)) by (bit_vector);
        }
        Method2 { prev: 0, bits: Ghost(initial_bits()) }
    }
}

impl MethodImplementation for Method2 {
    closed spec fn history(&self) -> Seq<bool> {
        self.bits@
    }

    closed spec fn wf(&self) -> bool {
        &&& self.bits@.len() >= 2
        &&& self.bits@[self.bits@.len() - 2] == byte_bit(self.prev, 1)
        &&& self.bits@[self.bits@.len() - 1] == byte_bit(self.prev, 0)
    }

    fn pattern_match(&mut self, sample: u8) -> (count: u32) {
        let ghost h0 = self.bits@;
        let ghost p0 = self.prev;
        let mut counter: u32 = 0;
        let combined: u16 = ((self.prev as u16) << 8) | (sample as u16);
        let mut i: u16 = 8;
        while i > 0
            invariant
                i <= 8,
                combined == ((p0 as u16) << 8) | (sample as u16),
                self.prev == p0,
                self.bits@ == h0,
                counter as int == window_count_from(p0, sample, i),
                counter as int <= 8 - i as int,
            decreases i,
        {
            i = i - 1;
            proof {
                lemma_window_hit_exec(p0, sample, i);
            }
            if (combined >> i) & 0x007 == 0b110 {
                counter = counter + 1;
            }
        }
        proof {
            lemma_window_counts_pattern(h0, p0, sample);
        }
        self.prev = sample;
        self.bits = Ghost(h0 + byte_bits(sample));
        counter
    }
}

} // verus!
