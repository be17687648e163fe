//! The lookup-table engine: a 1024-entry table, built once at construction by
//! running a fresh sliding-window engine over every combination of (previous
//! byte's low two bits, current byte), then one table read per call.

use vstd::prelude::*;

use crate::bits::byte_bit;
use crate::bits::byte_bits;
use crate::bits::initial_bits;
use crate::engine::MethodImplementation;
use crate::window::lemma_window_counts_pattern;
use crate::window::window_count;
use crate::window::window_count_from;
use crate::window::Method2;

verus! {

/// The table index a call computes: the previous byte's low two bits beside
/// the current byte.
pub open spec fn lut_index(prev: u8, b: u8) -> int {
    ((((prev as u16) << 8) | (b as u16)) & 0x3FF) as int
}

/// The count stored at table index `k`: the window count for a previous byte
/// holding `k`'s high two bits and the current byte `k` carries low.
pub open spec fn lut_entry(k: int) -> int
    recommends
        0 <= k < 1024,
{
    window_count((k / 256) as u8, (k % 256) as u8)
}

/// Two previous bytes with equal low two bits yield equal window counts: only
/// those two bits of the previous byte reach the eight windows.
proof fn lemma_window_low_bits(p1: u8, p2: u8, b: u8, i: u16)
    requires
        i <= 8,
        byte_bit(p1, 0) == byte_bit(p2, 0),
        byte_bit(p1, 1) == byte_bit(p2, 1),
    ensures
        window_count_from(p1, b, i) == window_count_from(p2, b, i),
    decreases 8 - i,
{
    if i < 8 {
        lemma_window_low_bits(p1, p2, b, (i + 1) as u16);
    }
}

/// Looking the table up at the index formed from any previous byte yields
/// exactly the count the sliding-window comparison yields live for that byte:
/// the table is a memoization of the window engine, for every context.
pub proof fn lemma_lookup_matches_window(prev: u8, b: u8)
    ensures
        0 <= lut_index(prev, b) < 1024,
        lut_entry(lut_index(prev, b)) == window_count(prev, b),
{
    let k = (((prev as u16) << 8) | (b as u16)) & 0x3FF;
    assert((((prev as u16) << 8) | (b as u16)) & 0x3FF < 1024 && ((((prev as u16) << 8) | (
    b as u16)) & 0x3FF) / 256 == ((prev & 3) as u16) && ((((prev as u16) << 8) | (b as u16))
        & 0x3FF) % 256 == (b as u16)) by (bit_vector);
    assert((k as int) / 256 == (k / 256) as int);
    assert((k as int) % 256 == (k % 256) as int);
    assert(byte_bit((prev & 3) as u8, 0) == byte_bit(prev, 0) && byte_bit((prev & 3) as u8, 1)
        == byte_bit(prev, 1)) by (bit_vector);
    lemma_window_low_bits((prev & 3) as u8, prev, b, 0);
}

/// The lookup-table engine.
pub struct Method3 {
    prev: u8,
    count_lut: Vec<u32>,
    bits: Ghost<Seq<bool>>,
}

impl Method3 {
    /// Builds the table: for each index, a fresh sliding-window engine is
    /// primed with a byte carrying the index's high two bits and then consumes
    /// the index's low byte; the count it returns is stored. The table is
    /// immutable thereafter.
    pub fn new() -> (e: Self)
        ensures
            e.wf(),
            e.history() == initial_bits(),
    {
        let mut count_lut: Vec<u32> = Vec::new();
        let mut combined: u16 = 0;
        while combined < 1024
            invariant
                combined <= 1024,
                count_lut@.len() == combined as int,
                forall|k: int|
                    0 <= k < combined as int ==> (#[trigger] count_lut@[k]) as int == lut_entry(k),
            decreases 1024 - combined,
        {
            let hi: u8 = (combined >> 8) as u8;
            let lo: u8 = (combined & 0xFF) as u8;
            let mut method2 = Method2::new();
            method2.pattern_match(hi);
            let c = method2.pattern_match(lo);
            proof {
                let s = initial_bits() + byte_bits(hi);
                assert(s[s.len() - 2] == byte_bit(hi, 1) && s[s.len() - 1] == byte_bit(hi, 0));
                lemma_window_counts_pattern(s, hi, lo);
                assert(combined >> 8 == combined / 256 && combined & 0xFF == combined % 256
                    && combined / 256 < 4) by (bit_vector)
                    requires
                        combined < 1024,
                ;
                assert((combined as int) / 256 == (combined / 256) as int);
                assert((combined as int) % 256 == (combined % 256) as int);
            }
            count_lut.push(c);
            combined = combined + 1;
        }
        proof {
            assert(!byte_bit(0, 0) && !byte_bit(0, 1)) by (bit_vector);
        }
        Method3 { prev: 0, count_lut, bits: Ghost(initial_bits()) }
    }
}

impl MethodImplementation for Method3 {
    closed spec fn history(&self) -> Seq<bool> {
        self.bits@
    }

    closed spec fn wf(&self) -> bool {
        &&& self.bits@.len() >= 2
        &&& self.bits@[self.bits@.len() - 2] == byte_bit(self.prev, 1)
        &&& self.bits@[self.bits@.len() - 1] == byte_bit(self.prev, 0)
        &&& self.count_lut@.len() == 1024
        &&& forall|k: int| 0 <= k < 1024 ==> (#[trigger] self.count_lut@[k]) as int == lut_entry(k)
    }

    fn pattern_match(&mut self, sample: u8) -> (count: u32) {
        let ghost h0 = self.bits@;
        let ghost p0 = self.prev;
        let combined: u16 = (((self.prev as u16) << 8) | (sample as u16)) & 0x3FF;
        proof {
            lemma_lookup_matches_window(p0, sample);
            lemma_window_counts_pattern(h0, p0, sample);
        }
        let counter = self.count_lut[combined as usize];
        self.prev = sample;
        self.bits = Ghost(h0 + byte_bits(sample));
        counter
    }
}

} // verus!
