//! The shared engine capability and the driver loop that accumulates a total
//! over a byte stream.

use vstd::prelude::*;

use crate::automaton::lemma_sm_run;
use crate::automaton::sm_pos;
use crate::automaton::sm_run_count;
use crate::bits::byte_bit;
use crate::bits::byte_bits;
use crate::bits::consume_count;
use crate::bits::initial_bits;
use crate::bits::lemma_consume_count_bounds;
use crate::bits::lemma_initial_no_matches;
use crate::bits::pattern_count;
use crate::bits::stream_bits;
use crate::bits::total_count;
use crate::window::lemma_window_counts_pattern;
use crate::window::window_count;

verus! {

/// One pattern-counting engine: consume one byte of the stream, return how
/// many occurrences of the pattern 1,1,0 were newly completed.
///
/// The returned count is `consume_count` of the consumed stream alone, so any
/// two engines run over identical byte sequences from identical initial state
/// return identical counts call by call, and identical cumulative totals.
pub trait MethodImplementation {
    /// The bits consumed so far, including the virtual leading zero byte.
    spec fn history(&self) -> Seq<bool>;

    /// The engine's carried state agrees with its history.
    spec fn wf(&self) -> bool;

    fn pattern_match(&mut self, sample: u8) -> (count: u32)
        requires
            old(self).wf(),
        ensures
            final(self).wf(),
            final(self).history() == old(self).history() + byte_bits(sample),
            count as int == consume_count(old(self).history(), sample),
    ;
}

/// Feeds every byte of `bytes` to `engine` in order and returns the sum of
/// the returned counts: exactly the occurrences completed within `bytes`.
///
/// The total is a function of the consumed stream alone; started from the
/// initial state it equals `total_count(bytes)`, whichever engine runs.
pub fn count_stream<E: MethodImplementation>(engine: &mut E, bytes: &Vec<u8>) -> (total: u64)
    requires
        old(engine).wf(),
        old(engine).history().len() + bytes@.len() * 8 <= u64::MAX,
    ensures
        final(engine).wf(),
        final(engine).history() == old(engine).history() + stream_bits(bytes@),
        total as int == pattern_count(old(engine).history() + stream_bits(bytes@))
            - pattern_count(old(engine).history()),
{
    let ghost h0 = engine.history();
    let mut total: u64 = 0;
    let mut k: usize = 0;
    proof {
        assert(bytes@.take(0) =~= Seq::<u8>::empty());
        assert(h0 + stream_bits(bytes@.take(0)) =~= h0);
    }
    while k < bytes.len()
        invariant
            k <= bytes@.len(),
            bytes@.len() * 8 <= u64::MAX,
            engine.wf(),
            engine.history() == h0 + stream_bits(bytes@.take(k as int)),
            total as int == pattern_count(engine.history()) - pattern_count(h0),
            total as int <= 8 * k as int,
        decreases bytes@.len() - k,
    {
        let ghost h = engine.history();
        let b = bytes[k];
        let c = engine.pattern_match(b);
        proof {
            lemma_consume_count_bounds(h, b);
            assert(bytes@.take(k as int + 1).drop_last() =~= bytes@.take(k as int));
            assert(bytes@.take(k as int + 1).last() == b);
            assert(h0 + stream_bits(bytes@.take(k as int + 1)) =~= (h0 + stream_bits(
                bytes@.take(k as int),
            )) + byte_bits(b));
        }
        total = total + c as u64;
        k = k + 1;
    }
    proof {
        assert(bytes@.take(bytes@.len() as int) =~= bytes@);
    }
    total
}

/// The automaton and the sliding window agree byte for byte: run from carried
/// state matching the same stream, both count exactly the occurrences
/// completed within the next byte — so the two engines, fed identical byte
/// sequences from identical initial state, accumulate identical totals.
pub proof fn lemma_methods_agree(s: Seq<bool>, prev: u8, b: u8)
    requires
        s.len() >= 2,
        s[s.len() - 2] == byte_bit(prev, 1),
        s[s.len() - 1] == byte_bit(prev, 0),
    ensures
        sm_run_count(sm_pos(s), byte_bits(b)) == consume_count(s, b),
        window_count(prev, b) == consume_count(s, b),
{
    lemma_sm_run(s, byte_bits(b));
    lemma_window_counts_pattern(s, prev, b);
}

/// Determinism: the total any engine accumulates over a byte sequence from
/// the initial state is the pattern count of that sequence's stream, a
/// function of the bytes alone — two runs over equal sequences accumulate
/// equal totals.
pub proof fn lemma_total_deterministic(bytes: Seq<u8>)
    ensures
        pattern_count(initial_bits() + stream_bits(bytes)) - pattern_count(initial_bits())
            == total_count(bytes),
{
    lemma_initial_no_matches();
}

} // verus!
