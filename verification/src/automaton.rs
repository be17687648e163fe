//! The finite-state engine: a three-state automaton that walks each byte bit
//! by bit, carrying how many leading bits of the pattern stand matched.

use vstd::prelude::*;

use crate::bits::byte_bit;
use crate::bits::byte_bits;
use crate::bits::initial_bits;
use crate::bits::match_ends_at;
use crate::bits::pattern_count;
use crate::engine::MethodImplementation;

verus! {

/// One automaton step: how many leading pattern bits stand matched after
/// reading `bit`. On a one the progress advances and saturates at two — the
/// previous one remains valid as the start of a new potential match; on a
/// zero the progress resets.
pub open spec fn sm_step(pos: int, bit: bool) -> int {
    if bit {
        if pos < 2 {
            pos + 1
        } else {
            2
        }
    } else {
        0
    }
}

/// Whether the step on `bit` completes an occurrence: two ones stand matched
/// and the terminating zero arrives.
pub open spec fn sm_emits(pos: int, bit: bool) -> bool {
    pos == 2 && !bit
}

/// The automaton state a stream determines: 2 when its last two bits are
/// ones, 1 when only its last bit is a one, 0 when its last bit is a zero.
pub open spec fn sm_pos(s: Seq<bool>) -> int
    recommends
        s.len() >= 2,
{
    if !s[s.len() - 1] {
        0
    } else if s[s.len() - 2] {
        2
    } else {
        1
    }
}

/// The automaton state after running over `t` from state `pos`.
pub open spec fn sm_run_pos(pos: int, t: Seq<bool>) -> int
    decreases t.len(),
{
    if t.len() == 0 {
        pos
    } else {
        sm_step(sm_run_pos(pos, t.drop_last()), t.last())
    }
}

/// The number of occurrences the automaton completes while running over `t`
/// from state `pos`.
pub open spec fn sm_run_count(pos: int, t: Seq<bool>) -> int
    decreases t.len(),
{
    if t.len() == 0 {
        0
    } else {
        sm_run_count(pos, t.drop_last()) + if sm_emits(
            sm_run_pos(pos, t.drop_last()),
            t.last(),
        ) {
            1int
        } else {
            0int
        }
    }
}

/// One automaton step tracks the stream: the state stays the one the stream
/// determines, and an occurrence is emitted exactly when one ends at the new
/// bit.
proof fn lemma_sm_step(s: Seq<bool>, bit: bool)
    requires
        s.len() >= 2,
    ensures
        sm_step(sm_pos(s), bit) == sm_pos(s.push(bit)),
        sm_emits(sm_pos(s), bit) == match_ends_at(s.push(bit), s.len() as int),
{
}

/// Running the automaton over appended bits from the state the stream
/// determines ends in the state the longer stream determines, and counts
/// exactly the occurrences completed within the appended bits.
pub proof fn lemma_sm_run(s: Seq<bool>, t: Seq<bool>)
    requires
        s.len() >= 2,
    ensures
        sm_run_pos(sm_pos(s), t) == sm_pos(s + t),
        sm_run_count(sm_pos(s), t) == pattern_count(s + t) - pattern_count(s),
    decreases t.len(),
{
    if t.len() == 0 {
        assert(s + t =~= s);
    } else {
        lemma_sm_run(s, t.drop_last());
        assert((s + t).drop_last() =~= s + t.drop_last());
        assert(s + t =~= (s + t.drop_last()).push(t.last()));
        lemma_sm_step(s + t.drop_last(), t.last());
    }
}

/// The automaton engine.
pub struct Method1 {
    pos: i8,
    bits: Ghost<Seq<bool>>,
}

impl Method1 {
    /// A fresh engine: no progress, carried state the virtual zero byte.
    pub fn new() -> (e: Self)
        ensures
            e.wf(),
            e.history() == initial_bits(),
    {
        proof {
            assert(!byte_bit(0, 0) && !byte_bit(0, 1)) by (bit_vector);
        }
        Method1 { pos: 0, bits: Ghost(initial_bits()) }
    }
}

impl MethodImplementation for Method1 {
    closed spec fn history(&self) -> Seq<bool> {
        self.bits@
    }

    closed spec fn wf(&self) -> bool {
        &&& self.bits@.len() >= 2
        &&& self.pos as int == sm_pos(self.bits@)
    }

    fn pattern_match(&mut self, sample: u8) -> (count: u32) {
        let ghost h0 = self.bits@;
        let mut counter: u32 = 0;
        let mut i: u8 = 8;
        while i > 0
            invariant
                i <= 8,
                h0.len() >= 2,
                self.bits@ == h0,
                0 <= self.pos <= 2,
                self.pos as int == sm_run_pos(sm_pos(h0), byte_bits(sample).take(8 - i as int)),
                counter as int == sm_run_count(sm_pos(h0), byte_bits(sample).take(8 - i as int)),
                counter as int <= 8 - i as int,
            decreases i,
        {
            i = i - 1;
            let ghost j = 7 - i as int;
            let bit = sample & (1u8 << i);
            proof {
                assert(((sample & (1u8 << i)) != 0) == ((sample >> i) & 1 == 1)) by (bit_vector)
                    requires
                        i < 8,
                ;
                assert(byte_bits(sample).take(j + 1).drop_last() =~= byte_bits(sample).take(j));
                assert(byte_bits(sample).take(j + 1).last() == byte_bits(sample)[j]);
                assert(byte_bits(sample)[j] == byte_bit(sample, i));
            }
            match self.pos {
                0 | 1 => {
                    if bit != 0 {
                        self.pos = self.pos + 1;
                    } else {
                        self.pos = 0;
                    }
                },
                2 => {
                    if bit != 0 {
                        // a longer run of ones: the last two ones still open a match
                    } else {
                        counter = counter + 1;
                        self.pos = 0;
                    }
                },
                _ => {
                    proof {
                        assert(false);
                    }
                },
            }
        }
        proof {
            assert(byte_bits(sample).take(8) =~= byte_bits(sample));
            lemma_sm_run(h0, byte_bits(sample));
        }
        self.bits = Ghost(h0 + byte_bits(sample));
        counter
    }
}

} // verus!
