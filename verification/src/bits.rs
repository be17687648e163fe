//! The mathematical model: a byte sequence seen as a stream of bits, most
//! significant bit first, and the number of occurrences of the pattern 1,1,0
//! in that stream. Every engine's contract is stated over these functions.

use vstd::prelude::*;

verus! {

/// True when bit `i` (counted from the least significant end) of `b` is set.
pub open spec fn byte_bit(b: u8, i: u8) -> bool {
    (b >> i) & 1 == 1
}

/// The eight bits of a byte, most significant first: the order in which the
/// stream presents them.
pub open spec fn byte_bits(b: u8) -> Seq<bool> {
    Seq::new(8, |j: int| byte_bit(b, (7 - j) as u8))
}

/// The bit stream of a byte sequence: the bytes' bits concatenated in order.
pub open spec fn stream_bits(bytes: Seq<u8>) -> Seq<bool>
    decreases bytes.len(),
{
    if bytes.len() == 0 {
        Seq::empty()
    } else {
        stream_bits(bytes.drop_last()) + byte_bits(bytes.last())
    }
}

/// Whether the three bits of `s` ending at index `i` spell the pattern 1,1,0.
pub open spec fn match_ends_at(s: Seq<bool>, i: int) -> bool {
    &&& 2 <= i < s.len()
    &&& s[i - 2]
    &&& s[i - 1]
    &&& !s[i]
}

/// The number of occurrences of the pattern 1,1,0 in `s`; overlapping
/// occurrences count independently.
pub open spec fn pattern_count(s: Seq<bool>) -> int
    decreases s.len(),
{
    if s.len() == 0 {
        0
    } else {
        pattern_count(s.drop_last()) + if match_ends_at(s, s.len() - 1) {
            1int
        } else {
            0int
        }
    }
}

/// How many occurrences are newly completed when the bits of `b` are appended
/// to the stream `s`: what one `pattern_match` call must return.
pub open spec fn consume_count(s: Seq<bool>, b: u8) -> int {
    pattern_count(s + byte_bits(b)) - pattern_count(s)
}

/// The carried state every engine starts from: one virtual zero byte.
pub open spec fn initial_bits() -> Seq<bool> {
    byte_bits(0)
}

/// The pattern count of a whole byte sequence consumed from the initial state.
pub open spec fn total_count(bytes: Seq<u8>) -> int {
    pattern_count(initial_bits() + stream_bits(bytes))
}

/// Appending bits completes at least zero and at most one occurrence per bit.
pub proof fn lemma_count_delta_bounds(s: Seq<bool>, t: Seq<bool>)
    ensures
        0 <= pattern_count(s + t) - pattern_count(s) <= t.len(),
    decreases t.len(),
{
    if t.len() == 0 {
        assert(s + t =~= s);
    } else {
        lemma_count_delta_bounds(s, t.drop_last());
        assert((s + t).drop_last() =~= s + t.drop_last());
    }
}

/// One `pattern_match` call returns between 0 and 8.
pub proof fn lemma_consume_count_bounds(s: Seq<bool>, b: u8)
    ensures
        0 <= consume_count(s, b) <= 8,
{
    lemma_count_delta_bounds(s, byte_bits(b));
}

/// A stream with no set bit holds no occurrence: the pattern needs two ones.
pub proof fn lemma_all_zeros_no_matches(s: Seq<bool>)
    requires
        forall|i: int| 0 <= i < s.len() ==> !s[i],
    ensures
        pattern_count(s) == 0,
    decreases s.len(),
{
    if s.len() > 0 {
        lemma_all_zeros_no_matches(s.drop_last());
    }
}

/// The initial carried state holds no occurrence.
pub proof fn lemma_initial_no_matches()
    ensures
        pattern_count(initial_bits()) == 0,
{
    assert(forall|i: u8| i < 8 ==> !(#[trigger] byte_bit(0, i))) by (bit_vector);
    assert(forall|j: int| 0 <= j < 8 ==> !initial_bits()[j]);
    lemma_all_zeros_no_matches(initial_bits());
}

/// Pushing a set bit never completes an occurrence: the pattern ends in zero.
proof fn lemma_push_one_no_match(s: Seq<bool>)
    ensures
        pattern_count(s.push(true)) == pattern_count(s),
{
    assert(s.push(true).drop_last() =~= s);
}

/// Appending set bits only never completes an occurrence.
proof fn lemma_append_ones_no_matches(s: Seq<bool>, t: Seq<bool>)
    requires
        forall|i: int| 0 <= i < t.len() ==> t[i],
    ensures
        pattern_count(s + t) == pattern_count(s),
    decreases t.len(),
{
    if t.len() == 0 {
        assert(s + t =~= s);
    } else {
        lemma_append_ones_no_matches(s, t.drop_last());
        assert(s + t =~= (s + t.drop_last()).push(t.last()));
        lemma_push_one_no_match(s + t.drop_last());
    }
}

/// An all-ones byte stream of any length produces zero matches: the
/// terminating zero of the pattern never appears.
pub proof fn lemma_all_ones_no_matches(bytes: Seq<u8>)
    requires
        forall|i: int| 0 <= i < bytes.len() ==> bytes[i] == 0xFF,
    ensures
        total_count(bytes) == 0,
    decreases bytes.len(),
{
    if bytes.len() == 0 {
        assert(initial_bits() + stream_bits(bytes) =~= initial_bits());
        lemma_initial_no_matches();
    } else {
        lemma_all_ones_no_matches(bytes.drop_last());
        assert(initial_bits() + stream_bits(bytes) =~= (initial_bits() + stream_bits(
            bytes.drop_last(),
        )) + byte_bits(0xFF));
        assert(forall|i: u8| i < 8 ==> #[trigger] byte_bit(0xFF, i)) by (bit_vector);
        assert(forall|j: int| 0 <= j < 8 ==> byte_bits(0xFF)[j]);
        lemma_append_ones_no_matches(
            initial_bits() + stream_bits(bytes.drop_last()),
            byte_bits(0xFF),
        );
    }
}

} // verus!
