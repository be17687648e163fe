//! Counting occurrences of the 3-bit pattern 1,1,0 in a byte stream, by three
//! interchangeable engines: a bit-by-bit finite automaton, a sliding 3-bit
//! window over a 16-bit concatenation, and a precomputed 1024-entry lookup
//! table. Each engine consumes one byte at a time, carries minimal state
//! across byte boundaries, and returns how many occurrences were newly
//! completed; all three are proved to return the pattern count of the stream.

pub mod automaton;
pub mod bits;
pub mod engine;
pub mod lookup;
pub mod window;
