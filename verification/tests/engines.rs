use bitcount::automaton::Method1;
use bitcount::engine::count_stream;
use bitcount::engine::MethodImplementation;
use bitcount::lookup::Method3;
use bitcount::window::Method2;

fn pseudo_random_bytes(n: usize) -> Vec<u8> {
    let mut x: u32 = 0x1234_5678;
    let mut out = Vec::with_capacity(n);
    for _ in 0..n {
        x = x.wrapping_mul(1103515245).wrapping_add(12345);
        out.push((x >> 16) as u8);
    }
    out
}

#[test]
fn boundary_match_spans_bytes() {
    // previous = 0x00 (virtual), current = 0b11000000: one match for that call,
    // and the following zero byte completes nothing further.
    let mut m1 = Method1::new();
    assert_eq!(m1.pattern_match(0b1100_0000), 1);
    assert_eq!(m1.pattern_match(0b0000_0000), 0);

    let mut m2 = Method2::new();
    assert_eq!(m2.pattern_match(0b1100_0000), 1);
    assert_eq!(m2.pattern_match(0b0000_0000), 0);

    let mut m3 = Method3::new();
    assert_eq!(m3.pattern_match(0b1100_0000), 1);
    assert_eq!(m3.pattern_match(0b0000_0000), 0);
}

#[test]
fn carry_completes_across_boundary() {
    // 0x03 leaves two ones pending; the next byte's leading zero closes them once.
    let mut m1 = Method1::new();
    assert_eq!(m1.pattern_match(0x03), 0);
    assert_eq!(m1.pattern_match(0x00), 1);

    let mut m2 = Method2::new();
    assert_eq!(m2.pattern_match(0x03), 0);
    assert_eq!(m2.pattern_match(0x00), 1);

    let mut m3 = Method3::new();
    assert_eq!(m3.pattern_match(0x03), 0);
    assert_eq!(m3.pattern_match(0x00), 1);
}

#[test]
fn run_of_ones_then_zero() {
    // previous = 0x00, then 0b01111110 followed by 0b00000000: the terminating
    // zero closes the run of ones exactly once across the two calls.
    let mut m1 = Method1::new();
    let mut m2 = Method2::new();
    let mut m3 = Method3::new();
    let a1 = m1.pattern_match(0b0111_1110);
    let b1 = m1.pattern_match(0b0000_0000);
    let a2 = m2.pattern_match(0b0111_1110);
    let b2 = m2.pattern_match(0b0000_0000);
    let a3 = m3.pattern_match(0b0111_1110);
    let b3 = m3.pattern_match(0b0000_0000);
    assert_eq!(a1 + b1, 1);
    assert_eq!(a2 + b2, 1);
    assert_eq!(a3 + b3, 1);
}

#[test]
fn all_ones_stream_no_matches() {
    // No terminator ever appears: every call returns zero, at any length.
    let mut m1 = Method1::new();
    let mut m2 = Method2::new();
    let mut m3 = Method3::new();
    for _ in 0..100 {
        assert_eq!(m1.pattern_match(0xFF), 0);
        assert_eq!(m2.pattern_match(0xFF), 0);
        assert_eq!(m3.pattern_match(0xFF), 0);
    }
}

#[test]
fn empty_overlap_no_matches() {
    // previous = 0x00, current = 0x00: zero matches.
    let mut m1 = Method1::new();
    let mut m2 = Method2::new();
    let mut m3 = Method3::new();
    assert_eq!(m1.pattern_match(0x00), 0);
    assert_eq!(m2.pattern_match(0x00), 0);
    assert_eq!(m3.pattern_match(0x00), 0);
}

#[test]
fn two_matches_within_one_byte() {
    // 0b11011011 holds the pattern twice.
    let mut m1 = Method1::new();
    let mut m2 = Method2::new();
    let mut m3 = Method3::new();
    assert_eq!(m1.pattern_match(0b1101_1011), 2);
    assert_eq!(m2.pattern_match(0b1101_1011), 2);
    assert_eq!(m3.pattern_match(0b1101_1011), 2);
}

#[test]
fn overlapping_run_counts_once() {
    // bits 1,1,1,0 hold exactly one match, at the last three bits.
    let mut m2 = Method2::new();
    assert_eq!(m2.pattern_match(0b1110_0000), 1);
    let mut m1 = Method1::new();
    assert_eq!(m1.pattern_match(0b1110_0000), 1);
}

#[test]
fn lookup_table_matches_live_window_all_contexts() {
    // All 1024 contexts: previous byte's low two bits crossed with every
    // current byte; the table value must equal what a live sliding-window
    // engine produces for the same context.
    // Consuming the context byte first leaves exactly that context as the
    // carried state, whatever was consumed before, so the instances can be
    // reused across contexts.
    let mut live = Method2::new();
    let mut table = Method3::new();
    let mut live_high = Method2::new();
    let mut table_high = Method3::new();
    for hi in 0u16..4 {
        for b in 0u16..256 {
            live.pattern_match(hi as u8);
            let expected = live.pattern_match(b as u8);

            table.pattern_match(hi as u8);
            assert_eq!(table.pattern_match(b as u8), expected);

            // High bits of the previous byte are irrelevant to the lookup.
            live_high.pattern_match((hi as u8) | 0xFC);
            table_high.pattern_match((hi as u8) | 0xFC);
            assert_eq!(live_high.pattern_match(b as u8), expected);
            assert_eq!(table_high.pattern_match(b as u8), expected);
        }
    }
}

#[test]
fn engines_agree_call_by_call() {
    let bytes = pseudo_random_bytes(2000);
    let mut m1 = Method1::new();
    let mut m2 = Method2::new();
    let mut m3 = Method3::new();
    let mut total: u64 = 0;
    for &b in &bytes {
        let c1 = m1.pattern_match(b);
        let c2 = m2.pattern_match(b);
        let c3 = m3.pattern_match(b);
        assert_eq!(c1, c2);
        assert_eq!(c2, c3);
        total += c1 as u64;
    }
    let mut fresh1 = Method1::new();
    assert_eq!(count_stream(&mut fresh1, &bytes), total);
}

#[test]
fn identical_streams_identical_totals() {
    // Determinism: the same byte sequence, fed twice to fresh instances of
    // any one engine, yields the same cumulative total.
    let bytes = pseudo_random_bytes(4096);
    let mut a1 = Method1::new();
    let mut b1 = Method1::new();
    assert_eq!(count_stream(&mut a1, &bytes), count_stream(&mut b1, &bytes));
    let mut a2 = Method2::new();
    let mut b2 = Method2::new();
    assert_eq!(count_stream(&mut a2, &bytes), count_stream(&mut b2, &bytes));
    let mut a3 = Method3::new();
    let mut b3 = Method3::new();
    assert_eq!(count_stream(&mut a3, &bytes), count_stream(&mut b3, &bytes));
}

#[test]
fn count_stream_exact_totals() {
    let mut m1 = Method1::new();
    assert_eq!(count_stream(&mut m1, &vec![0xC0, 0x00]), 1);
    let mut m2 = Method2::new();
    assert_eq!(count_stream(&mut m2, &vec![0b1101_1011]), 2);
    let mut m3 = Method3::new();
    assert_eq!(count_stream(&mut m3, &Vec::new()), 0);
    let mut m4 = Method2::new();
    assert_eq!(count_stream(&mut m4, &vec![0x03, 0x00, 0x03, 0x00]), 2);
}

#[test]
fn totals_agree_across_engines() {
    let bytes = pseudo_random_bytes(3000);
    let mut m1 = Method1::new();
    let mut m2 = Method2::new();
    let mut m3 = Method3::new();
    let t1 = count_stream(&mut m1, &bytes);
    let t2 = count_stream(&mut m2, &bytes);
    let t3 = count_stream(&mut m3, &bytes);
    assert_eq!(t1, t2);
    assert_eq!(t2, t3);
}
