use http_cache_semantics::Fraction;

fn by_floats(bits: u32, secs: u64) -> u64 {
    (secs as f64 * f32::from_bits(bits) as f64) as u64
}

#[test]
fn a_tenth_of_a_hundred_days_is_ten_days() {
    let tenth = Fraction { bits: 0.1f32.to_bits() };
    assert_eq!(tenth.bits, 0x3DCC_CCCD);
    assert_eq!(tenth.scale(100 * 24 * 3600), 10 * 24 * 3600);
    assert_eq!(tenth.scale(0), 0);
    assert_eq!(tenth.scale(9), 0);
    assert_eq!(tenth.scale(10), 1);
}

#[test]
fn scales_as_floating_point_does() {
    let fractions = [
        0.0f32, -0.0, 0.1, 0.2, 0.25, 0.3, 0.5, 0.75, 0.9, 0.999_999_94, 1.0, 1.000_000_1, 1.5, 2.0, 3.7, 10.0,
        1e-10, 1e-38, 1e-45, 1e10, 1e18, 1e30, 3.4e38, -0.1, -1.0, -1e30, 16777217.0, 123456.79,
    ];
    let seconds = [
        0, 1, 2, 3, 9, 10, 11, 59, 3600, 86_400, 8_640_000, 31_536_000, 1_700_000_000, 4_294_967_295,
        4_294_967_296, 9_007_199_254_740_991, 9_007_199_254_740_992, 9_007_199_254_740_993,
        9_007_199_254_740_995, 1 << 60, (1 << 60) + 129, u64::MAX - 1024, u64::MAX - 1, u64::MAX,
    ];
    for f in fractions {
        for s in seconds {
            let scaled = Fraction { bits: f.to_bits() }.scale(s);
            assert_eq!(scaled, by_floats(f.to_bits(), s), "{} {}", f, s);
        }
    }
}

#[test]
fn scales_every_kind_of_bits() {
    let mut state = 0x2545_F491_4F6C_DD1Du64;
    for _ in 0..20_000 {
        state ^= state << 13;
        state ^= state >> 7;
        state ^= state << 17;
        let bits = (state >> 32) as u32;
        let secs = state.rotate_left(21) >> (state % 64);
        assert_eq!(Fraction { bits }.scale(secs), by_floats(bits, secs), "{:x} {}", bits, secs);
    }
}

#[test]
fn what_is_not_finite_counts_as_zero_or_as_the_most() {
    assert_eq!(Fraction { bits: f32::NAN.to_bits() }.scale(5), by_floats(f32::NAN.to_bits(), 5));
    assert_eq!(Fraction { bits: f32::INFINITY.to_bits() }.scale(5), u64::MAX);
    assert_eq!(Fraction { bits: f32::INFINITY.to_bits() }.scale(0), 0);
    assert_eq!(Fraction { bits: f32::NEG_INFINITY.to_bits() }.scale(5), 0);
}
