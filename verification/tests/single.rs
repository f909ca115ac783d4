use neuroevolution::single::{is_non_negative, is_positive, is_probability, is_zero, INFINITY, NEGATIVE_ZERO, ONE, ZERO};

fn samples() -> Vec<u32> {
    let mut patterns = vec![
        0,
        1,
        2,
        0x007f_ffff,
        0x0080_0000,
        0x0080_0001,
        0x3f00_0000,
        0x3f7f_ffff,
        0x3f80_0000,
        0x3f80_0001,
        0x4000_0000,
        0x7f7f_ffff,
        0x7f80_0000,
        0x7f80_0001,
        0x7fc0_0000,
        0x7fff_ffff,
    ];
    let signed: Vec<u32> = patterns.iter().map(|pattern| pattern | 0x8000_0000).collect();
    patterns.extend(signed);
    let mut state: u32 = 0x1234_5678;
    for _ in 0..20_000 {
        state = state.wrapping_mul(1_664_525).wrapping_add(1_013_904_223);
        patterns.push(state);
    }
    patterns
}

#[test]
fn constants_are_the_patterns_of_their_values() {
    assert_eq!(ZERO, 0.0f32.to_bits());
    assert_eq!(NEGATIVE_ZERO, (-0.0f32).to_bits());
    assert_eq!(ONE, 1.0f32.to_bits());
    assert_eq!(INFINITY, f32::INFINITY.to_bits());
}

#[test]
fn readings_agree_with_the_reals() {
    for pattern in samples() {
        let value = f32::from_bits(pattern);
        assert_eq!(is_non_negative(pattern), value.is_finite() && value >= 0.0, "{:#x}", pattern);
        assert_eq!(is_positive(pattern), value.is_finite() && value > 0.0, "{:#x}", pattern);
        assert_eq!(is_zero(pattern), value == 0.0, "{:#x}", pattern);
        assert_eq!(is_probability(pattern), (0.0..=1.0).contains(&value), "{:#x}", pattern);
    }
}

#[test]
fn readings_at_the_edges() {
    assert!(is_probability(0.0f32.to_bits()));
    assert!(is_probability(1.0f32.to_bits()));
    assert!(is_probability(0.5f32.to_bits()));
    assert!(!is_probability(1.5f32.to_bits()));
    assert!(!is_probability((-0.5f32).to_bits()));
    assert!(!is_probability(f32::NAN.to_bits()));
    assert!(is_non_negative((-0.0f32).to_bits()));
    assert!(!is_positive((-0.0f32).to_bits()));
    assert!(is_positive(f32::MIN_POSITIVE.to_bits()));
    assert!(is_positive(1.0e-45f32.to_bits()));
    assert!(!is_positive(f32::INFINITY.to_bits()));
    assert!(!is_non_negative(f32::NAN.to_bits()));
}
