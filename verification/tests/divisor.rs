use camera::binary32::ONE;
use camera::homogeneous::is_near_zero;
use camera::homogeneous::stabilize_w;
use camera::homogeneous::W_THRESHOLD;

/// What the policy says in floating point: divide by one if |w| < 0.001.
fn expected(bits: u32) -> u32 {
    if f32::from_bits(bits).abs() < 0.001 {
        1.0f32.to_bits()
    } else {
        bits
    }
}

fn stabilize(w: f32) -> f32 {
    f32::from_bits(stabilize_w(w.to_bits()))
}

#[test]
fn constants_encode_one_and_one_thousandth() {
    assert_eq!(ONE, 1.0f32.to_bits());
    assert_eq!(W_THRESHOLD, 0.001f32.to_bits());
}

#[test]
fn small_positive_w_becomes_one() {
    assert_eq!(stabilize(0.0005), 1.0);
    assert_eq!(stabilize(0.000999), 1.0);
    assert_eq!(stabilize(1.0e-20), 1.0);
}

#[test]
fn small_negative_w_becomes_one() {
    assert_eq!(stabilize(-0.0005), 1.0);
    assert_eq!(stabilize(-0.000999), 1.0);
    assert_eq!(stabilize_w((-0.0005f32).to_bits()), 0x3F80_0000);
}

#[test]
fn zero_of_either_sign_becomes_one() {
    assert_eq!(stabilize_w(0x0000_0000), 0x3F80_0000);
    assert_eq!(stabilize_w(0x8000_0000), 0x3F80_0000);
}

#[test]
fn subnormal_w_becomes_one() {
    assert_eq!(stabilize_w(0x0000_0001), 0x3F80_0000);
    assert_eq!(stabilize_w(0x807F_FFFF), 0x3F80_0000);
    assert_eq!(stabilize(f32::MIN_POSITIVE), 1.0);
}

#[test]
fn threshold_itself_is_kept() {
    assert_eq!(stabilize_w(0x3A83_126F), 0x3A83_126F);
    assert_eq!(stabilize_w(0xBA83_126F), 0xBA83_126F);
    assert_eq!(stabilize(0.001), 0.001);
    assert_eq!(stabilize(-0.001), -0.001);
}

#[test]
fn largest_magnitude_below_threshold_becomes_one() {
    assert_eq!(stabilize_w(0x3A83_126E), 0x3F80_0000);
    assert_eq!(stabilize_w(0xBA83_126E), 0x3F80_0000);
}

#[test]
fn ordinary_w_is_kept() {
    assert_eq!(stabilize(1.0), 1.0);
    assert_eq!(stabilize(0.5), 0.5);
    assert_eq!(stabilize(-2.0), -2.0);
    assert_eq!(stabilize(0.0011), 0.0011);
    assert_eq!(stabilize(f32::MAX), f32::MAX);
    assert_eq!(stabilize(f32::MIN), f32::MIN);
}

#[test]
fn infinities_are_kept() {
    assert_eq!(stabilize(f32::INFINITY), f32::INFINITY);
    assert_eq!(stabilize(f32::NEG_INFINITY), f32::NEG_INFINITY);
}

#[test]
fn nan_is_kept_bit_for_bit() {
    assert_eq!(stabilize_w(0x7FC0_0000), 0x7FC0_0000);
    assert_eq!(stabilize_w(0xFFC0_0000), 0xFFC0_0000);
    assert_eq!(stabilize_w(0x7F80_0001), 0x7F80_0001);
    assert_eq!(stabilize_w(0xFFFF_FFFF), 0xFFFF_FFFF);
}

#[test]
fn is_near_zero_on_chosen_values() {
    assert!(is_near_zero(0.0f32.to_bits()));
    assert!(is_near_zero((-0.0f32).to_bits()));
    assert!(is_near_zero(0.0009f32.to_bits()));
    assert!(is_near_zero((-0.0009f32).to_bits()));
    assert!(!is_near_zero(0.001f32.to_bits()));
    assert!(!is_near_zero((-0.001f32).to_bits()));
    assert!(!is_near_zero(1.0f32.to_bits()));
    assert!(!is_near_zero(f32::NAN.to_bits()));
    assert!(!is_near_zero(f32::INFINITY.to_bits()));
}

#[test]
fn agrees_with_floating_point_comparison_across_the_range() {
    let mut bits: u32 = 0;
    loop {
        assert_eq!(stabilize_w(bits), expected(bits), "bits {:#010x}", bits);
        assert_eq!(
            is_near_zero(bits),
            f32::from_bits(bits).abs() < 0.001,
            "bits {:#010x}",
            bits
        );
        match bits.checked_add(40_009) {
            Some(next) => bits = next,
            None => break,
        }
    }
}

#[test]
fn agrees_with_floating_point_comparison_around_the_threshold() {
    for sign in [0u32, 0x8000_0000] {
        for magnitude in (W_THRESHOLD - 5_000)..(W_THRESHOLD + 5_000) {
            let bits = sign | magnitude;
            assert_eq!(stabilize_w(bits), expected(bits), "bits {:#010x}", bits);
        }
    }
}

#[test]
fn divisor_is_never_zero() {
    let mut bits: u32 = 0;
    loop {
        let w = f32::from_bits(stabilize_w(bits));
        assert!(w != 0.0, "bits {:#010x}", bits);
        match bits.checked_add(65_521) {
            Some(next) => bits = next,
            None => break,
        }
    }
}

#[test]
fn stabilizing_twice_changes_nothing_more() {
    let mut bits: u32 = 0;
    loop {
        let once = stabilize_w(bits);
        assert_eq!(stabilize_w(once), once, "bits {:#010x}", bits);
        assert!(!is_near_zero(once), "bits {:#010x}", bits);
        match bits.checked_add(65_521) {
            Some(next) => bits = next,
            None => break,
        }
    }
}
