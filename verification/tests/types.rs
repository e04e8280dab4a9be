use mech3ax::types::{Vec3, Vec4, F32, FIVE_BITS, MINUS_FIVE_BITS, ONE_BITS};

fn f(x: f32) -> F32 {
    F32::from_bits(x.to_bits())
}

fn samples() -> Vec<f32> {
    vec![
        0.0,
        -0.0,
        1.0,
        -1.0,
        0.5,
        -0.5,
        5.0,
        -5.0,
        5.000001,
        -5.000001,
        1.0e-40,
        -1.0e-40,
        f32::MIN_POSITIVE,
        f32::MAX,
        f32::MIN,
        f32::INFINITY,
        f32::NEG_INFINITY,
        f32::NAN,
        -f32::NAN,
        f32::from_bits(0x7F80_0001),
        f32::from_bits(0xFFFF_FFFF),
        123456.79,
        -3.25,
    ]
}

#[test]
fn bits_are_kept() {
    assert_eq!(F32::from_bits(0x3F00_0000).to_bits(), 0x3F00_0000);
    assert_eq!(f(0.5).bits, 0x3F00_0000);
    assert_eq!(F32::zero().bits, 0);
}

#[test]
fn constants_are_the_numbers() {
    assert_eq!(ONE_BITS, 1.0f32.to_bits());
    assert_eq!(FIVE_BITS, 5.0f32.to_bits());
    assert_eq!(MINUS_FIVE_BITS, (-5.0f32).to_bits());
}

#[test]
fn is_zero_is_equal_to_zero() {
    for x in samples() {
        assert_eq!(f(x).is_zero(), x == 0.0, "{}", x);
    }
}

#[test]
fn is_positive_is_above_zero() {
    for x in samples() {
        assert_eq!(f(x).is_positive(), x > 0.0, "{}", x);
    }
}

#[test]
fn is_nan_is_nan() {
    for x in samples() {
        assert_eq!(f(x).is_nan(), x.is_nan(), "{}", x);
    }
}

#[test]
fn order_is_the_order_of_numbers() {
    for x in samples() {
        for y in samples() {
            assert_eq!(f(x).num_le(f(y)), x <= y, "{} <= {}", x, y);
            assert_eq!(f(x).num_lt(f(y)), x < y, "{} < {}", x, y);
            assert_eq!(f(x).num_eq(f(y)), x == y, "{} == {}", x, y);
        }
    }
}

#[test]
fn between_is_a_closed_range() {
    for x in samples() {
        assert_eq!(f(x).is_between(f(-5.0), f(5.0)), -5.0 <= x && x <= 5.0, "{}", x);
        assert_eq!(f(x).is_between(f(0.0), f(1.0)), 0.0 <= x && x <= 1.0, "{}", x);
    }
}

#[test]
fn empty_triples_hold_zeros() {
    assert_eq!(Vec3::empty(), Vec3(f(0.0), f(0.0), f(0.0)));
    assert_eq!(Vec4::empty(), Vec4(f(0.0), f(0.0), f(0.0), f(0.0)));
    assert!(Vec3::empty().is_empty());
    assert!(Vec3(f(-0.0), f(0.0), f(-0.0)).is_empty());
    assert!(!Vec3(f(0.0), f(1.0e-40), f(0.0)).is_empty());
}
