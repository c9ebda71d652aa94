use matter::ieee::{Binary32, Binary64};

fn b64(x: f64) -> Binary64 {
    Binary64::from_bits(x.to_bits())
}

fn b32(x: f32) -> Binary32 {
    Binary32::from_bits(x.to_bits())
}

#[test]
fn converts_small_integers_exactly() {
    for n in [0u16, 1, 2, 3, 255, 256, 1000, 65535] {
        assert_eq!(f64::from_bits(Binary64::from_u16(n).to_bits()), n as f64);
    }
}

#[test]
fn compares_against_integer_limits_like_binary64() {
    let limit = 256u16;
    for x in [0.0, -0.0, 255.9, 256.0, 256.0000001, 300.0, -300.0, f64::INFINITY, f64::NEG_INFINITY, f64::NAN, 1e-300] {
        assert_eq!(b64(x).exceeds_u16(limit), x > f64::from(limit), "{x}");
    }
}

#[test]
fn decides_non_positive_values_like_binary64() {
    for x in [0.0, -0.0, 1e-320, -1e-320, 0.2, -0.2, f64::INFINITY, f64::NEG_INFINITY, f64::NAN] {
        assert_eq!(b64(x).is_at_most_zero(), x <= 0.0, "{x}");
    }
    for x in [0.0f32, -0.0, 1e-40, -1e-40, 0.2, f32::INFINITY, f32::NAN] {
        assert_eq!(b32(x).is_at_most_zero(), x <= 0.0, "{x}");
    }
}

#[test]
fn equality_follows_ieee_rules() {
    assert_eq!(b64(0.0), b64(-0.0));
    assert_ne!(b64(f64::NAN), b64(f64::NAN));
    assert_eq!(b64(0.2), b64(0.2));
    assert_ne!(b64(0.2), b64(0.3));
    assert_eq!(b32(0.0), b32(-0.0));
    assert_ne!(b32(f32::NAN), b32(f32::NAN));
    assert!(b32(0.2).equals(b32(0.2)));
}

fn next_up(x: f64) -> f64 {
    f64::from_bits(x.to_bits() + 1)
}

#[test]
fn decides_the_spinner_tolerance_like_binary64() {
    let billionth = 1e-9f64;
    assert_eq!(billionth.to_bits(), matter::ieee::ONE_BILLIONTH_64);
    let midpoint_pairs = [
        (0.0, billionth),
        (0.0, next_up(billionth)),
        (billionth, 0.0),
        (-billionth, 0.0),
        (1e-9 / 2.0, -1e-9 / 2.0),
        (5e-10, -next_up(5e-10)),
        (60.0, 60.0),
        (60.0, next_up(60.0)),
        (60.0, 60.0 + 5e-10),
        (60.0, 60.000001),
        (-60.0, 60.0),
        (0.0, -0.0),
        (1e-300, -1e-300),
        (f64::MIN_POSITIVE, 1e-9),
        (5e-324, 1e-9),
        (3.0e-8, 3.0e-8 + 1e-9),
        (3.0e-8, next_up(3.0e-8)),
        (1e20, 1e20),
        (1e20, next_up(1e20)),
        (f64::MAX, f64::MAX),
        (f64::MAX, -f64::MAX),
        (f64::INFINITY, f64::INFINITY),
        (f64::INFINITY, 1.0),
        (f64::NAN, f64::NAN),
        (f64::NAN, 0.0),
    ];
    for (a, b) in midpoint_pairs {
        assert_eq!(b64(a).is_near(b64(b)), (a - b).abs() <= 1e-9, "{a} {b}");
    }
    // Differences on both sides of the rounding midpoint above 1e-9.
    let mut d = billionth;
    for _ in 0..8 {
        for base in [0.0, 1e-12, 2.5e-9, 1e-3, 1.0] {
            let x = base + d;
            assert_eq!(b64(x).is_near(b64(base)), (x - base).abs() <= 1e-9, "{x} {base}");
            assert_eq!(b64(base).is_near(b64(x)), (base - x).abs() <= 1e-9, "{base} {x}");
        }
        d = next_up(d);
    }
    // The exact midpoint between 1e-9 and the next number up rounds up, as 1e-9 is odd.
    let unit = 2f64.powi(-83);
    let half_low = ((matter::ieee::NEAR_BOUND_64 - 1) / 2) as f64 * unit;
    let half_high = ((matter::ieee::NEAR_BOUND_64 + 1) / 2) as f64 * unit;
    assert!((half_low + half_high).abs() > 1e-9);
    assert!(!b64(half_low).is_near(b64(-half_high)));
    assert!(!b64(-half_high).is_near(b64(half_low)));
    let below = -(half_high - unit);
    assert!((half_low - below).abs() <= 1e-9);
    assert!(b64(half_low).is_near(b64(below)));
}

#[test]
fn tolerance_agrees_with_binary64_on_a_sweep() {
    let mut state: u64 = 0x9E37_79B9_7F4A_7C15;
    for _ in 0..20000 {
        state ^= state << 13;
        state ^= state >> 7;
        state ^= state << 17;
        let a = f64::from_bits((state % 0x3F00_0000_0000_0000).wrapping_add(0x3D00_0000_0000_0000) & !0x8000_0000_0000_0000);
        let offset = f64::from_bits(0x3E00_0000_0000_0000 + (state >> 40));
        let b = if state & 1 == 0 { a + offset } else { -a + offset };
        assert_eq!(b64(a).is_near(b64(b)), (a - b).abs() <= 1e-9, "{a} {b}");
        let small = f64::from_bits(0x3D00_0000_0000_0000 + (state >> 12) % 0x0200_0000_0000_0000);
        let near = f64::from_bits(matter::ieee::ONE_BILLIONTH_64 - 8 + (state >> 60));
        for (x, y) in [(small, small + near), (small + near, small), (small, near - small), (-small, near - small)] {
            assert_eq!(b64(x).is_near(b64(y)), (x - y).abs() <= 1e-9, "{x} {y}");
        }
    }
}
