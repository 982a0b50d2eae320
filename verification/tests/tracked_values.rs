use ieee754::Ieee754;
use shaman::{two_sum, Shaman};

const PI: f64 = std::f64::consts::PI;

fn track(f: f64) -> Shaman<u64> {
    Shaman::from_bits(f.to_bits())
}

fn val(s: &Shaman<u64>) -> f64 {
    f64::from_bits(s.value)
}

fn err(s: &Shaman<u64>) -> f64 {
    f64::from_bits(s.error)
}

/// Tracked sine: the evaluation of sine and of the derivative's magnitude is
/// native floating point; the error propagation runs in the library.
fn sin_tracked(s: Shaman<u64>) -> Shaman<u64> {
    let v = f64::from_bits(s.value);
    s.apply_unop(v.sin().to_bits(), v.cos().abs().to_bits())
}

#[test]
fn it_works() {
    let s = Shaman {
        value: PI.to_bits(),
        error: (0.1f64).to_bits(),
    };
    let out = sin_tracked(s);
    assert!((val(&out) - 0.0).abs() < 1e-12);
    assert!(err(&out) >= 0.0);
    assert!(err(&out).is_finite());
}

#[test]
fn conversion_seeds_one_ulp() {
    let c = track(1.0);
    assert_eq!(val(&c), 1.0);
    assert_eq!(err(&c), f64::EPSILON);
    let samples = [
        0.1,
        0.2,
        1.0,
        -1.0,
        1.5e8,
        -3.25e-7,
        1e308,
        5e-324,
        1e-310,
        123456.789f64,
    ];
    for v in samples {
        let c = track(v);
        assert_eq!(err(&c), v.ulp().unwrap());
        assert_eq!(val(&c), v);
    }
}

#[test]
fn conversion_zero_inf_nan() {
    for v in [0.0, -0.0, f64::INFINITY, f64::NEG_INFINITY, f64::NAN] {
        let c = track(v);
        assert_eq!(c.error, 0u64);
        assert_eq!(err(&c), 0.0);
    }
}

#[test]
fn addition_value_commutes() {
    let pairs = [(0.1, 0.2), (1.0, 1e-16), (-2.5, 3.75), (1e30, -1e13)];
    for (x, y) in pairs {
        let a = track(x);
        let b = track(y);
        let ab = a.add(b);
        let ba = b.add(a);
        assert_eq!(val(&ab), x + y);
        assert_eq!(ab.value, ba.value);
    }
}

#[test]
fn addition_error_monotone() {
    let pairs = [
        (0.1, 0.2),
        (1.0, 1e-16),
        (-2.5, 3.75),
        (1e300, 1e300),
        (5e-324, -5e-324),
    ];
    for (x, y) in pairs {
        let a = track(x);
        let b = track(y);
        let c = a.add(b);
        assert!(err(&c) >= err(&a));
        assert!(err(&c) >= err(&b));
    }
}

#[test]
fn two_sum_recovers_rounding_error() {
    let x = 1.0f64;
    let y = 1e-16f64;
    let xy = x + y;
    let ts = f64::from_bits(two_sum(x.to_bits(), y.to_bits(), xy.to_bits()));
    let x_ = xy - y;
    let y_ = xy - x;
    let expected = (x - x_).abs() + (y - y_).abs();
    assert_eq!(ts, expected);
    // The rounded sum is exactly 1.0, so the whole low part y was discarded;
    // the recovered error must cover it.
    assert_eq!(xy, 1.0);
    assert!(ts >= 1e-16);
}

#[test]
fn end_to_end_tenth_plus_fifth() {
    let a = track(0.1);
    let b = track(0.2);
    let c = a.add(b);
    assert_eq!(val(&c), 0.1 + 0.2);
    assert_eq!(val(&c), 0.30000000000000004);
    assert!(err(&c) > err(&a));
    assert!(err(&c) > err(&b));
}

#[test]
fn transcendental_error_matches_kernel_formula() {
    let s = Shaman {
        value: PI.to_bits(),
        error: (0.1f64).to_bits(),
    };
    let out = sin_tracked(s);
    let expected = (PI.cos().abs() * 0.1 + PI.sin().ulp().unwrap()).abs();
    assert_eq!(err(&out), expected);

    // Cosine is the same single definition, fed its own derivative.
    let v: f64 = 0.5;
    let c = Shaman {
        value: v.to_bits(),
        error: (1e-10f64).to_bits(),
    };
    let outc = c.apply_unop(v.cos().to_bits(), v.sin().abs().to_bits());
    assert_eq!(val(&outc), v.cos());
    let expc = (v.sin().abs() * 1e-10 + v.cos().ulp().unwrap()).abs();
    assert_eq!(err(&outc), expc);
}
