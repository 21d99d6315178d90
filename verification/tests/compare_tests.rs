use std::cmp;

use rand::{rngs::StdRng, Rng, SeedableRng};
use vise::compare_f64_bits;

fn compare_f64(lhs: f64, rhs: f64) -> Option<cmp::Ordering> {
    compare_f64_bits(lhs.to_bits(), rhs.to_bits())
}

#[test]
#[allow(clippy::float_cmp)]
fn compare_f64_corner_cases() {
    assert_eq!(compare_f64(0.0, 0.0), Some(cmp::Ordering::Equal));
    assert_eq!(compare_f64(0.0, -0.0), Some(cmp::Ordering::Equal));
    assert_eq!(compare_f64(-0.0, -0.0), Some(cmp::Ordering::Equal));

    assert_eq!(compare_f64(0.0, f64::NAN), None);
    assert_eq!(compare_f64(1.0, f64::NAN), None);
    assert_eq!(compare_f64(f64::INFINITY, f64::NAN), None);
    assert_eq!(compare_f64(-f64::INFINITY, f64::NAN), None);

    assert_eq!(compare_f64(f64::INFINITY, 0.0), Some(cmp::Ordering::Greater));
    assert_eq!(compare_f64(-f64::INFINITY, 0.0), Some(cmp::Ordering::Less));
    assert_eq!(compare_f64(f64::INFINITY, -0.0), Some(cmp::Ordering::Greater));
    assert_eq!(compare_f64(-f64::INFINITY, -0.0), Some(cmp::Ordering::Less));

    assert_eq!(
        compare_f64(f64::INFINITY, -f64::INFINITY),
        Some(cmp::Ordering::Greater)
    );
    assert_eq!(
        compare_f64(-f64::INFINITY, f64::INFINITY),
        Some(cmp::Ordering::Less)
    );

    assert_eq!(f64::INFINITY, f64::INFINITY);
    assert_eq!(
        compare_f64(f64::INFINITY, f64::INFINITY),
        Some(cmp::Ordering::Equal)
    );
    assert_eq!(-f64::INFINITY, -f64::INFINITY);
    assert_eq!(
        compare_f64(-f64::INFINITY, -f64::INFINITY),
        Some(cmp::Ordering::Equal)
    );
}

#[test]
fn compare_f64_mini_fuzz() {
    const SEED: u64 = 123;

    let mut rng = StdRng::seed_from_u64(SEED);
    for _ in 0..100_000 {
        let lhs: f64 = rng.gen();
        let rhs: f64 = rng.gen();
        if lhs.is_subnormal() || rhs.is_subnormal() {
            continue;
        }

        assert_eq!(
            lhs.partial_cmp(&rhs),
            compare_f64(lhs, rhs),
            "Mismatch when comparing {lhs} and {rhs}"
        );
    }

    for _ in 0..100_000 {
        let lhs: f64 = rng.gen_range(-1.0..=1.0);
        let rhs: f64 = rng.gen_range(-1.0..=1.0);

        assert_eq!(
            lhs.partial_cmp(&rhs),
            compare_f64(lhs, rhs),
            "Mismatch when comparing {lhs} and {rhs}"
        );
    }
}

#[test]
fn subnormals_are_unordered() {
    let subnormal = f64::from_bits(1);
    assert!(subnormal.is_subnormal());
    assert_eq!(compare_f64(subnormal, 1.0), None);
    assert_eq!(compare_f64(1.0, subnormal), None);
}
