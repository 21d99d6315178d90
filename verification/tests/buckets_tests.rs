use vise::Buckets;

/// One unit in fixed-point bucket values.
const ONE: i128 = 1_000_000_000;

#[test]
fn linear_buckets() {
    let buckets = Buckets::linear(0, 10 * ONE, ONE);
    assert_eq!(
        buckets.values,
        [0, ONE, 2 * ONE, 3 * ONE, 4 * ONE, 5 * ONE, 6 * ONE, 7 * ONE, 8 * ONE, 9 * ONE, 10
            * ONE]
    );
}

#[test]
fn exponential_buckets() {
    let buckets = Buckets::exponential(ONE, 10 * ONE, 2 * ONE);
    assert_eq!(buckets.values, [ONE, 2 * ONE, 4 * ONE, 8 * ONE]);
}

#[test]
fn scaled_buckets() {
    let buckets = Buckets::scaled(ONE, 100 * ONE, &vec![2 * ONE, 5 * ONE, 10 * ONE]);
    assert_eq!(
        buckets.values,
        [ONE, 2 * ONE, 5 * ONE, 10 * ONE, 20 * ONE, 50 * ONE, 100 * ONE]
    );
}

#[test]
fn scaled_buckets_with_one_factor_degenerate_to_exponential() {
    let scaled = Buckets::scaled(ONE, 10 * ONE, &vec![2 * ONE]);
    let exponential = Buckets::exponential(ONE, 10 * ONE, 2 * ONE);
    assert_eq!(scaled.values, exponential.values);
}

#[test]
fn mirroring_buckets() {
    let buckets = Buckets::values(vec![1, 2, 4, 8]);
    let mirrored = buckets.mirror();
    assert_eq!(mirrored.values, [-8, -4, -2, -1, 1, 2, 4, 8]);
}

#[test]
fn biasing_after_mirroring_shifts_every_element() {
    let buckets = Buckets::values(vec![1, 2, 4, 8]);
    let shifted = buckets.mirror().bias(10);
    assert_eq!(shifted.values, [2, 6, 8, 9, 11, 12, 14, 18]);
}

#[test]
fn mirroring_keeps_a_zero_boundary_once() {
    let buckets = Buckets::values(vec![0, 1, 2]);
    let mirrored = buckets.mirror();
    assert_eq!(mirrored.values, [-2, -1, 0, 1, 2]);
}

#[test]
fn explicit_buckets_must_increase() {
    assert!(Buckets::try_values(vec![]).is_none());
    assert!(Buckets::try_values(vec![1, 1]).is_none());
    assert!(Buckets::try_values(vec![2, 1]).is_none());
    assert!(Buckets::try_values(vec![1, 2, 3]).is_some());
}

#[test]
fn default_latency_buckets_are_increasing() {
    let buckets = Buckets::latencies();
    for pair in buckets.values.windows(2) {
        assert!(pair[0] < pair[1]);
    }
    let buckets = Buckets::zero_to_one();
    for pair in buckets.values.windows(2) {
        assert!(pair[0] < pair[1]);
    }
}
