use loro_time_travel::stats::{Ratio, StatsAggregator, MAX_SAMPLE_MS};

#[test]
fn empty_aggregator_reports_nothing() {
    let s = StatsAggregator::new();
    assert_eq!(s.count(), 0);
    assert_eq!(s.last(), None);
    assert_eq!(s.min(), None);
    assert_eq!(s.max(), None);
    assert_eq!(s.mean(), None);
    assert_eq!(s.sample_variance(), Ratio { num: 0, den: 1 });
    assert_eq!(s.error_squared(), Ratio { num: 0, den: 1 });
}

#[test]
fn single_sample_variance_is_zero_sentinel() {
    let mut s = StatsAggregator::new();
    assert!(s.try_sample(42));
    assert_eq!(s.count(), 1);
    assert_eq!(s.last(), Some(42));
    assert_eq!(s.min(), Some(42));
    assert_eq!(s.max(), Some(42));
    assert_eq!(s.mean(), Some(Ratio { num: 42, den: 1 }));
    assert_eq!(s.sample_variance(), Ratio { num: 0, den: 1 });
    assert_eq!(s.error_squared(), Ratio { num: 0, den: 1 });
}

#[test]
fn four_samples_scenario() {
    let mut s = StatsAggregator::new();
    for v in [5u64, 1, 9, 3] {
        assert!(s.try_sample(v));
    }
    assert_eq!(s.count(), 4);
    assert_eq!(s.last(), Some(3));
    assert_eq!(s.min(), Some(1));
    assert_eq!(s.max(), Some(9));

    // mean == 18 / 4 == 4.5, exactly
    let mean = s.mean().unwrap();
    assert_eq!(mean.num * 2, mean.den * 9);
    assert!((mean.num as f64 / mean.den as f64 - 4.5).abs() < 1e-12);

    // Bessel-corrected sample variance of {5, 1, 9, 3} with denominator 3:
    // deviations from 4.5 are 0.5, -3.5, 4.5, -1.5, squares sum to 35,
    // so the variance is exactly 35 / 3.
    let var = s.sample_variance();
    assert_eq!(var.num, 4 * (25 + 1 + 81 + 9) - 18 * 18);
    assert_eq!(var.den, 4 * 3);
    assert_eq!(var.num * 3, 35 * var.den);
    assert!((var.num as f64 / var.den as f64 - 35.0 / 3.0).abs() < 1e-12);

    // squared standard error == variance / n == 35 / 12
    let err2 = s.error_squared();
    assert_eq!(err2.num, var.num);
    assert_eq!(err2.den, 4 * 4 * 3);
    assert!((err2.num as f64 / err2.den as f64 - 35.0 / 12.0).abs() < 1e-12);

    // standard deviation, as presentation would derive it
    let sd = (var.num as f64 / var.den as f64).sqrt();
    assert!((sd - (35.0f64 / 3.0).sqrt()).abs() < 1e-12);
}

#[test]
fn two_samples_exact_variance() {
    let mut s = StatsAggregator::new();
    assert!(s.try_sample(2));
    assert!(s.try_sample(4));
    // mean 3, deviations 1 and 1, variance 2 / 1 == 2
    let var = s.sample_variance();
    assert_eq!(var.num, 2 * 20 - 36);
    assert_eq!(var.den, 2);
    assert!((var.num as f64 / var.den as f64 - 2.0).abs() < 1e-12);
}

#[test]
fn oversized_sample_is_rejected_unchanged() {
    let mut s = StatsAggregator::new();
    assert!(s.try_sample(7));
    assert!(!s.try_sample(MAX_SAMPLE_MS + 1));
    assert_eq!(s.count(), 1);
    assert_eq!(s.last(), Some(7));
    assert_eq!(s.min(), Some(7));
    assert_eq!(s.max(), Some(7));
}

#[test]
fn min_max_move_only_toward_new_samples() {
    let mut s = StatsAggregator::new();
    assert!(s.try_sample(10));
    assert!(s.try_sample(20));
    assert_eq!(s.min(), Some(10));
    assert_eq!(s.max(), Some(20));
    assert!(s.try_sample(15));
    // a sample inside the current bounds changes neither bound
    assert_eq!(s.min(), Some(10));
    assert_eq!(s.max(), Some(20));
    assert!(s.try_sample(5));
    assert_eq!(s.min(), Some(5));
    assert_eq!(s.max(), Some(20));
}
