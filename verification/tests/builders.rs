use duration_fmt::decomposed::{decomposed_from_seconds, DecomposedTime};

fn years(x: f64) -> f64 {
    x * 31536000.0
}

fn days(x: f64) -> f64 {
    x * 86400.0
}

fn minutes(x: f64) -> f64 {
    x * 60.0
}

fn seconds(x: f64) -> f64 {
    x
}

/// Split a fractional second into base-1000 fields by stepwise truncation,
/// then fold them into one nanosecond count.
fn frac_nanos(frac: f64) -> u32 {
    let mut rem = frac;
    let ms = (rem * 1000.0).trunc();
    rem -= ms / 1000.0;
    let us = (rem * 1.0e6).trunc();
    rem -= us / 1.0e6;
    let ns = (rem * 1.0e9).trunc();
    (ms as u32) * 1_000_000 + (us as u32) * 1_000 + (ns as u32)
}

fn decompose_f64(secs: f64) -> DecomposedTime {
    let negative = secs < 0.0;
    let whole = secs.trunc().abs() as u64;
    decomposed_from_seconds(negative, whole, frac_nanos(secs.fract().abs()))
}

#[test]
fn test_with_builders() {
    let time = DecomposedTime::default().with_years(5).with_days(10);
    assert_eq!(time, decompose_f64(years(5.0) + days(10.0)));

    assert_eq!(DecomposedTime::zero(), decompose_f64(0.0));
    assert_eq!(
        DecomposedTime::default().with_days(10).with_minutes(30),
        decompose_f64(days(10.0) + minutes(30.0))
    );
    assert_eq!(
        DecomposedTime::default()
            .with_seconds(30)
            .with_fractional_nanoseconds(frac_nanos(0.5)),
        decompose_f64(seconds(30.5))
    );

    assert_eq!(
        DecomposedTime::default()
            .with_fractional_nanoseconds(frac_nanos(0.2))
            .milliseconds(),
        200
    );
    assert_eq!(
        DecomposedTime::default()
            .with_fractional_nanoseconds(frac_nanos(0.00005))
            .microseconds(),
        50
    );
    assert_eq!(
        DecomposedTime::default()
            .with_fractional_nanoseconds(frac_nanos(0.00000005))
            .nanoseconds(),
        50
    );
}
