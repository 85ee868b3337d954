use duration_fmt::decomposed::{decomposed_from_seconds, DecomposedTime};

fn years(x: f64) -> f64 {
    x * 31536000.0
}

fn days(x: f64) -> f64 {
    x * 86400.0
}

fn minutes(x: f64) -> f64 {
    x * 60.0
}

fn seconds(x: f64) -> f64 {
    x
}

fn milliseconds(x: f64) -> f64 {
    x / 1.0e3
}

fn microseconds(x: f64) -> f64 {
    x / 1.0e6
}

fn nanoseconds(x: f64) -> f64 {
    x / 1.0e9
}

/// Split a fractional second into base-1000 fields by stepwise truncation,
/// then fold them into one nanosecond count.
fn frac_nanos(frac: f64) -> u32 {
    let mut rem = frac;
    let ms = (rem * 1000.0).trunc();
    rem -= ms / 1000.0;
    let us = (rem * 1.0e6).trunc();
    rem -= us / 1.0e6;
    let ns = (rem * 1.0e9).trunc();
    (ms as u32) * 1_000_000 + (us as u32) * 1_000 + (ns as u32)
}

fn decompose_f64(secs: f64) -> DecomposedTime {
    let negative = secs < 0.0;
    let whole = secs.trunc().abs() as u64;
    decomposed_from_seconds(negative, whole, frac_nanos(secs.fract().abs()))
}

#[test]
fn decomposed_test_display() {
    assert_eq!(decompose_f64(years(2.5)).display_string(), "2yr 182d 12:00:00");
    assert_eq!(decompose_f64(years(1.0)).display_string(), "1yr 00:00:00");
    assert_eq!(decompose_f64(days(2.0)).display_string(), "2d 00:00:00");
    assert_eq!(decompose_f64(minutes(10.0)).display_string(), "10:00");
    assert_eq!(decompose_f64(microseconds(50.0)).display_string(), "00:00.000'050");
    assert_eq!(decompose_f64(seconds(12.5)).display_string(), "00:12.500");
    assert_eq!(decompose_f64(milliseconds(100.0)).display_string(), "00:00.100");
    assert_eq!(decompose_f64(nanoseconds(10.0)).display_string(), "00:00.000'000'010");

    assert_eq!(
        decompose_f64(days(10.0) + minutes(20.0) + seconds(2.0)).display_string(),
        "10d 00:20:02"
    );
    assert_eq!(
        decompose_f64(seconds(30.5) + nanoseconds(100.0)).display_string(),
        "00:30.500'000'100"
    );
    assert_eq!(
        decompose_f64(seconds(90.0) + microseconds(500.0)).display_string(),
        "01:30.000'500"
    );
}

#[test]
fn fmt_test_display() {
    assert_eq!(decompose_f64(years(2.5)).display_string(), "2yr 182d 12:00:00");
    assert_eq!(decompose_f64(years(1.0)).display_string(), "1yr 00:00:00");
    assert_eq!(decompose_f64(days(2.0)).display_string(), "2d 00:00:00");
    assert_eq!(decompose_f64(minutes(10.0)).display_string(), "10:00");
    assert_eq!(decompose_f64(microseconds(50.0)).display_string(), "00:00.000'050");
    assert_eq!(decompose_f64(seconds(12.5)).display_string(), "00:12.500");
    assert_eq!(decompose_f64(milliseconds(100.0)).display_string(), "00:00.100");
    assert_eq!(decompose_f64(nanoseconds(10.0)).display_string(), "00:00.000'000'010");

    assert_eq!(
        decompose_f64(days(10.0) + minutes(20.0) + seconds(2.0)).display_string(),
        "10d 00:20:02"
    );
    assert_eq!(
        decompose_f64(seconds(30.5) + nanoseconds(100.0)).display_string(),
        "00:30.500'000'100"
    );
    assert_eq!(
        decompose_f64(seconds(90.0) + microseconds(500.0)).display_string(),
        "01:30.000'500"
    );
}
