use duration_fmt::decomposed::{decomposed_from_seconds, DecomposedTime, Decompose, RawDuration};
use duration_fmt::fmt::{format_decomposed, format_duration, make_format, DurationFormat,
    FormatError};

fn hours(x: f64) -> f64 {
    x * 3600.0
}

fn seconds(x: f64) -> f64 {
    x
}

fn microseconds(x: f64) -> f64 {
    x / 1.0e6
}

/// Split a fractional second into base-1000 fields by stepwise truncation,
/// then fold them into one nanosecond count.
fn frac_nanos(frac: f64) -> u32 {
    let mut rem = frac;
    let ms = (rem * 1000.0).trunc();
    rem -= ms / 1000.0;
    let us = (rem * 1.0e6).trunc();
    rem -= us / 1.0e6;
    let ns = (rem * 1.0e9).trunc();
    (ms as u32) * 1_000_000 + (us as u32) * 1_000 + (ns as u32)
}

fn raw_f64(secs: f64) -> RawDuration {
    let negative = secs < 0.0;
    let whole = secs.trunc().abs() as u64;
    RawDuration::new(negative, whole, frac_nanos(secs.fract().abs()))
}

fn decompose_f64(secs: f64) -> DecomposedTime {
    let negative = secs < 0.0;
    let whole = secs.trunc().abs() as u64;
    decomposed_from_seconds(negative, whole, frac_nanos(secs.fract().abs()))
}

#[test]
fn test_format() {
    assert_eq!(
        format_duration("%H hours", raw_f64(hours(2.0))).unwrap(),
        "02 hours"
    );
    assert_eq!(format_duration("%H:%M", raw_f64(hours(2.5))).unwrap(), "02:30");
    assert_eq!(
        format_duration("%S.%x'%y'%z", raw_f64(seconds(2.5) + microseconds(100.0))).unwrap(),
        "02.500'100'000"
    );
}

#[test]
fn test_unknown_field_rejected() {
    assert_eq!(
        format_duration("%Q", raw_f64(1.0)),
        Err(FormatError::UnknownField)
    );
}

#[test]
fn test_trailing_delimiter_rejected() {
    assert_eq!(
        format_duration("abc%", raw_f64(1.0)),
        Err(FormatError::UnexpectedFieldDelimiter)
    );
}

#[test]
fn test_every_selector_accepted() {
    let t = decompose_f64(seconds(90.5));
    let all = "%Y %D %H %h %M %m %S %s %x %y %z %f %F %T %U %%";
    assert!(format_decomposed(all, &t).is_ok());
}

#[test]
fn test_percent_escape() {
    let t = decompose_f64(seconds(0.0));
    assert_eq!(format_decomposed("50%% done", &t).unwrap(), "50% done");
}

#[test]
fn test_unpadded_selectors() {
    let t = decompose_f64(hours(2.5) + seconds(7.0));
    assert_eq!(format_decomposed("%h:%m:%s", &t).unwrap(), "2:30:7");
}

#[test]
fn test_fraction_selectors() {
    let t = decompose_f64(seconds(0.5));
    assert_eq!(format_decomposed("%f", &t).unwrap(), "0.5");
    assert_eq!(format_decomposed("%F", &t).unwrap(), "0.50000");
    let zero = decompose_f64(0.0);
    assert_eq!(format_decomposed("%f", &zero).unwrap(), "0");
    assert_eq!(format_decomposed("%F", &zero).unwrap(), "0.00000");
}

#[test]
fn test_total_folds() {
    let t = decompose_f64(hours(2.5)).with_years(2).with_days(182);
    assert_eq!(format_decomposed("%T", &t).unwrap(), "21890");
    assert_eq!(format_decomposed("%U", &t).unwrap(), "912");
    assert_eq!(t.total_hours(), Some(2 * 8760 + 182 * 24 + 2));
    assert_eq!(t.total_days(), Some(2 * 365 + 182));
}

#[test]
fn test_total_fold_overflow() {
    let t = DecomposedTime::default().with_years(u64::MAX);
    assert_eq!(t.total_hours(), None);
    assert_eq!(format_decomposed("%T", &t), Err(FormatError::ValueOutOfRange));
    assert_eq!(format_decomposed("%U", &t), Err(FormatError::ValueOutOfRange));
}

#[test]
fn test_render_is_repeatable() {
    let t = decompose_f64(seconds(90.0) + microseconds(500.0));
    let fmt = DurationFormat::new("%m:%S.%x'%y", t).unwrap();
    let first = fmt.format().unwrap();
    let second = fmt.format().unwrap();
    assert_eq!(first, second);
    assert_eq!(first, "1:30.000'500");
}

#[test]
fn test_format_accessors() {
    let t = decompose_f64(seconds(5.0));
    let fmt = DurationFormat::new("%S", t).unwrap();
    assert_eq!(fmt.format_string(), "%S");
    assert_eq!(fmt.time(), &t);
}

#[test]
fn test_make_format_validates() {
    assert!(make_format("%H:%M:%S", raw_f64(1.5)).is_ok());
    assert_eq!(
        make_format("%H:%W", raw_f64(1.5)).unwrap_err(),
        FormatError::UnknownField
    );
}

struct Undecomposable;

impl Decompose for Undecomposable {
    type Error = ();

    fn decompose(self) -> Result<DecomposedTime, ()> {
        Err(())
    }
}

#[test]
fn test_decompose_error_reported() {
    assert_eq!(
        format_duration("%S", Undecomposable),
        Err(FormatError::DecomposeError)
    );
}

#[test]
fn test_empty_template() {
    let t = decompose_f64(1.0);
    assert_eq!(format_decomposed("", &t).unwrap(), "");
}

#[test]
fn test_literal_passthrough() {
    let t = decompose_f64(62.0);
    assert_eq!(format_decomposed("élapsé: %m:%S", &t).unwrap(), "élapsé: 1:02");
}

#[test]
fn test_zero_renders_as_zero_digits() {
    let t = decompose_f64(0.0);
    assert_eq!(format_decomposed("%Y %D %h %m %s", &t).unwrap(), "0 0 0 0 0");
    assert_eq!(format_decomposed("%H:%M:%S.%x'%y'%z", &t).unwrap(), "00:00:00.000'000'000");
    assert_eq!(t.display_string(), "00:00");
}

#[test]
fn test_zero_decomposes_to_zero() {
    let t = decompose_f64(0.0);
    assert_eq!(t, DecomposedTime::zero());
    assert!(t.is_positive());
    assert!(!t.is_negative());
    assert_eq!(t.signum(), 1);
    assert_eq!(t.years(), 0);
    assert_eq!(t.days(), 0);
    assert_eq!(t.hours(), 0);
    assert_eq!(t.minutes(), 0);
    assert_eq!(t.seconds(), 0);
    assert_eq!(t.milliseconds(), 0);
    assert_eq!(t.microseconds(), 0);
    assert_eq!(t.nanoseconds(), 0);
    assert_eq!(t.fractional_nanoseconds(), 0);
}

#[test]
fn test_sign_preserved() {
    assert_eq!(decompose_f64(seconds(-90.5)).signum(), -1);
    assert!(decompose_f64(seconds(-90.5)).is_negative());
    assert_eq!(decompose_f64(seconds(90.5)).signum(), 1);
    assert_eq!(decompose_f64(-0.0).signum(), 1);
}

#[test]
fn test_round_trip_seconds() {
    let t = decomposed_from_seconds(false, 78840000, 123456789);
    let rebuilt = t.years() * 31536000
        + (t.days() as u64) * 86400
        + (t.hours() as u64) * 3600
        + (t.minutes() as u64) * 60
        + t.seconds() as u64;
    assert_eq!(rebuilt, 78840000);
    assert_eq!(t.fractional_nanoseconds(), 123456789);
    assert_eq!(t.milliseconds(), 123);
    assert_eq!(t.microseconds(), 456);
    assert_eq!(t.nanoseconds(), 789);
}

#[test]
fn test_new_splits_fraction() {
    let t = DecomposedTime::new(1, 2, 3, 4, 5, 987654321, true);
    assert_eq!(t.years(), 1);
    assert_eq!(t.days(), 2);
    assert_eq!(t.hours(), 3);
    assert_eq!(t.minutes(), 4);
    assert_eq!(t.seconds(), 5);
    assert_eq!(t.milliseconds(), 987);
    assert_eq!(t.microseconds(), 654);
    assert_eq!(t.nanoseconds(), 321);
    assert!(t.is_positive());
    assert_eq!(DecomposedTime::new(0, 0, 0, 0, 0, 0, false).signum(), 0);
}
