//! Break a signed duration, given as whole seconds plus a sub-second
//! remainder in nanoseconds, into years, days, hours, minutes, seconds and
//! base-1000 sub-second fields, and render that breakdown through a small
//! percent-escaped template language.

pub mod decomposed;
pub mod fmt;
pub mod text;
