//! A clock that reads the current instant as two decimal fractions: the
//! position within the year and the position within the day.
//!
//! The crate holds the sampling engine only. It works on exact integers:
//! every reading is a ratio of nanosecond counts, and the number of digits
//! worth showing follows from the length of the year and of the day.

pub mod calendar;
pub mod clock;
pub mod decimal;
pub mod duration;
pub mod fraction;
pub mod laws;
pub mod precision;

pub use calendar::Instant;
pub use duration::Duration;
pub use fraction::Fraction;
