//! Progress snapshots for iteration.
//!
//! A [`ProgressRecorderIter`] wraps any iterator and hands out, with every
//! element, a [`ProgressRecord`]: how many elements have come so far, how long
//! the iteration has been running, and what the source says is left. From a
//! record one reads the rate, the fraction done where the whole is known, a
//! one-line message, and whether a caller who reports every `n` elements
//! should report now.
//!
//! Everything is counted and measured in integers. A rate or a fraction is a
//! [`Ratio`] of two integers, and elapsed time an [`Elapsed`] count of
//! nanoseconds between two [`Timestamp`]s, so that each result is stated
//! exactly.
//!
//! The adapter reads the wall clock when it is made and at every element.
//! [`ProgressRecorderIter::with_start`] and [`ProgressRecorderIter::next_at`]
//! take the readings from the caller instead.

pub mod clock;
pub mod record;
pub mod recorder;
pub mod text;

pub use clock::{Elapsed, Timestamp};
pub use record::{ProgressRecord, Ratio};
pub use recorder::{ProgressRecorderIter, ProgressableIter};
