//! Splits a duration into years, days, hours, minutes, seconds and their
//! sub-second remainders, and renders the result as text such as
//! `1y 17d 5h 10m 48s` or `1 year 17 days 5 hours 10 minutes 48 seconds`.
use vstd::prelude::*;

pub mod formatter;
pub mod laws;
pub mod splitter;

pub use formatter::MillisecondPart;
pub use splitter::Millisecond;

verus! {

} // verus!
