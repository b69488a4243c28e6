//! Reference implementations of a small set of algorithms: order-preserving
//! deduplication, Fibonacci numbers, even-value sums, non-zero byte counts,
//! whitespace-insensitive normalisation and a shared increment counter.
pub mod algo;
pub mod counter;
pub mod reduce;
pub mod text;

pub use counter::read_after_sleep;
pub use reduce::{leak_buffer, positive_sum_and_count, sum_even};
pub use text::normalize;
