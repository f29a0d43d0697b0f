//! A status-line engine: a time-ordered job queue that decides when each
//! metric provider runs next, and an output coalescer that decides when the
//! combined line is printed.
//!
//! Time is a monotonic clock in whole milliseconds since an arbitrary origin.

pub mod module;
pub mod schedule;
pub mod printer;
pub mod driver;
pub mod text;
pub mod units;
pub mod memory;
pub mod cpu;
pub mod time;
pub mod registry;
