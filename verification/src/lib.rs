//! A cooperative task executor for bare-metal targets and the tick-based
//! time types its tasks sleep on.
//!
//! Everything here is sequential logic over plain values: tick arithmetic,
//! the life cycle of task slots, the run queue, the timer decisions. The
//! parts that need a clock, an interrupt or a future to poll are left to the
//! caller, who hands their results in as arguments.

pub mod math;
pub mod macros;
pub mod duration;
pub mod run_queue;
pub mod executor;
pub mod instant;
pub mod timer;
pub mod arch;
pub mod driver;

pub use driver::frequency;
pub use duration::Duration;
pub use executor::{Executor, SpawnError, TaskRef};
pub use instant::Instant;
pub use timer::{with_deadline, with_timeout, Ticker, TimeoutError, Timer, WithTimeout};
