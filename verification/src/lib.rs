//! A priority-aware cooperative task executor: the scheduler's data
//! structures and the sleep/wake protocol of its tickers, with their
//! behaviour stated in contracts.

pub mod active;
pub mod queue;
pub mod runnable;
pub mod settings;
pub mod sleepers;
pub mod state;
pub mod ticker;
pub mod waker;
