//! Task dispatch for a fixed pool of workers: a wraparound ticket counter,
//! a monitor-style blocking queue, and the selection rules of the
//! round-robin and work-stealing strategies built on top of them.

pub mod atomic_counter;
pub mod channel;
pub mod handler;
pub mod pool;
pub mod multi_queue_multi_thread;
pub mod queue;
pub mod sqmt;
pub mod sqst;
pub mod sync;
pub mod task_queue;
pub mod work_stealing;
pub mod worker;
