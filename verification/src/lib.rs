//! A cron-style job scheduler: the decisions of adding, removing and ticking
//! jobs, and of how long to wait for the next one, with their proofs.
pub mod clock;
pub mod job;
pub mod laws;
pub mod scheduler;

pub use clock::{instant_since_epoch, read_clock, shortest_wait, ClockError, Delay, Instant};
pub use job::{Job, JobType};
pub use scheduler::{FireOrder, JobScheduler, TICK_INTERVAL_MILLIS};
