//! Double-buffered command-buffer handoff between a recording thread and a
//! presenting caller.
//!
//! The protocol itself (a fixed pool of two entries circulating through two
//! FIFO queues, the roles that hold them, and shutdown by closing a side) is
//! modelled and verified in [`pool`], together with the loop driver's decision
//! to stop. [`latch`] is the run-once cleanup guard behind a presented frame,
//! and [`clock`] measures the time between the driver's iterations.

pub mod clock;
pub mod latch;
pub mod pool;

pub use clock::{delta_nanos, NANOS_PER_SEC};
pub use latch::CleanupLatch;
pub use pool::{Phase, Pipeline, PipelineModel, Received, POOL_SIZE};
