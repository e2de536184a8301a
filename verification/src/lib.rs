//! Sampling of page-allocation events from a kernel trace stream.
//!
//! Lines of the trace are classified as successful, failed or unparsable
//! allocations and counted per recording window, while an external boost
//! control is switched on and off from one window to the next. Each window
//! that ends is written to a file of its own.
//!
//! The library decides and computes; it neither reads the trace nor writes
//! files, sleeps or starts anything. The two state machines, [`task`] and
//! [`supervisor`], tell their owner what to do next and take what happened as
//! events.

pub mod boost;
pub mod bytes;
pub mod classify;
pub mod clock;
pub mod config;
pub mod decimal;
pub mod hex;
pub mod persist;
pub mod recording;
pub mod supervisor;
pub mod task;
pub mod text;
