//! A cooperative, single-stream scheduler for user-space threads.
//!
//! The crate holds the scheduling state machine: a fixed pool of execution
//! units, their lifecycle, round-robin selection and stack priming. The
//! register switch itself is machine code and is left to the embedding
//! program, which performs it whenever the pool's current index changes.

pub mod state;
pub mod context;
pub mod thread;
pub mod model;
pub mod error;
pub mod runtime;
pub mod laws;

pub use state::State;
pub use context::ThreadContext;
pub use thread::{Thread, ThreadView, DEFAULT_STACK_SIZE};
pub use model::RuntimeView;
pub use error::SpawnError;
pub use runtime::{guard, yield_thread, Runtime, MAX_THREADS};
