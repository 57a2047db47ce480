//! Core of a small preemptive round-robin kernel for Cortex-M0 class parts:
//! a fixed-capacity task registry, the round-robin scheduling policy, the
//! decision half of the context switch, and the interrupt-mask and semaphore
//! primitives that protect them.
//!
//! Everything here is plain state and arithmetic; the register-level glue
//! (masking interrupts, pending the switch interrupt, the exception-return
//! sequence itself) lives with the platform code that drives this crate.
pub mod frame;
pub mod kernel;
pub mod registry;
pub mod sched;
pub mod sync;
pub mod task;
