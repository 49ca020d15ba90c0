//! Bookkeeping and decoding core of an application runtime that runs a loaded
//! program image as kernel-scheduled tasks.
//!
//! Everything here works on plain values: addresses are integers, application
//! memory arrives as byte slices, and whatever has to touch hardware, the
//! scheduler or the console is described as a value for the caller to act on.

pub mod console;
pub mod ids;
pub mod lifecycle;
pub mod registry;
pub mod stack;
pub mod thread;
pub mod trampoline;
pub mod workload;
