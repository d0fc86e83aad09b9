//! Threads of Windows executables and their scheduler.

pub mod thread;
pub mod scheduler;

pub mod loader;
