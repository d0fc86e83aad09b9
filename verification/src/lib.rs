//! Verified core of the VibeOS kernel: timekeeping, pipes, file descriptor
//! tables, schedulers, input decoding, packet and executable parsing.

pub mod arch;
pub mod boot_screen;
pub mod common;
pub mod drivers;
pub mod input;
pub mod time;
pub mod fs;
pub mod scheduler;
pub mod win32;
pub mod net;
pub mod ipc;
pub mod syscalls;
pub mod userland;
pub mod least;
pub mod libc;
