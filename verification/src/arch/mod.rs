//! Architecture-specific pieces: stack setup for new threads, segment
//! selectors and the x86_64 keyboard interrupt buffer.

pub mod aarch64;
pub mod x86_64;
