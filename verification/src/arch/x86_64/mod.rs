//! x86_64 support.

pub mod context_switch;
pub mod gdt;
pub mod interrupts;
