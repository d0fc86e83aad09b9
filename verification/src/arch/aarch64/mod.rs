//! AArch64 support.

pub mod context_switch;
