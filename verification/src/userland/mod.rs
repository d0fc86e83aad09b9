//! User programs: loading ELF executables.

pub mod loader;
