//! x86_64 segment selectors.
use vstd::prelude::*;

verus! {

/// The selectors the GDT is loaded with, each as its 16-bit value.
#[derive(Clone, Copy, PartialEq, Eq, Structural, Debug)]
pub struct Selectors {
    pub kernel_code: u16,
    pub kernel_data: u16,
    pub user_code: u16,
    pub user_data: u16,
    pub tss: u16,
}

} // verus!
