//! File system layer: pipes and per-process file descriptor tables.
use vstd::prelude::*;

pub mod pipe;
pub mod vfs_ops;

verus! {

/// What the file descriptor layer keeps of a file opened through the VFS:
/// its inode number and its size in bytes.
#[derive(Clone, Copy, PartialEq, Eq, Structural, Debug)]
pub struct FileHandle {
    pub ino: u32,
    pub size: u32,
}

} // verus!
