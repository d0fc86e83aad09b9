//! Types shared between the boot loader, the kernel and user space.
use vstd::prelude::*;

verus! {

/// What a region of physical memory is used for.
#[derive(Clone, Copy, PartialEq, Eq, Structural, Debug)]
pub enum MemoryRegionKind {
    Usable,
    Reserved,
    Bootloader,
    Kernel,
}

/// A region of physical memory reported by the boot loader.
#[derive(Clone, Copy, PartialEq, Eq, Structural, Debug)]
pub struct MemoryRegion {
    pub base: u64,
    pub length: u64,
    pub kind: MemoryRegionKind,
}

/// Geometry and location of the linear framebuffer.
#[derive(Clone, Copy, PartialEq, Eq, Structural, Debug)]
pub struct FramebufferInfo {
    pub addr: u64,
    pub width: u32,
    pub height: u32,
    pub pitch: u32,
    pub bpp: u8,
}

/// What the boot loader hands the kernel; the memory map and the
/// framebuffer description are given by their addresses.
#[derive(Clone, Copy, PartialEq, Eq, Structural, Debug)]
pub struct BootInfo {
    pub memory_map_ptr: u64,
    pub memory_map_len: usize,
    pub framebuffer: u64,
    pub rsdp: u64,
    pub device_tree: u64,
}

/// POSIX-style file status, as returned by `fstat`.
#[derive(Clone, Copy, PartialEq, Eq, Structural, Debug)]
pub struct Stat {
    pub st_dev: u64,
    pub st_ino: u64,
    pub st_mode: u32,
    pub st_nlink: u32,
    pub st_uid: u32,
    pub st_gid: u32,
    pub st_rdev: u64,
    pub st_size: u64,
    pub st_blksize: u32,
    pub st_blocks: u64,
    pub st_atime: u64,
    pub st_mtime: u64,
    pub st_ctime: u64,
}

/// The status every `fstat` answer starts from: one link, 4096-byte blocks,
/// every other field zero.
pub open spec fn default_stat() -> Stat {
    Stat {
        st_dev: 0,
        st_ino: 0,
        st_mode: 0,
        st_nlink: 1,
        st_uid: 0,
        st_gid: 0,
        st_rdev: 0,
        st_size: 0,
        st_blksize: 4096,
        st_blocks: 0,
        st_atime: 0,
        st_mtime: 0,
        st_ctime: 0,
    }
}

impl Default for Stat {
    fn default() -> (s: Self)
        ensures
            s == default_stat(),
    {
        Stat {
            st_dev: 0,
            st_ino: 0,
            st_mode: 0,
            st_nlink: 1,
            st_uid: 0,
            st_gid: 0,
            st_rdev: 0,
            st_size: 0,
            st_blksize: 4096,
            st_blocks: 0,
            st_atime: 0,
            st_mtime: 0,
            st_ctime: 0,
        }
    }
}

} // verus!
