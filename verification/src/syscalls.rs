//! System call decoding: which kernel service a call asks for, with which
//! arguments, and the packing of results into the return register.
use vstd::prelude::*;
use crate::fs::vfs_ops::{bytes_before_nul, nul_prefix_len};

verus! {

/// The system calls, by number.
#[derive(Clone, Copy, PartialEq, Eq, Structural, Debug)]
pub enum Syscall {
    Exit,
    Write,
    Read,
    Spawn,
    Yield,
    Fork,
    Wait,
    Exec,
    IpcSend,
    IpcRecv,
    ShmCreate,
    ShmMap,
    FramebufferMap,
    MachOExec,
}

/// The number of a system call.
pub open spec fn syscall_number(s: Syscall) -> usize {
    match s {
        Syscall::Exit => 0,
        Syscall::Write => 1,
        Syscall::Read => 2,
        Syscall::Spawn => 3,
        Syscall::Yield => 4,
        Syscall::Fork => 5,
        Syscall::Wait => 6,
        Syscall::Exec => 7,
        Syscall::IpcSend => 8,
        Syscall::IpcRecv => 9,
        Syscall::ShmCreate => 10,
        Syscall::ShmMap => 11,
        Syscall::FramebufferMap => 12,
        Syscall::MachOExec => 0x700,
    }
}

impl Syscall {
    /// The call's number.
    pub fn number(&self) -> (n: usize)
        ensures
            n == syscall_number(*self),
    {
        match self {
            Syscall::Exit => 0,
            Syscall::Write => 1,
            Syscall::Read => 2,
            Syscall::Spawn => 3,
            Syscall::Yield => 4,
            Syscall::Fork => 5,
            Syscall::Wait => 6,
            Syscall::Exec => 7,
            Syscall::IpcSend => 8,
            Syscall::IpcRecv => 9,
            Syscall::ShmCreate => 10,
            Syscall::ShmMap => 11,
            Syscall::FramebufferMap => 12,
            Syscall::MachOExec => 0x700,
        }
    }

    /// The call with number `n`, if there is one.
    pub fn from_number(n: usize) -> (s: Option<Syscall>)
        ensures
            s matches Some(c) ==> syscall_number(c) == n,
            s is None ==> forall|c: Syscall| syscall_number(c) != n,
    {
        match n {
            0 => Some(Syscall::Exit),
            1 => Some(Syscall::Write),
            2 => Some(Syscall::Read),
            3 => Some(Syscall::Spawn),
            4 => Some(Syscall::Yield),
            5 => Some(Syscall::Fork),
            6 => Some(Syscall::Wait),
            7 => Some(Syscall::Exec),
            8 => Some(Syscall::IpcSend),
            9 => Some(Syscall::IpcRecv),
            10 => Some(Syscall::ShmCreate),
            11 => Some(Syscall::ShmMap),
            12 => Some(Syscall::FramebufferMap),
            0x700 => Some(Syscall::MachOExec),
            _ => None,
        }
    }
}

/// A decoded system call: the service asked for and its arguments.
#[derive(Clone, Copy, PartialEq, Eq, Structural, Debug)]
pub enum SyscallRequest {
    /// Terminate the calling task with `code`.
    Exit { code: i32 },
    /// Write `count` bytes at `buf` to `fd`.
    Write { fd: usize, buf: usize, count: usize },
    /// Read up to `count` bytes from `fd` into `buf`.
    Read { fd: usize, buf: usize, count: usize },
    /// Start a user task at `entry`.
    Spawn { entry: usize },
    /// Give the CPU to the next task.
    Yield,
    /// Duplicate the calling process.
    Fork,
    /// Wait for child `pid`.
    Wait { pid: isize },
    /// Replace the calling process by the ELF image of `elf_size` bytes at
    /// `elf_data`.
    Exec { elf_data: usize, elf_size: usize },
    /// Send an IPC message (not implemented).
    IpcSend,
    /// Receive an IPC message (not implemented).
    IpcRecv,
    /// Create a shared memory region of `size` bytes.
    ShmCreate { size: usize },
    /// Map shared memory region `id`.
    ShmMap { id: usize },
    /// Copy the framebuffer description to `info_ptr`, or, when it is 0,
    /// return the framebuffer's physical address.
    FramebufferMap { info_ptr: usize },
    /// Run the Mach-O image of `len` bytes at `data`.
    MachOExec { data: usize, len: usize },
    /// No call has this number.
    Unknown { number: usize },
}

/// The request that call `n` with arguments `a1`, `a2` makes.
pub open spec fn request_of(n: usize, a1: usize, a2: usize, a3: usize) -> SyscallRequest {
    if n == 0 {
        SyscallRequest::Exit { code: a1 as i32 }
    } else if n == 1 {
        SyscallRequest::Write { fd: a1, buf: a2, count: a3 }
    } else if n == 2 {
        SyscallRequest::Read { fd: a1, buf: a2, count: a3 }
    } else if n == 3 {
        SyscallRequest::Spawn { entry: a1 }
    } else if n == 4 {
        SyscallRequest::Yield
    } else if n == 5 {
        SyscallRequest::Fork
    } else if n == 6 {
        SyscallRequest::Wait { pid: a1 as isize }
    } else if n == 7 {
        SyscallRequest::Exec { elf_data: a1, elf_size: a2 }
    } else if n == 8 {
        SyscallRequest::IpcSend
    } else if n == 9 {
        SyscallRequest::IpcRecv
    } else if n == 10 {
        SyscallRequest::ShmCreate { size: a1 }
    } else if n == 11 {
        SyscallRequest::ShmMap { id: a1 }
    } else if n == 12 {
        SyscallRequest::FramebufferMap { info_ptr: a1 }
    } else if n == 0x700 {
        SyscallRequest::MachOExec { data: a1, len: a2 }
    } else {
        SyscallRequest::Unknown { number: n }
    }
}

/// Decide which service system call `n` with arguments `a1`..`a6` asks
/// for.
pub fn dispatch(n: usize, a1: usize, a2: usize, a3: usize, _a4: usize, _a5: usize, _a6: usize) -> (r: SyscallRequest)
    ensures
        r == request_of(n, a1, a2, a3),
{
    match n {
        0 => SyscallRequest::Exit { code: a1 as i32 },
        1 => SyscallRequest::Write { fd: a1, buf: a2, count: a3 },
        2 => SyscallRequest::Read { fd: a1, buf: a2, count: a3 },
        3 => SyscallRequest::Spawn { entry: a1 },
        4 => SyscallRequest::Yield,
        5 => SyscallRequest::Fork,
        6 => SyscallRequest::Wait { pid: a1 as isize },
        7 => SyscallRequest::Exec { elf_data: a1, elf_size: a2 },
        8 => SyscallRequest::IpcSend,
        9 => SyscallRequest::IpcRecv,
        10 => SyscallRequest::ShmCreate { size: a1 },
        11 => SyscallRequest::ShmMap { id: a1 },
        12 => SyscallRequest::FramebufferMap { info_ptr: a1 },
        0x700 => SyscallRequest::MachOExec { data: a1, len: a2 },
        _ => SyscallRequest::Unknown { number: n },
    }
}

/// [`dispatch`] for the three-argument entry path (the other arguments
/// are 0).
pub fn dispatch_3(n: usize, a1: usize, a2: usize, a3: usize) -> (r: SyscallRequest)
    ensures
        r == request_of(n, a1, a2, a3),
{
    dispatch(n, a1, a2, a3, 0, 0, 0)
}

/// Bytes the `write` call sends to the console from `data` (the `count`
/// bytes at the user buffer) on descriptor `fd`, which is also its result:
/// standard output and error get the bytes before the first zero byte;
/// other descriptors are not supported and get nothing.
pub fn write_len(fd: usize, data: &[u8]) -> (n: usize)
    ensures
        n == if data@.len() > 0 && (fd == 1 || fd == 2) {
            nul_prefix_len(data@) as usize
        } else {
            0
        },
{
    if data.len() == 0 {
        return 0;
    }
    if fd == 1 || fd == 2 {
        bytes_before_nul(data)
    } else {
        0
    }
}

/// The return register of `wait` (64 bits on the kernel's targets): the
/// child's id in the high 32 bits, its exit status in the low 32 bits.
pub open spec fn packed_wait(pid: isize, status: i32) -> usize {
    ((((pid as u64) << 32u64) | ((status as u64) & 0xFFFF_FFFFu64)) as u64) as usize
}

/// Pack the result of `wait` (see [`packed_wait`]).
pub fn pack_wait_result(pid: isize, status: i32) -> (r: usize)
    ensures
        r == packed_wait(pid, status),
{
    let packed: u64 = ((pid as u64) << 32) | (status as u64 & 0xFFFFFFFF);
    packed as usize
}

/// The call a decoded request asks for; `None` for an unknown number.
pub open spec fn request_call(r: SyscallRequest) -> Option<Syscall> {
    match r {
        SyscallRequest::Exit { .. } => Some(Syscall::Exit),
        SyscallRequest::Write { .. } => Some(Syscall::Write),
        SyscallRequest::Read { .. } => Some(Syscall::Read),
        SyscallRequest::Spawn { .. } => Some(Syscall::Spawn),
        SyscallRequest::Yield => Some(Syscall::Yield),
        SyscallRequest::Fork => Some(Syscall::Fork),
        SyscallRequest::Wait { .. } => Some(Syscall::Wait),
        SyscallRequest::Exec { .. } => Some(Syscall::Exec),
        SyscallRequest::IpcSend => Some(Syscall::IpcSend),
        SyscallRequest::IpcRecv => Some(Syscall::IpcRecv),
        SyscallRequest::ShmCreate { .. } => Some(Syscall::ShmCreate),
        SyscallRequest::ShmMap { .. } => Some(Syscall::ShmMap),
        SyscallRequest::FramebufferMap { .. } => Some(Syscall::FramebufferMap),
        SyscallRequest::MachOExec { .. } => Some(Syscall::MachOExec),
        SyscallRequest::Unknown { .. } => None,
    }
}

/// Decoding agrees with the numbering of the calls: the number of a call
/// is decoded as that call, whatever the arguments, and a number that no
/// call has is decoded as unknown, carrying the number.
pub proof fn lemma_dispatch_follows_numbering(n: usize, a1: usize, a2: usize, a3: usize)
    ensures
        forall|c: Syscall| syscall_number(c) == n ==> request_call(request_of(n, a1, a2, a3)) == Some(c),
        (forall|c: Syscall| syscall_number(c) != n) ==> request_of(n, a1, a2, a3) == (SyscallRequest::Unknown {
            number: n,
        }),
{
    if forall|c: Syscall| syscall_number(c) != n {
        assert(n != 0 && n != 1 && n != 2 && n != 3 && n != 4 && n != 5 && n != 6) by {
            assert(syscall_number(Syscall::Exit) != n);
            assert(syscall_number(Syscall::Write) != n);
            assert(syscall_number(Syscall::Read) != n);
            assert(syscall_number(Syscall::Spawn) != n);
            assert(syscall_number(Syscall::Yield) != n);
            assert(syscall_number(Syscall::Fork) != n);
            assert(syscall_number(Syscall::Wait) != n);
        }
        assert(n != 7 && n != 8 && n != 9 && n != 10 && n != 11 && n != 12 && n != 0x700) by {
            assert(syscall_number(Syscall::Exec) != n);
            assert(syscall_number(Syscall::IpcSend) != n);
            assert(syscall_number(Syscall::IpcRecv) != n);
            assert(syscall_number(Syscall::ShmCreate) != n);
            assert(syscall_number(Syscall::ShmMap) != n);
            assert(syscall_number(Syscall::FramebufferMap) != n);
            assert(syscall_number(Syscall::MachOExec) != n);
        }
    }
}

/// `read` and `write` take their arguments in the same order: the
/// descriptor, then the buffer's address, then the byte count, from the
/// first, second and third argument registers; the others are ignored.
pub proof fn lemma_read_write_argument_order(a1: usize, a2: usize, a3: usize)
    ensures
        request_of(1, a1, a2, a3) matches SyscallRequest::Write { fd, buf, count } && fd == a1 && buf
            == a2 && count == a3,
        request_of(2, a1, a2, a3) matches SyscallRequest::Read { fd, buf, count } && fd == a1 && buf
            == a2 && count == a3,
{
}

/// Different system calls have different numbers, so
/// [`Syscall::from_number`] of a call's number gives that call back.
pub proof fn lemma_syscall_numbers_distinct(a: Syscall, b: Syscall)
    ensures
        syscall_number(a) == syscall_number(b) ==> a == b,
{
}

} // verus!
