//! Per-process file descriptor tables and the file-related system calls.
use vstd::prelude::*;
use crate::least::{least_index, lemma_least_index, lemma_least_index_is};
use crate::fs::FileHandle;
use crate::fs::pipe::{PipeTable, PipeView, pipe_create, min_nat, accepted_by_write, contents_after_write};
use crate::common::{Stat, default_stat};
use vstd::utf8::valid_utf8;
use vstd::string::StringSliceAdditionalSpecFns;

verus! {

/// Number of descriptor slots in every process's table.
pub const MAX_FDS: usize = 128;

/// Open flags.
pub const O_RDONLY: u32 = 0;
pub const O_WRONLY: u32 = 1;
pub const O_RDWR: u32 = 2;
pub const O_CREAT: u32 = 0x40;
pub const O_TRUNC: u32 = 0x200;
pub const O_APPEND: u32 = 0x400;

/// `whence` values of `seek`.
pub const SEEK_SET: u32 = 0;
pub const SEEK_CUR: u32 = 1;
pub const SEEK_END: u32 = 2;

/// What a file descriptor refers to.
#[derive(Clone, Copy, PartialEq, Eq, Structural, Debug)]
pub enum FdKind {
    /// Standard input (fd 0).
    Stdin,
    /// Standard output (fd 1).
    Stdout,
    /// Standard error (fd 2).
    Stderr,
    /// A file opened through the VFS.
    Vfs(FileHandle),
    /// The read end of the pipe with this id.
    PipeRead(usize),
    /// The write end of the pipe with this id.
    PipeWrite(usize),
}

/// An open file descriptor.
#[derive(Clone, Copy, PartialEq, Eq, Structural, Debug)]
pub struct FileDescriptor {
    pub kind: FdKind,
    pub offset: u64,
    pub flags: u32,
}

/// A process's descriptor table: `MAX_FDS` slots, each empty or open.
pub struct ProcessFdTable {
    fds: Vec<Option<FileDescriptor>>,
}

/// Whether slot `i` of `slots` is free.
pub open spec fn is_free(slots: Seq<Option<FileDescriptor>>) -> spec_fn(int) -> bool {
    |i: int| slots[i] is None
}

/// The lowest free slot at or above 3 (0, 1 and 2 are kept for standard
/// I/O), if any.
pub open spec fn lowest_free_slot(slots: Seq<Option<FileDescriptor>>) -> Option<int> {
    least_index(is_free(slots), 3, slots.len() as int)
}

/// The descriptor that standard input, output and error start with.
pub open spec fn stdio_descriptor(fd: int) -> FileDescriptor {
    if fd == 0 {
        FileDescriptor { kind: FdKind::Stdin, offset: 0, flags: O_RDONLY }
    } else if fd == 1 {
        FileDescriptor { kind: FdKind::Stdout, offset: 0, flags: O_WRONLY }
    } else {
        FileDescriptor { kind: FdKind::Stderr, offset: 0, flags: O_WRONLY }
    }
}

impl ProcessFdTable {
    /// Well-formedness: the table has exactly `MAX_FDS` slots.
    pub closed spec fn wf(&self) -> bool {
        self.fds@.len() == MAX_FDS
    }

    /// The table's slots, indexed by descriptor number.
    pub closed spec fn slots(&self) -> Seq<Option<FileDescriptor>> {
        self.fds@
    }

    /// A table with every slot empty.
    pub fn new() -> (t: Self)
        ensures
            t.wf(),
            t.slots() == Seq::new(MAX_FDS as nat, |i: int| None::<FileDescriptor>),
    {
        let mut fds: Vec<Option<FileDescriptor>> = Vec::new();
        let mut i: usize = 0;
        while i < MAX_FDS
            invariant
                i <= MAX_FDS,
                fds@ == Seq::new(i as nat, |k: int| None::<FileDescriptor>),
            decreases MAX_FDS - i,
        {
            fds.push(None);
            i += 1;
            assert(fds@ =~= Seq::new(i as nat, |k: int| None::<FileDescriptor>));
        }
        ProcessFdTable { fds }
    }

    /// A well-formed table has exactly `MAX_FDS` slots.
    pub proof fn lemma_slot_count(&self)
        requires
            self.wf(),
        ensures
            self.slots().len() == MAX_FDS,
    {
    }

    /// A table with standard input, output and error open in slots 0, 1, 2
    /// and every other slot empty.
    pub fn new_with_stdio() -> (t: Self)
        ensures
            t.wf(),
            t.slots() == Seq::new(
                MAX_FDS as nat,
                |i: int| if i < 3 { Some(stdio_descriptor(i)) } else { None },
            ),
    {
        let mut table = Self::new();
        table.insert_at(0, FileDescriptor { kind: FdKind::Stdin, offset: 0, flags: O_RDONLY });
        table.insert_at(1, FileDescriptor { kind: FdKind::Stdout, offset: 0, flags: O_WRONLY });
        table.insert_at(2, FileDescriptor { kind: FdKind::Stderr, offset: 0, flags: O_WRONLY });
        assert(table.slots() =~= Seq::new(
            MAX_FDS as nat,
            |i: int| if i < 3 { Some(stdio_descriptor(i)) } else { None },
        ));
        table
    }

    /// The lowest free slot at or above 3, if any.
    fn alloc_fd(&self) -> (fd: Option<usize>)
        requires
            self.wf(),
        ensures
            fd matches Some(i) ==> lowest_free_slot(self.slots()) == Some(i as int) && 3 <= i < MAX_FDS
                && self.slots()[i as int] is None,
            fd is None ==> lowest_free_slot(self.slots()) is None,
    {
        let mut i: usize = 3;
        while i < MAX_FDS
            invariant
                3 <= i <= MAX_FDS,
                self.fds@.len() == MAX_FDS,
                forall|j: int| 3 <= j < i ==> self.fds@[j] is Some,
            decreases MAX_FDS - i,
        {
            if self.fds[i].is_none() {
                proof {
                    lemma_least_index_is(is_free(self.fds@), 3, MAX_FDS as int, i as int);
                }
                return Some(i);
            }
            i += 1;
        }
        proof {
            lemma_least_index(is_free(self.fds@), 3, MAX_FDS as int);
        }
        None
    }

    /// The descriptor open at `fd`, if `fd` is in range and open.
    pub fn get(&self, fd: usize) -> (d: Option<&FileDescriptor>)
        requires
            self.wf(),
        ensures
            fd < MAX_FDS ==> d == match self.slots()[fd as int] {
                Some(x) => Some(&x),
                None => None,
            },
            fd >= MAX_FDS ==> d is None,
    {
        if fd < MAX_FDS {
            self.fds[fd].as_ref()
        } else {
            None
        }
    }

    /// Mutable access to the descriptor open at `fd`, if `fd` is in range and
    /// open; whatever the caller leaves there stays in the table.
    pub fn get_mut(&mut self, fd: usize) -> (d: Option<&mut FileDescriptor>)
        requires
            old(self).wf(),
        ensures
            fd < MAX_FDS && old(self).slots()[fd as int] is Some ==> {
                &&& d is Some
                &&& *d.unwrap() == old(self).slots()[fd as int].unwrap()
                &&& final(self).slots() == old(self).slots().update(
                    fd as int,
                    Some(*final(d.unwrap())),
                )
            },
            final(self).wf(),
            !(fd < MAX_FDS && old(self).slots()[fd as int] is Some) ==> d is None
                && final(self).slots() == old(self).slots(),
    {
        if fd < MAX_FDS {
            self.fds[fd].as_mut()
        } else {
            None
        }
    }

    /// Open `desc` in the lowest free slot at or above 3, returning that
    /// slot, or `None` (table unchanged) when every such slot is taken.
    pub fn insert(&mut self, desc: FileDescriptor) -> (fd: Option<usize>)
        requires
            old(self).wf(),
        ensures
            final(self).wf(),
            fd matches Some(i) ==> lowest_free_slot(old(self).slots()) == Some(i as int)
                && 3 <= i < MAX_FDS && old(self).slots()[i as int] is None
                && final(self).slots() == old(self).slots().update(i as int, Some(desc)),
            fd is None ==> lowest_free_slot(old(self).slots()) is None
                && final(self).slots() == old(self).slots(),
    {
        let fd = self.alloc_fd()?;
        self.insert_at(fd, desc);
        Some(fd)
    }

    /// Open `desc` at slot `fd`, replacing whatever was there; false (table
    /// unchanged) when `fd` is out of range.
    pub fn insert_at(&mut self, fd: usize, desc: FileDescriptor) -> (ok: bool)
        requires
            old(self).wf(),
        ensures
            final(self).wf(),
            ok == (fd < MAX_FDS),
            ok ==> final(self).slots() == old(self).slots().update(fd as int, Some(desc)),
            !ok ==> final(self).slots() == old(self).slots(),
    {
        if fd < MAX_FDS {
            self.fds.set(fd, Some(desc));
            true
        } else {
            false
        }
    }

    /// Close slot `fd`, returning what was open there (`None` when `fd` is
    /// out of range or already empty).
    pub fn remove(&mut self, fd: usize) -> (d: Option<FileDescriptor>)
        requires
            old(self).wf(),
        ensures
            final(self).wf(),
            fd < MAX_FDS ==> d == old(self).slots()[fd as int]
                && final(self).slots() == old(self).slots().update(fd as int, None),
            fd >= MAX_FDS ==> d is None && final(self).slots() == old(self).slots(),
    {
        if fd < MAX_FDS {
            let d = self.fds[fd];
            self.fds.set(fd, None);
            d
        } else {
            None
        }
    }
}

/// The slots of each process's table, keyed by process id, in the order the
/// tables were created.
pub type FdTablesView = Seq<(usize, Seq<Option<FileDescriptor>>)>;

/// Whether table `i` of `v` belongs to `pid`.
pub open spec fn owned_by(v: FdTablesView, pid: usize) -> spec_fn(int) -> bool {
    |i: int| v[i].0 == pid
}

/// Index of the first table that belongs to `pid`, if any.
pub open spec fn table_of(v: FdTablesView, pid: usize) -> Option<int> {
    least_index(owned_by(v, pid), 0, v.len() as int)
}

/// The registry of per-process descriptor tables.
pub struct FdTables {
    tables: Vec<(usize, ProcessFdTable)>,
}

impl View for FdTables {
    type V = FdTablesView;

    closed spec fn view(&self) -> FdTablesView {
        Seq::new(self.tables@.len(), |i: int| (self.tables@[i].0, self.tables@[i].1.slots()))
    }
}

impl FdTables {
    /// Well-formedness: every table in the registry is well formed.
    pub closed spec fn wf(&self) -> bool {
        forall|i: int| 0 <= i < self.tables@.len() ==> #[trigger] self.tables@[i].1.wf()
    }

    /// Every table of a well-formed registry has `MAX_FDS` slots.
    pub proof fn lemma_slot_counts(&self)
        requires
            self.wf(),
        ensures
            forall|i: int| 0 <= i < self@.len() ==> #[trigger] self@[i].1.len() == MAX_FDS,
    {
        assert forall|i: int| 0 <= i < self@.len() implies #[trigger] self@[i].1.len() == MAX_FDS by {
            assert(self.tables@[i].1.wf());
        }
    }

    /// An empty registry.
    pub fn new() -> (t: Self)
        ensures
            t.wf(),
            t@ == FdTablesView::empty(),
    {
        let t = FdTables { tables: Vec::new() };
        assert(t@ =~= FdTablesView::empty());
        t
    }

    /// Index of the first table that belongs to `pid`.
    fn find(&self, pid: usize) -> (i: Option<usize>)
        ensures
            i matches Some(k) ==> table_of(self@, pid) == Some(k as int) && k < self@.len(),
            i is None ==> table_of(self@, pid) is None,
    {
        let mut k: usize = 0;
        while k < self.tables.len()
            invariant
                k <= self.tables@.len(),
                forall|j: int| 0 <= j < k ==> self@[j].0 != pid,
            decreases self.tables@.len() - k,
        {
            if self.tables[k].0 == pid {
                proof {
                    lemma_least_index_is(owned_by(self@, pid), 0, self@.len() as int, k as int);
                }
                return Some(k);
            }
            k += 1;
        }
        proof {
            lemma_least_index(owned_by(self@, pid), 0, self@.len() as int);
        }
        None
    }
}

/// Create a descriptor table, with standard I/O open, for a new process.
pub fn create_fd_table(tables: &mut FdTables, pid: usize)
    requires
        old(tables).wf(),
    ensures
        final(tables).wf(),
        final(tables)@ == old(tables)@.push(
            (
                pid,
                Seq::new(
                    MAX_FDS as nat,
                    |i: int| if i < 3 { Some(stdio_descriptor(i)) } else { None },
                ),
            ),
        ),
{
    tables.tables.push((pid, ProcessFdTable::new_with_stdio()));
    assert(tables@ =~= old(tables)@.push(
        (
            pid,
            Seq::new(
                MAX_FDS as nat,
                |i: int| if i < 3 { Some(stdio_descriptor(i)) } else { None },
            ),
        ),
    ));
}

/// Drop the first descriptor table of a process that exits; nothing changes
/// when it has none.
pub fn destroy_fd_table(tables: &mut FdTables, pid: usize)
    requires
        old(tables).wf(),
    ensures
        final(tables).wf(),
        match table_of(old(tables)@, pid) {
            Some(i) => final(tables)@ == old(tables)@.remove(i),
            None => final(tables)@ == old(tables)@,
        },
{
    if let Some(i) = tables.find(pid) {
        tables.tables.remove(i);
        assert(tables@ =~= old(tables)@.remove(i as int));
    }
}

impl FdTables {
    /// Copy of slot `fd` of table `i` (`None` when out of range or empty).
    fn slot(&self, i: usize, fd: usize) -> (d: Option<FileDescriptor>)
        requires
            self.wf(),
            i < self@.len(),
        ensures
            fd < MAX_FDS ==> d == self@[i as int].1[fd as int],
            fd >= MAX_FDS ==> d is None,
    {
        assert(self.tables@[i as int].1.wf());
        match self.tables[i].1.get(fd) {
            Some(d) => Some(*d),
            None => None,
        }
    }

    /// Set slot `fd` of table `i`.
    fn set_slot(&mut self, i: usize, fd: usize, v: Option<FileDescriptor>)
        requires
            old(self).wf(),
            i < old(self)@.len(),
            fd < MAX_FDS,
        ensures
            final(self).wf(),
            final(self)@ == old(self)@.update(
                i as int,
                (old(self)@[i as int].0, old(self)@[i as int].1.update(fd as int, v)),
            ),
    {
        assert(self.tables@[i as int].1.wf());
        match v {
            Some(d) => {
                self.tables[i].1.insert_at(fd, d);
            },
            None => {
                self.tables[i].1.remove(fd);
            },
        }
        assert(self@ =~= old(self)@.update(
            i as int,
            (old(self)@[i as int].0, old(self)@[i as int].1.update(fd as int, v)),
        ));
    }

    /// Open `desc` in the lowest free slot (at or above 3) of table `i`.
    fn insert_into(&mut self, i: usize, desc: FileDescriptor) -> (fd: Option<usize>)
        requires
            old(self).wf(),
            i < old(self)@.len(),
        ensures
            final(self).wf(),
            fd matches Some(k) ==> lowest_free_slot(old(self)@[i as int].1) == Some(k as int)
                && 3 <= k < MAX_FDS && old(self)@[i as int].1[k as int] is None
                && final(self)@ == old(self)@.update(
                i as int,
                (old(self)@[i as int].0, old(self)@[i as int].1.update(k as int, Some(desc))),
            ),
            fd is None ==> lowest_free_slot(old(self)@[i as int].1) is None && final(self)@ == old(
                self,
            )@,
    {
        assert(self.tables@[i as int].1.wf());
        let r = self.tables[i].1.insert(desc);
        match r {
            Some(k) => {
                assert(self@ =~= old(self)@.update(
                    i as int,
                    (old(self)@[i as int].0, old(self)@[i as int].1.update(k as int, Some(desc))),
                ));
            },
            None => {
                assert(self@ =~= old(self)@);
            },
        }
        r
    }
}

/// Descriptor `fd` of the first table of `pid`, if that table exists and
/// the slot is in range and open.
pub open spec fn open_descriptor(v: FdTablesView, pid: usize, fd: usize) -> Option<
    FileDescriptor,
> {
    match table_of(v, pid) {
        Some(i) => if fd < MAX_FDS && fd < v[i].1.len() {
            v[i].1[fd as int]
        } else {
            None
        },
        None => None,
    }
}

/// `v` with slot `fd` of table `i` set to `d`.
pub open spec fn with_slot(v: FdTablesView, i: int, fd: int, d: Option<FileDescriptor>) -> FdTablesView {
    v.update(i, (v[i].0, v[i].1.update(fd, d)))
}

/// Result and registry after `close(fd)` by process `pid`: standard I/O
/// (fd < 3) is never closed but reports success; closing an open slot
/// empties it; anything else fails with -1.
pub open spec fn close_effect(v: FdTablesView, pid: usize, fd: usize) -> (isize, FdTablesView) {
    match table_of(v, pid) {
        None => (-1isize, v),
        Some(i) => if fd < 3 {
            (0isize, v)
        } else if open_descriptor(v, pid, fd) is Some {
            (0isize, with_slot(v, i, fd as int, None))
        } else {
            (-1isize, v)
        },
    }
}

/// Close file descriptor `fd` of process `pid`.
pub fn sys_close(tables: &mut FdTables, pid: usize, fd: usize) -> (r: isize)
    requires
        old(tables).wf(),
    ensures
        final(tables).wf(),
        (r, final(tables)@) == close_effect(old(tables)@, pid, fd),
{
    proof { tables.lemma_slot_counts(); }
    let i = match tables.find(pid) {
        Some(i) => i,
        None => return -1,
    };
    if fd < 3 {
        return 0;
    }
    match tables.slot(i, fd) {
        Some(_) => {
            tables.set_slot(i, fd, None);
            0
        },
        None => -1,
    }
}

/// Result and registry after `dup(fd)` by process `pid`: a copy of the open
/// descriptor goes to the lowest free slot at or above 3, whose number is
/// returned; -1 when there is no table, `fd` is not open, or no slot is
/// free.
pub open spec fn dup_effect(v: FdTablesView, pid: usize, fd: usize) -> (isize, FdTablesView) {
    match (table_of(v, pid), open_descriptor(v, pid, fd)) {
        (Some(i), Some(d)) => match lowest_free_slot(v[i].1) {
            Some(k) => (k as isize, with_slot(v, i, k, Some(d))),
            None => (-1isize, v),
        },
        _ => (-1isize, v),
    }
}

/// Duplicate file descriptor `fd` of process `pid`.
pub fn sys_dup(tables: &mut FdTables, pid: usize, fd: usize) -> (r: isize)
    requires
        old(tables).wf(),
    ensures
        final(tables).wf(),
        (r, final(tables)@) == dup_effect(old(tables)@, pid, fd),
{
    proof { tables.lemma_slot_counts(); }
    let i = match tables.find(pid) {
        Some(i) => i,
        None => return -1,
    };
    match tables.slot(i, fd) {
        Some(desc) => match tables.insert_into(i, desc) {
            Some(new_fd) => new_fd as isize,
            None => -1,
        },
        None => -1,
    }
}

/// The offset a seek moves to, as a mathematical integer, from current
/// offset `cur` of a file of `size` bytes: `SEEK_SET` takes `offset` as an
/// unsigned value, `SEEK_CUR` moves by `offset` (stopping at 0 going back),
/// `SEEK_END` moves by the signed `offset` from the size (a target before
/// the start wraps around the 64-bit offsets, as the unsigned addition of
/// the offset does). `None` for any other `whence`.
pub open spec fn seek_target(cur: u64, size: u32, offset: i64, whence: u32) -> Option<int> {
    if whence == SEEK_SET {
        Some(offset as u64 as int)
    } else if whence == SEEK_CUR {
        if offset >= 0 {
            Some(cur + offset)
        } else if cur + offset >= 0 {
            Some(cur + offset)
        } else {
            Some(0)
        }
    } else if whence == SEEK_END {
        if size + offset >= 0 {
            Some(size + offset)
        } else {
            Some(size + offset + 0x1_0000_0000_0000_0000)
        }
    } else {
        None
    }
}

/// Whether `seek(fd, offset, whence)` by `pid` would overflow its arithmetic
/// (a `SEEK_CUR` target beyond `u64::MAX`, or `SEEK_CUR` back by
/// `i64::MIN`): the inputs on which the seek is not defined.
pub open spec fn seek_overflows(v: FdTablesView, pid: usize, fd: usize, offset: i64, whence: u32) -> bool {
    match open_descriptor(v, pid, fd) {
        Some(d) => match d.kind {
            FdKind::Vfs(h) => match seek_target(d.offset, h.size, offset, whence) {
                Some(t) => t > u64::MAX || (whence == SEEK_CUR && offset == i64::MIN),
                None => false,
            },
            _ => false,
        },
        None => false,
    }
}

/// Result and registry after `seek(fd, offset, whence)` by `pid`: only a
/// VFS file can seek; its offset becomes the target, which is returned
/// (as `isize`); -1 for anything else or an unknown `whence`.
pub open spec fn seek_effect(v: FdTablesView, pid: usize, fd: usize, offset: i64, whence: u32) -> (
    isize,
    FdTablesView,
) {
    match (table_of(v, pid), open_descriptor(v, pid, fd)) {
        (Some(i), Some(d)) => match d.kind {
            FdKind::Vfs(h) => match seek_target(d.offset, h.size, offset, whence) {
                Some(t) => (
                    t as u64 as isize,
                    with_slot(v, i, fd as int, Some(FileDescriptor { offset: t as u64, ..d })),
                ),
                None => (-1isize, v),
            },
            _ => (-1isize, v),
        },
        _ => (-1isize, v),
    }
}

/// Whether a seek would overflow (see [`seek_overflows`]); callers test this
/// before calling [`sys_seek`].
pub fn seek_would_overflow(tables: &FdTables, pid: usize, fd: usize, offset: i64, whence: u32) -> (b: bool)
    requires
        tables.wf(),
    ensures
        b == seek_overflows(tables@, pid, fd, offset, whence),
{
    proof { tables.lemma_slot_counts(); }
    let i = match tables.find(pid) {
        Some(i) => i,
        None => return false,
    };
    match tables.slot(i, fd) {
        Some(d) => match d.kind {
            FdKind::Vfs(h) => {
                if whence == SEEK_CUR {
                    if offset >= 0 {
                        d.offset > u64::MAX - (offset as u64)
                    } else {
                        offset == i64::MIN
                    }
                } else {
                    false
                }
            },
            _ => false,
        },
        None => false,
    }
}

/// Move the offset of file descriptor `fd` of process `pid`.
pub fn sys_seek(tables: &mut FdTables, pid: usize, fd: usize, offset: i64, whence: u32) -> (r: isize)
    requires
        old(tables).wf(),
        !seek_overflows(old(tables)@, pid, fd, offset, whence),
    ensures
        final(tables).wf(),
        (r, final(tables)@) == seek_effect(old(tables)@, pid, fd, offset, whence),
{
    proof { tables.lemma_slot_counts(); }
    let i = match tables.find(pid) {
        Some(i) => i,
        None => return -1,
    };
    match tables.slot(i, fd) {
        Some(desc) => match desc.kind {
            FdKind::Vfs(handle) => {
                let new_offset: u64 = if whence == SEEK_SET {
                    offset as u64
                } else if whence == SEEK_CUR {
                    if offset >= 0 {
                        desc.offset + offset as u64
                    } else {
                        desc.offset.saturating_sub((-offset) as u64)
                    }
                } else if whence == SEEK_END {
                    let size = handle.size as u64;
                    if offset >= 0 {
                        size + offset as u64
                    } else {
                        let back: u64 = (-(offset + 1)) as u64 + 1;
                        size.wrapping_sub(back)
                    }
                } else {
                    return -1;
                };
                tables.set_slot(i, fd, Some(FileDescriptor { offset: new_offset, ..desc }));
                new_offset as isize
            },
            _ => -1,
        },
        None => -1,
    }
}

/// Create a directory: not supported by the VFS, always -1.
pub fn sys_mkdir(_pid: usize, _path_ptr: usize, _path_len: usize, _mode: u32) -> (r: isize)
    ensures
        r == -1,
{
    -1
}

/// Delete a file: not supported by the VFS, always -1.
pub fn sys_unlink(_pid: usize, _path_ptr: usize, _path_len: usize) -> (r: isize)
    ensures
        r == -1,
{
    -1
}

/// `st_mode` of a character device.
pub const S_IFCHR: u32 = 0o20000;
/// `st_mode` of a regular file.
pub const S_IFREG: u32 = 0o100000;
/// `st_mode` of a pipe.
pub const S_IFIFO: u32 = 0o10000;

/// The status `fstat` reports for descriptor number `fd` of kind `kind`.
pub open spec fn stat_of(kind: FdKind, fd: usize) -> Stat {
    let s = default_stat();
    match kind {
        FdKind::Stdin => Stat { st_mode: S_IFCHR, st_ino: 0, ..s },
        FdKind::Stdout | FdKind::Stderr => Stat { st_mode: S_IFCHR, st_ino: fd as u64, ..s },
        FdKind::Vfs(h) => Stat {
            st_ino: h.ino as u64,
            st_size: h.size as u64,
            st_mode: S_IFREG,
            st_blocks: ((h.size + 511) / 512) as u64,
            ..s
        },
        FdKind::PipeRead(_) | FdKind::PipeWrite(_) => Stat { st_mode: S_IFIFO, ..s },
    }
}

/// The status of file descriptor `fd` of process `pid`, or `None` (the
/// call fails with -1) when it is not open.
pub fn sys_fstat(tables: &FdTables, pid: usize, fd: usize) -> (st: Option<Stat>)
    requires
        tables.wf(),
    ensures
        st == match open_descriptor(tables@, pid, fd) {
            Some(d) => Some(stat_of(d.kind, fd)),
            None => None,
        },
{
    proof { tables.lemma_slot_counts(); }
    let i = match tables.find(pid) {
        Some(i) => i,
        None => return None,
    };
    match tables.slot(i, fd) {
        Some(desc) => {
            let mut stat = Stat::default();
            match desc.kind {
                FdKind::Stdin => {
                    stat.st_mode = S_IFCHR;
                    stat.st_ino = 0;
                },
                FdKind::Stdout | FdKind::Stderr => {
                    stat.st_mode = S_IFCHR;
                    stat.st_ino = fd as u64;
                },
                FdKind::Vfs(handle) => {
                    stat.st_ino = handle.ino as u64;
                    stat.st_size = handle.size as u64;
                    stat.st_mode = S_IFREG;
                    stat.st_blocks = (handle.size as u64 + 511) / 512;
                },
                FdKind::PipeRead(_) | FdKind::PipeWrite(_) => {
                    stat.st_mode = S_IFIFO;
                },
            }
            Some(stat)
        },
        None => None,
    }
}

/// Whether byte `i` of `s` is zero.
pub open spec fn is_nul(s: Seq<u8>) -> spec_fn(int) -> bool {
    |i: int| s[i] == 0
}

/// Length of the part of `s` before its first zero byte (all of `s` when
/// it holds none).
pub open spec fn nul_prefix_len(s: Seq<u8>) -> int {
    match least_index(is_nul(s), 0, s.len() as int) {
        Some(i) => i,
        None => s.len() as int,
    }
}

/// Number of bytes of `data` before its first zero byte.
pub fn bytes_before_nul(data: &[u8]) -> (n: usize)
    ensures
        n == nul_prefix_len(data@),
        n <= data@.len(),
{
    let mut i: usize = 0;
    while i < data.len()
        invariant
            i <= data@.len(),
            forall|j: int| 0 <= j < i ==> data@[j] != 0,
        decreases data@.len() - i,
    {
        if data[i] == 0 {
            proof {
                lemma_least_index_is(is_nul(data@), 0, data@.len() as int, i as int);
            }
            return i;
        }
        i += 1;
    }
    proof {
        lemma_least_index(is_nul(data@), 0, data@.len() as int);
    }
    i
}

/// What `read` leaves to its caller once the library has done its part.
#[derive(Clone, Copy, PartialEq, Eq, Structural, Debug)]
pub enum ReadOutcome {
    /// Finished: this is the call's result.
    Done(isize),
    /// Fill the buffer from the keyboard.
    Stdin,
    /// Read the VFS file `handle` at `offset`, then report the byte count
    /// through [`complete_vfs_read`].
    Vfs { handle: FileHandle, offset: u32 },
}

/// Outcome, pipes and buffer after `read(fd)` by `pid` into `buf`.
pub open spec fn read_effect(v: FdTablesView, pipes: Seq<PipeView>, pid: usize, fd: usize, buf: Seq<u8>) -> (
    ReadOutcome,
    Seq<PipeView>,
    Seq<u8>,
) {
    if buf.len() == 0 {
        (ReadOutcome::Done(0isize), pipes, buf)
    } else {
        match table_of(v, pid) {
            None => if fd == 0 {
                (ReadOutcome::Stdin, pipes, buf)
            } else {
                (ReadOutcome::Done(-1isize), pipes, buf)
            },
            Some(_) => match open_descriptor(v, pid, fd) {
                None => (ReadOutcome::Done(-1isize), pipes, buf),
                Some(d) => match d.kind {
                    FdKind::Stdin => (ReadOutcome::Stdin, pipes, buf),
                    FdKind::Vfs(h) => (
                        ReadOutcome::Vfs { handle: h, offset: d.offset as u32 },
                        pipes,
                        buf,
                    ),
                    FdKind::PipeRead(id) => if id < pipes.len() {
                        let q = pipes[id as int].0;
                        let n = min_nat(buf.len(), q.len());
                        (
                            ReadOutcome::Done(n as isize),
                            pipes.update(id as int, (q.skip(n as int), pipes[id as int].1)),
                            q.take(n as int) + buf.skip(n as int),
                        )
                    } else {
                        (ReadOutcome::Done(-1isize), pipes, buf)
                    },
                    _ => (ReadOutcome::Done(-1isize), pipes, buf),
                },
            },
        }
    }
}

/// Read from file descriptor `fd` of process `pid` into `buf` (the user
/// buffer of `count` bytes): pipes are read here; keyboard and VFS reads
/// are handed back to the caller.
pub fn sys_read(tables: &FdTables, pipes: &mut PipeTable, pid: usize, fd: usize, buf: &mut [u8]) -> (o: ReadOutcome)
    requires
        tables.wf(),
    ensures
        (o, final(pipes)@, final(buf)@) == read_effect(tables@, old(pipes)@, pid, fd, old(buf)@),
{
    proof { tables.lemma_slot_counts(); }
    if buf.len() == 0 {
        return ReadOutcome::Done(0isize);
    }
    let i = match tables.find(pid) {
        Some(i) => i,
        None => {
            if fd == 0 {
                return ReadOutcome::Stdin;
            }
            return ReadOutcome::Done(-1isize);
        },
    };
    match tables.slot(i, fd) {
        Some(desc) => match desc.kind {
            FdKind::Stdin => ReadOutcome::Stdin,
            FdKind::Stdout | FdKind::Stderr => ReadOutcome::Done(-1isize),
            FdKind::Vfs(handle) => ReadOutcome::Vfs { handle, offset: desc.offset as u32 },
            FdKind::PipeRead(pipe_id) => {
                if pipe_id < pipes.len() {
                    let n = pipes.read(pipe_id, buf);
                    ReadOutcome::Done(n as isize)
                } else {
                    ReadOutcome::Done(-1isize)
                }
            },
            FdKind::PipeWrite(_) => ReadOutcome::Done(-1isize),
        },
        None => ReadOutcome::Done(-1isize),
    }
}

/// Whether advancing the offset of `fd` by `n` after a VFS read would pass
/// `u64::MAX`.
pub open spec fn vfs_read_overflows(v: FdTablesView, pid: usize, fd: usize, n: usize) -> bool {
    match open_descriptor(v, pid, fd) {
        Some(d) => d.kind is Vfs && d.offset + n > u64::MAX,
        None => false,
    }
}

/// Registry after a VFS read of `n` bytes through `fd`: the descriptor's
/// offset moves forward by `n`.
pub open spec fn vfs_read_effect(v: FdTablesView, pid: usize, fd: usize, n: usize) -> FdTablesView {
    match (table_of(v, pid), open_descriptor(v, pid, fd)) {
        (Some(i), Some(d)) => if d.kind is Vfs {
            with_slot(v, i, fd as int, Some(FileDescriptor { offset: (d.offset + n) as u64, ..d }))
        } else {
            v
        },
        _ => v,
    }
}

/// Record that a VFS read through `fd` of `pid` returned `n` bytes.
pub fn complete_vfs_read(tables: &mut FdTables, pid: usize, fd: usize, n: usize)
    requires
        old(tables).wf(),
        !vfs_read_overflows(old(tables)@, pid, fd, n),
    ensures
        final(tables).wf(),
        final(tables)@ == vfs_read_effect(old(tables)@, pid, fd, n),
{
    proof { tables.lemma_slot_counts(); }
    let i = match tables.find(pid) {
        Some(i) => i,
        None => return,
    };
    match tables.slot(i, fd) {
        Some(desc) => {
            if let FdKind::Vfs(_) = desc.kind {
                tables.set_slot(i, fd, Some(FileDescriptor { offset: desc.offset + n as u64, ..desc }));
            }
        },
        None => {},
    }
}

/// What `write` leaves to its caller once the library has done its part.
#[derive(Clone, Copy, PartialEq, Eq, Structural, Debug)]
pub enum WriteOutcome {
    /// Finished: this is the call's result.
    Done(isize),
    /// Send the first `print_len` bytes to the console, then return
    /// `result`.
    Console { print_len: usize, result: isize },
}

/// Outcome and pipes after `write(fd)` of `data` by `pid`. Descriptors 1
/// and 2 always go to the console, which gets the bytes before the first
/// zero byte and reports their number; other console descriptors report the
/// whole length.
pub open spec fn write_effect(v: FdTablesView, pipes: Seq<PipeView>, pid: usize, fd: usize, data: Seq<u8>) -> (
    WriteOutcome,
    Seq<PipeView>,
) {
    if data.len() == 0 {
        (WriteOutcome::Done(0isize), pipes)
    } else if fd == 1 || fd == 2 {
        let n = nul_prefix_len(data);
        (WriteOutcome::Console { print_len: n as usize, result: n as isize }, pipes)
    } else {
        match open_descriptor(v, pid, fd) {
            None => (WriteOutcome::Done(-1isize), pipes),
            Some(d) => match d.kind {
                FdKind::Stdout | FdKind::Stderr => (
                    WriteOutcome::Console {
                        print_len: nul_prefix_len(data) as usize,
                        result: data.len() as isize,
                    },
                    pipes,
                ),
                FdKind::PipeWrite(id) => if id < pipes.len() {
                    let q = pipes[id as int].0;
                    (
                        WriteOutcome::Done(accepted_by_write(q.len(), data.len()) as isize),
                        pipes.update(id as int, (contents_after_write(q, data), pipes[id as int].1)),
                    )
                } else {
                    (WriteOutcome::Done(-1isize), pipes)
                },
                _ => (WriteOutcome::Done(-1isize), pipes),
            },
        }
    }
}

/// Write `data` (the user buffer of `count` bytes) to file descriptor `fd`
/// of process `pid`: pipes are written here; console output is handed back
/// to the caller. Writing to a VFS file is not supported (-1).
pub fn sys_write(tables: &FdTables, pipes: &mut PipeTable, pid: usize, fd: usize, data: &[u8]) -> (o: WriteOutcome)
    requires
        tables.wf(),
    ensures
        (o, final(pipes)@) == write_effect(tables@, old(pipes)@, pid, fd, data@),
{
    proof { tables.lemma_slot_counts(); }
    if data.len() == 0 {
        return WriteOutcome::Done(0isize);
    }
    if fd == 1 || fd == 2 {
        let n = bytes_before_nul(data);
        return WriteOutcome::Console { print_len: n, result: n as isize };
    }
    let i = match tables.find(pid) {
        Some(i) => i,
        None => return WriteOutcome::Done(-1isize),
    };
    match tables.slot(i, fd) {
        Some(desc) => match desc.kind {
            FdKind::Stdin => WriteOutcome::Done(-1isize),
            FdKind::Stdout | FdKind::Stderr => {
                let n = bytes_before_nul(data);
                WriteOutcome::Console { print_len: n, result: data.len() as isize }
            },
            FdKind::Vfs(_) => WriteOutcome::Done(-1isize),
            FdKind::PipeRead(_) => WriteOutcome::Done(-1isize),
            FdKind::PipeWrite(pipe_id) => {
                if pipe_id < pipes.len() {
                    let n = pipes.write(pipe_id, data);
                    WriteOutcome::Done(n as isize)
                } else {
                    WriteOutcome::Done(-1isize)
                }
            },
        },
        None => WriteOutcome::Done(-1isize),
    }
}

/// `std::str::from_utf8`: the bytes as a string slice when they are valid
/// UTF-8; claimed here to succeed exactly on valid UTF-8 and to keep the
/// bytes unchanged.
#[verifier::external_body]
fn str_from_utf8(bytes: &[u8]) -> (s: Option<&str>)
    ensures
        s is Some <==> valid_utf8(bytes@),
        s matches Some(t) ==> t.spec_bytes() == bytes@,
{
    core::str::from_utf8(bytes).ok()
}

/// Longest path `open` accepts, in bytes.
pub const MAX_PATH_LEN: usize = 4096;

/// The path that `open` looks up for the user bytes `path`: the bytes
/// before the first zero byte, as a string. `None` (the call fails with -1)
/// for an empty or over-long buffer or a path that is not UTF-8.
pub fn open_path(path: &[u8]) -> (s: Option<&str>)
    ensures
        path@.len() == 0 || path@.len() > MAX_PATH_LEN ==> s is None,
        0 < path@.len() <= MAX_PATH_LEN ==> {
            let p = path@.take(nul_prefix_len(path@));
            &&& s is Some <==> valid_utf8(p)
            &&& s matches Some(t) ==> t.spec_bytes() == p
        },
{
    if path.len() == 0 || path.len() > MAX_PATH_LEN {
        return None;
    }
    let end = bytes_before_nul(path);
    let prefix = vstd::slice::slice_subrange(path, 0, end);
    assert(prefix@ == path@.take(end as int));
    str_from_utf8(prefix)
}

/// The slots of a fresh table with standard I/O open.
pub open spec fn stdio_slots() -> Seq<Option<FileDescriptor>> {
    Seq::new(MAX_FDS as nat, |i: int| if i < 3 { Some(stdio_descriptor(i)) } else { None })
}

/// Result and registry after `open` found `handle` for `pid`: the process
/// gets a table if it had none, and the file goes to the lowest free slot
/// at or above 3, whose number is returned (-1 when none is free).
pub open spec fn open_effect(v: FdTablesView, pid: usize, handle: FileHandle, flags: u32) -> (
    isize,
    FdTablesView,
) {
    let v1 = if table_of(v, pid) is None {
        v.push((pid, stdio_slots()))
    } else {
        v
    };
    let i = if table_of(v, pid) is None {
        v.len() as int
    } else {
        table_of(v, pid).unwrap()
    };
    match lowest_free_slot(v1[i].1) {
        Some(k) => (
            k as isize,
            with_slot(v1, i, k, Some(FileDescriptor { kind: FdKind::Vfs(handle), offset: 0, flags })),
        ),
        None => (-1isize, v1),
    }
}

/// Give process `pid` a descriptor for the VFS file `handle` it opened with
/// `flags`.
pub fn install_vfs_file(tables: &mut FdTables, pid: usize, handle: FileHandle, flags: u32) -> (r: isize)
    requires
        old(tables).wf(),
    ensures
        final(tables).wf(),
        (r, final(tables)@) == open_effect(old(tables)@, pid, handle, flags),
{
    proof { tables.lemma_slot_counts(); }
    let i = match tables.find(pid) {
        Some(i) => i,
        None => {
            let n = tables.tables.len();
            create_fd_table(tables, pid);
            assert(tables@[n as int].1 =~= stdio_slots());
            n
        },
    };
    let desc = FileDescriptor { kind: FdKind::Vfs(handle), offset: 0, flags };
    match tables.insert_into(i, desc) {
        Some(fd) => fd as isize,
        None => -1,
    }
}

/// Outcome and registry of `pipe()` by `pid` once pipe `id` has been
/// created: the read end, then the write end, go to the lowest free slots;
/// when the second does not fit the first is closed again.
pub open spec fn pipe_effect(v: FdTablesView, pid: usize, id: usize) -> (
    Option<(usize, usize)>,
    FdTablesView,
) {
    match table_of(v, pid) {
        None => (None::<(usize, usize)>, v),
        Some(i) => match lowest_free_slot(v[i].1) {
            None => (None::<(usize, usize)>, v),
            Some(r) => {
                let v1 = with_slot(
                    v,
                    i,
                    r,
                    Some(FileDescriptor { kind: FdKind::PipeRead(id), offset: 0, flags: O_RDONLY }),
                );
                match lowest_free_slot(v1[i].1) {
                    None => (None::<(usize, usize)>, v),
                    Some(w) => (
                        Some((r as usize, w as usize)),
                        with_slot(
                            v1,
                            i,
                            w,
                            Some(
                                FileDescriptor {
                                    kind: FdKind::PipeWrite(id),
                                    offset: 0,
                                    flags: O_WRONLY,
                                },
                            ),
                        ),
                    ),
                }
            },
        },
    }
}

/// Create a pipe for process `pid` and open both of its ends, returning
/// `(read_fd, write_fd)`; `None` (the call fails with -1) when `pid` has no
/// table or two slots are not free. The pipe is created in every case.
pub fn sys_pipe(tables: &mut FdTables, pipes: &mut PipeTable, pid: usize) -> (r: Option<(usize, usize)>)
    requires
        old(tables).wf(),
    ensures
        final(tables).wf(),
        final(pipes)@ == old(pipes)@.push((Seq::<u8>::empty(), false)),
        (r, final(tables)@) == pipe_effect(old(tables)@, pid, old(pipes)@.len() as usize),
{
    proof { tables.lemma_slot_counts(); }
    let pipe_id = pipe_create(pipes);
    let i = match tables.find(pid) {
        Some(i) => i,
        None => return None,
    };
    let read_fd = match tables.insert_into(
        i,
        FileDescriptor { kind: FdKind::PipeRead(pipe_id), offset: 0, flags: O_RDONLY },
    ) {
        Some(fd) => fd,
        None => return None,
    };
    let write_fd = match tables.insert_into(
        i,
        FileDescriptor { kind: FdKind::PipeWrite(pipe_id), offset: 0, flags: O_WRONLY },
    ) {
        Some(fd) => fd,
        None => {
            tables.set_slot(i, read_fd, None);
            assert(tables@[i as int].1 =~= old(tables)@[i as int].1);
            assert(tables@ =~= old(tables)@);
            return None;
        },
    };
    Some((read_fd, write_fd))
}

/// The table `table_of` finds belongs to `pid`, and no earlier one does.
proof fn lemma_table_of(v: FdTablesView, pid: usize)
    requires
        table_of(v, pid) is Some,
    ensures
        table_of(v, pid) matches Some(i) && 0 <= i < v.len() && v[i].0 == pid && forall|j: int|
            0 <= j < i ==> v[j].0 != pid,
{
    lemma_least_index(owned_by(v, pid), 0, v.len() as int);
    let i = table_of(v, pid).unwrap();
    assert forall|j: int| 0 <= j < i implies v[j].0 != pid by {
        assert(!owned_by(v, pid)(j));
    }
}

/// The slot `lowest_free_slot` finds is free and at or above 3.
proof fn lemma_lowest_free_slot(s: Seq<Option<FileDescriptor>>)
    requires
        lowest_free_slot(s) is Some,
    ensures
        lowest_free_slot(s) matches Some(k) && 3 <= k < s.len() && s[k] is None,
{
    lemma_least_index(is_free(s), 3, s.len() as int);
}

/// `table_of` finds the first table of `pid`.
proof fn lemma_table_of_is(v: FdTablesView, pid: usize, i: int)
    requires
        0 <= i < v.len(),
        v[i].0 == pid,
        forall|j: int| 0 <= j < i ==> v[j].0 != pid,
    ensures
        table_of(v, pid) == Some(i),
{
    lemma_least_index_is(owned_by(v, pid), 0, v.len() as int, i);
}

/// After a seek with target `t` on a VFS descriptor, the descriptor is
/// the same but for its offset, which is `t`.
proof fn lemma_seek_moves(v: FdTablesView, pid: usize, fd: usize, offset: i64, whence: u32)
    requires
        open_descriptor(v, pid, fd) matches Some(d) && d.kind is Vfs,
        seek_target(
            open_descriptor(v, pid, fd).unwrap().offset,
            open_descriptor(v, pid, fd).unwrap().kind->Vfs_0.size,
            offset,
            whence,
        ) is Some,
    ensures
        ({
            let d = open_descriptor(v, pid, fd).unwrap();
            let t = seek_target(d.offset, d.kind->Vfs_0.size, offset, whence).unwrap();
            &&& open_descriptor(seek_effect(v, pid, fd, offset, whence).1, pid, fd) == Some(
                FileDescriptor { offset: t as u64, ..d },
            )
            &&& seek_effect(v, pid, fd, offset, whence).0 == t as u64 as isize
        }),
{
    lemma_table_of(v, pid);
    let i = table_of(v, pid).unwrap();
    let d = open_descriptor(v, pid, fd).unwrap();
    let t = seek_target(d.offset, d.kind->Vfs_0.size, offset, whence).unwrap();
    let v2 = with_slot(v, i, fd as int, Some(FileDescriptor { offset: t as u64, ..d }));
    assert forall|j: int| 0 <= j < i implies v2[j].0 != pid by {
        assert(v2[j] == v[j]);
    }
    lemma_table_of_is(v2, pid, i);
}

/// Seeking back by `k` from the current offset `p` of a file, with
/// `k <= p`, moves the offset to `p - k`, and the call returns it (when
/// it fits in the result).
pub proof fn lemma_seek_back(v: FdTablesView, pid: usize, fd: usize, k: i64)
    requires
        0 <= k,
        open_descriptor(v, pid, fd) matches Some(d) && d.kind is Vfs && k <= d.offset,
    ensures
        ({
            let d = open_descriptor(v, pid, fd).unwrap();
            let (r, v2) = seek_effect(v, pid, fd, (-k) as i64, SEEK_CUR);
            &&& open_descriptor(v2, pid, fd) == Some(FileDescriptor { offset: (d.offset - k) as u64, ..d })
            &&& d.offset <= isize::MAX ==> r == d.offset - k
        }),
{
    lemma_seek_moves(v, pid, fd, (-k) as i64, SEEK_CUR);
}

/// Where a seek on a file lands, for an offset that keeps it inside the
/// 64-bit offsets: `SEEK_SET` at `offset`, `SEEK_CUR` at the current offset
/// plus `offset`, `SEEK_END` at the file's size plus `offset`; the call
/// returns the new offset (when it fits in the result), and only this
/// descriptor's offset changes. Any other `whence` fails with -1 and
/// changes nothing, and so does a seek on anything but a file.
pub proof fn lemma_seek_lands(v: FdTablesView, pid: usize, fd: usize, offset: i64, whence: u32)
    requires
        open_descriptor(v, pid, fd) is Some,
    ensures
        ({
            let d = open_descriptor(v, pid, fd).unwrap();
            let (r, v2) = seek_effect(v, pid, fd, offset, whence);
            if d.kind is Vfs {
                let size = d.kind->Vfs_0.size;
                let target: int = if whence == SEEK_SET {
                    offset as int
                } else if whence == SEEK_CUR {
                    d.offset + offset
                } else {
                    size + offset
                };
                if whence != SEEK_SET && whence != SEEK_CUR && whence != SEEK_END {
                    r == -1 && v2 == v
                } else if 0 <= target <= u64::MAX {
                    &&& open_descriptor(v2, pid, fd) == Some(FileDescriptor { offset: target as u64, ..d })
                    &&& target <= isize::MAX ==> r == target
                    &&& v2.len() == v.len()
                    &&& forall|j: int|
                        0 <= j < v.len() && j != table_of(v, pid).unwrap() ==> #[trigger] v2[j] == v[j]
                } else {
                    true
                }
            } else {
                r == -1 && v2 == v
            }
        }),
{
    let d = open_descriptor(v, pid, fd).unwrap();
    lemma_table_of(v, pid);
    if d.kind is Vfs {
        let t = seek_target(d.offset, d.kind->Vfs_0.size, offset, whence);
        if t is Some {
            lemma_seek_moves(v, pid, fd, offset, whence);
        }
    }
}

/// Seeking forward by `k` and then back by `k` from the current position
/// leaves the descriptor as it was.
pub proof fn lemma_seek_there_and_back(v: FdTablesView, pid: usize, fd: usize, k: i64)
    requires
        0 <= k,
        open_descriptor(v, pid, fd) matches Some(d) && d.kind is Vfs && d.offset + k <= u64::MAX,
    ensures
        ({
            let v2 = seek_effect(v, pid, fd, k, SEEK_CUR).1;
            let v3 = seek_effect(v2, pid, fd, (-k) as i64, SEEK_CUR).1;
            open_descriptor(v3, pid, fd) == open_descriptor(v, pid, fd)
        }),
{
    let d = open_descriptor(v, pid, fd).unwrap();
    lemma_seek_moves(v, pid, fd, k, SEEK_CUR);
    let v2 = seek_effect(v, pid, fd, k, SEEK_CUR).1;
    lemma_seek_back(v2, pid, fd, k);
}

/// Closing the descriptor that `dup` just created gives back the
/// registry as it was before the `dup`.
pub proof fn lemma_dup_then_close(v: FdTablesView, pid: usize, fd: usize)
    requires
        forall|i: int| 0 <= i < v.len() ==> #[trigger] v[i].1.len() == MAX_FDS,
        dup_effect(v, pid, fd).0 >= 0,
    ensures
        close_effect(dup_effect(v, pid, fd).1, pid, dup_effect(v, pid, fd).0 as usize) == (0isize, v),
{
    lemma_table_of(v, pid);
    let i = table_of(v, pid).unwrap();
    let d = open_descriptor(v, pid, fd).unwrap();
    lemma_lowest_free_slot(v[i].1);
    let k = lowest_free_slot(v[i].1).unwrap();
    let v1 = with_slot(v, i, k, Some(d));
    assert(dup_effect(v, pid, fd) == (k as isize, v1));
    assert forall|j: int| 0 <= j < i implies v1[j].0 != pid by {
        assert(v1[j] == v[j]);
    }
    lemma_table_of_is(v1, pid, i);
    assert(k as isize as usize == k);
    assert(v1[i].1[k] == Some(d));
    assert(open_descriptor(v1, pid, k as usize) == Some(d));
    assert(with_slot(v1, i, k, None) =~= v) by {
        assert(v1[i].1.update(k, None) =~= v[i].1);
    }
}

/// Closing standard input, output or error never changes anything.
pub proof fn lemma_close_stdio(v: FdTablesView, pid: usize, fd: usize)
    requires
        fd < 3,
        table_of(v, pid) is Some,
    ensures
        close_effect(v, pid, fd) == (0isize, v),
{
}

} // verus!
