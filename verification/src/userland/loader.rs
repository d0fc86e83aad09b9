//! ELF64 executables: header checks and the plan for loading their
//! segments into a user task's address space.
use vstd::prelude::*;
use crate::net::{le16, le32, read_le16, read_le32};

verus! {

/// Length of the ELF64 file header.
pub const EHDR_LEN: usize = 64;
/// Length of an ELF64 program header.
pub const PHDR_LEN: usize = 56;
/// `e_ident[4]` of a 64-bit file.
pub const ELFCLASS64: u8 = 2;
/// `e_type` of an executable.
pub const ET_EXEC: u16 = 2;
/// `p_type` of a loadable segment.
pub const PT_LOAD: u32 = 1;
/// `e_machine` of x86_64.
pub const EM_X86_64: u16 = 62;
/// `e_machine` of AArch64.
pub const EM_AARCH64: u16 = 183;
/// Top of the user stack on x86_64.
pub const USER_STACK_TOP_X86_64: u64 = 0x7FFFFFFFF000;
/// Top of the user stack on AArch64.
pub const USER_STACK_TOP_AARCH64: u64 = 0x0000FFFFFFFFF000;
/// Page size.
pub const PAGE_SIZE: u64 = 4096;
/// Pages of user stack mapped below the stack top.
pub const USER_STACK_PAGES: u64 = 4;

/// The 64-bit value a little-endian read of `data[at..at + 8]` gives.
pub open spec fn le64(data: Seq<u8>, at: int) -> u64 {
    (le32(data[at], data[at + 1], data[at + 2], data[at + 3]) + 0x1_0000_0000 * le32(
        data[at + 4],
        data[at + 5],
        data[at + 6],
        data[at + 7],
    )) as u64
}

/// Little-endian read of `data[at..at + 8]`.
pub fn read_le64(data: &[u8], at: usize) -> (v: u64)
    requires
        at + 8 <= data@.len(),
    ensures
        v == le64(data@, at as int),
{
    let len = data.len();
    assert(at + 8 <= len);
    let lo = read_le32(data, at) as u64;
    let hi = read_le32(data, at + 4) as u64;
    lo + hi * 0x1_0000_0000
}

/// The fields of the ELF file header the loader uses.
#[derive(Clone, Copy, PartialEq, Eq, Structural, Debug)]
pub struct Elf64Ehdr {
    pub e_type: u16,
    pub e_machine: u16,
    pub e_entry: u64,
    pub e_phoff: u64,
    pub e_phnum: u16,
}

/// An ELF64 program header.
#[derive(Clone, Copy, PartialEq, Eq, Structural, Debug)]
pub struct Elf64Phdr {
    pub p_type: u32,
    pub p_flags: u32,
    pub p_offset: u64,
    pub p_vaddr: u64,
    pub p_paddr: u64,
    pub p_filesz: u64,
    pub p_memsz: u64,
    pub p_align: u64,
}

/// Whether `data` starts with the ELF magic, is 64-bit and is an
/// executable (at least 64 bytes long).
pub open spec fn is_elf64_exec(data: Seq<u8>) -> bool {
    &&& data.len() >= EHDR_LEN
    &&& data[0] == 0x7f && data[1] == 0x45 && data[2] == 0x4c && data[3] == 0x46
    &&& data[4] == ELFCLASS64
    &&& le16(data[16], data[17]) == ET_EXEC
}

/// The file header fields stored in `data`.
pub open spec fn ehdr_of(data: Seq<u8>) -> Elf64Ehdr {
    Elf64Ehdr {
        e_type: le16(data[16], data[17]),
        e_machine: le16(data[18], data[19]),
        e_entry: le64(data, 24),
        e_phoff: le64(data, 32),
        e_phnum: le16(data[56], data[57]),
    }
}

/// The program header stored at `data[off..off + 56]`.
pub open spec fn phdr_at(data: Seq<u8>, off: int) -> Elf64Phdr {
    Elf64Phdr {
        p_type: le32(data[off], data[off + 1], data[off + 2], data[off + 3]),
        p_flags: le32(data[off + 4], data[off + 5], data[off + 6], data[off + 7]),
        p_offset: le64(data, off + 8),
        p_vaddr: le64(data, off + 16),
        p_paddr: le64(data, off + 24),
        p_filesz: le64(data, off + 32),
        p_memsz: le64(data, off + 40),
        p_align: le64(data, off + 48),
    }
}

/// Read the file header fields; `data` holds at least 64 bytes.
fn read_ehdr(data: &[u8]) -> (h: Elf64Ehdr)
    requires
        data@.len() >= EHDR_LEN,
    ensures
        h == ehdr_of(data@),
{
    Elf64Ehdr {
        e_type: read_le16(data, 16),
        e_machine: read_le16(data, 18),
        e_entry: read_le64(data, 24),
        e_phoff: read_le64(data, 32),
        e_phnum: read_le16(data, 56),
    }
}

/// Read the program header at `off`.
pub fn read_phdr(data: &[u8], off: usize) -> (p: Elf64Phdr)
    requires
        off + PHDR_LEN <= data@.len(),
    ensures
        p == phdr_at(data@, off as int),
{
    let len = data.len();
    assert(off + PHDR_LEN <= len);
    Elf64Phdr {
        p_type: read_le32(data, off),
        p_flags: read_le32(data, off + 4),
        p_offset: read_le64(data, off + 8),
        p_vaddr: read_le64(data, off + 16),
        p_paddr: read_le64(data, off + 24),
        p_filesz: read_le64(data, off + 32),
        p_memsz: read_le64(data, off + 40),
        p_align: read_le64(data, off + 48),
    }
}

/// Check the ELF magic, class and type.
fn check_elf64_exec(data: &[u8]) -> (ok: bool)
    ensures
        ok == is_elf64_exec(data@),
{
    if data.len() < EHDR_LEN {
        return false;
    }
    if !(data[0] == 0x7f && data[1] == 0x45 && data[2] == 0x4c && data[3] == 0x46) {
        return false;
    }
    if data[4] != ELFCLASS64 {
        return false;
    }
    read_le16(data, 16) == ET_EXEC
}

/// Entry point of an ELF64 executable, `None` when `data` is not one.
pub fn load_elf(data: &[u8]) -> (entry: Option<u64>)
    ensures
        entry == if is_elf64_exec(data@) {
            Some(ehdr_of(data@).e_entry)
        } else {
            None
        },
{
    if !check_elf64_exec(data) {
        return None;
    }
    Some(read_ehdr(data).e_entry)
}

/// A loadable segment and the page-aligned range it occupies.
#[derive(Clone, Copy, PartialEq, Eq, Structural, Debug)]
pub struct LoadSegment {
    pub vaddr: u64,
    pub filesz: u64,
    pub memsz: u64,
    pub offset: u64,
    pub page_start: u64,
    pub page_end: u64,
}

/// The segment a `PT_LOAD` header describes: its pages run from its start
/// rounded down to the end of its memory image rounded up.
pub open spec fn segment_of(ph: Elf64Phdr) -> LoadSegment {
    LoadSegment {
        vaddr: ph.p_vaddr,
        filesz: ph.p_filesz,
        memsz: ph.p_memsz,
        offset: ph.p_offset,
        page_start: (ph.p_vaddr - ph.p_vaddr % 4096) as u64,
        page_end: ((ph.p_vaddr + ph.p_memsz + 4095) - (ph.p_vaddr + ph.p_memsz + 4095) % 4096) as u64,
    }
}

/// The loadable segments among the first `k` program headers, in order.
pub open spec fn segments_prefix(data: Seq<u8>, phoff: int, k: nat) -> Seq<LoadSegment>
    decreases k,
{
    if k == 0 {
        Seq::empty()
    } else {
        let prev = segments_prefix(data, phoff, (k - 1) as nat);
        let ph = phdr_at(data, phoff + (k - 1) * 56);
        if ph.p_type == PT_LOAD {
            prev.push(segment_of(ph))
        } else {
            prev
        }
    }
}

/// Whether the loader's arithmetic for program header `i` stays within its
/// integer types, where the loader reaches that header (it reads headers
/// in order and stops at the first that does not lie wholly inside the
/// file): the header's end offset fits in `usize`, and a loadable header's
/// memory image, rounded up to a page, ends within the address space.
pub open spec fn header_fits(data: Seq<u8>, i: int) -> bool {
    let h = ehdr_of(data);
    let off = h.e_phoff + i * 56;
    (0 <= i < h.e_phnum && (i == 0 || off <= data.len())) ==> {
        &&& off + PHDR_LEN <= usize::MAX
        &&& (off + PHDR_LEN <= data.len() && phdr_at(data, off).p_type == PT_LOAD) ==> phdr_at(
            data,
            off,
        ).p_vaddr + phdr_at(data, off).p_memsz + 4095 <= u64::MAX
    }
}

/// Whether the arithmetic for every program header the loader reaches
/// stays in range (see [`header_fits`]).
pub open spec fn load_fits(data: Seq<u8>) -> bool {
    forall|i: int| #[trigger] header_fits(data, i)
}

/// Number of program headers the loader reads: it stops at the first that
/// does not lie wholly inside the file.
pub open spec fn headers_read(data: Seq<u8>, phoff: int, phnum: int, k: int) -> bool {
    &&& 0 <= k <= phnum
    &&& k == 0 || phoff + k * 56 <= data.len()
    &&& k == phnum || phoff + k * 56 + 56 > data.len()
}

/// How to load an executable: entry point, user stack top, the stack
/// pages to map, and the loadable segments.
pub struct ElfLoadPlan {
    pub entry: u64,
    pub stack_top: u64,
    pub stack_pages: Vec<u64>,
    pub segments: Vec<LoadSegment>,
}

/// The pages of the user stack, from just below the top downwards.
pub open spec fn stack_pages_below(top: u64) -> Seq<u64> {
    seq![(top - 4096) as u64, (top - 8192) as u64, (top - 12288) as u64, (top - 16384) as u64]
}

/// Whether [`load_elf_for_task`] can be called on `data` for `machine`:
/// it can unless `data` is an ELF64 executable for that machine whose
/// program headers overflow the loader's arithmetic (see [`load_fits`]).
pub fn elf_load_fits(data: &[u8], machine: u16) -> (ok: bool)
    ensures
        ok == (is_elf64_exec(data@) && ehdr_of(data@).e_machine == machine ==> load_fits(data@)),
{
    if !check_elf64_exec(data) {
        return true;
    }
    let h = read_ehdr(data);
    if h.e_machine != machine {
        return true;
    }
    let n = h.e_phnum as usize;
    let limit: u64 = (usize::MAX - PHDR_LEN) as u64;
    let mut i: usize = 0;
    while i < n
        invariant
            is_elf64_exec(data@),
            h == ehdr_of(data@),
            h.e_machine == machine,
            n == h.e_phnum,
            limit == usize::MAX - PHDR_LEN,
            i <= n,
            i == 0 || h.e_phoff + i * 56 <= data@.len(),
            forall|j: int| 0 <= j < i ==> #[trigger] header_fits(data@, j),
        decreases n - i,
    {
        let step: u64 = i as u64 * 56;
        if h.e_phoff > limit || step > limit - h.e_phoff {
            assert(!header_fits(data@, i as int));
            assert(!load_fits(data@));
            return false;
        }
        let off = (h.e_phoff + step) as usize;
        if off + PHDR_LEN > data.len() {
            assert forall|k: int| #[trigger] header_fits(data@, k) by {
                if i < k < n {
                    assert(h.e_phoff + k * 56 >= h.e_phoff + i * 56 + 56) by (nonlinear_arith)
                        requires
                            i < k,
                    ;
                }
            }
            return true;
        }
        let ph = read_phdr(data, off);
        if ph.p_type == PT_LOAD && (ph.p_vaddr > u64::MAX - 4095 || ph.p_memsz > u64::MAX - 4095
            - ph.p_vaddr) {
            assert(!header_fits(data@, i as int));
            assert(!load_fits(data@));
            return false;
        }
        assert(header_fits(data@, i as int));
        i += 1;
    }
    assert forall|k: int| #[trigger] header_fits(data@, k) by {}
    true
}

/// Plan the loading of an ELF64 executable for a machine of type
/// `machine` whose user stack tops at `stack_top`: `None` unless `data` is
/// a 64-bit executable for that machine. The plan maps four stack pages
/// below the top and the loadable segments among the program headers read
/// (see [`headers_read`]).
pub fn load_elf_for_task(data: &[u8], machine: u16, stack_top: u64) -> (plan: Option<ElfLoadPlan>)
    requires
        stack_top >= USER_STACK_PAGES * PAGE_SIZE,
        is_elf64_exec(data@) && ehdr_of(data@).e_machine == machine ==> load_fits(data@),
    ensures
        !(is_elf64_exec(data@) && ehdr_of(data@).e_machine == machine) ==> plan is None,
        is_elf64_exec(data@) && ehdr_of(data@).e_machine == machine ==> (plan matches Some(p) && {
            let h = ehdr_of(data@);
            &&& p.entry == h.e_entry
            &&& p.stack_top == stack_top
            &&& p.stack_pages@ == stack_pages_below(stack_top)
            &&& exists|k: int|
                headers_read(data@, h.e_phoff as int, h.e_phnum as int, k) && p.segments@
                    == segments_prefix(data@, h.e_phoff as int, k as nat)
        }),
{
    if !check_elf64_exec(data) {
        return None;
    }
    let h = read_ehdr(data);
    if h.e_machine != machine {
        return None;
    }
    let mut stack_pages: Vec<u64> = Vec::new();
    let mut p: u64 = 0;
    while p < USER_STACK_PAGES
        invariant
            p <= USER_STACK_PAGES,
            stack_top >= USER_STACK_PAGES * PAGE_SIZE,
            stack_pages@ == stack_pages_below(stack_top).take(p as int),
        decreases USER_STACK_PAGES - p,
    {
        stack_pages.push(stack_top - (p + 1) * PAGE_SIZE);
        p += 1;
        assert(stack_pages@ =~= stack_pages_below(stack_top).take(p as int));
    }
    assert(stack_pages_below(stack_top).take(4) =~= stack_pages_below(stack_top));
    assert(header_fits(data@, 0));
    let phoff = h.e_phoff as usize;
    let mut segments: Vec<LoadSegment> = Vec::new();
    let mut i: usize = 0;
    while i < h.e_phnum as usize
        invariant_except_break
            h == ehdr_of(data@),
            load_fits(data@),
            h.e_phnum > 0 ==> phoff == h.e_phoff,
            i <= h.e_phnum,
            i == 0 || h.e_phoff + i * 56 <= data@.len(),
            segments@ == segments_prefix(data@, h.e_phoff as int, i as nat),
        ensures
            headers_read(data@, h.e_phoff as int, h.e_phnum as int, i as int),
            segments@ == segments_prefix(data@, h.e_phoff as int, i as nat),
        decreases h.e_phnum - i,
    {
        assert(header_fits(data@, i as int));
        let off = phoff + i * PHDR_LEN;
        if off + PHDR_LEN > data.len() {
            break;
        }
        let ph = read_phdr(data, off);
        if ph.p_type == PT_LOAD {
            assert(ph == phdr_at(data@, h.e_phoff + i * 56));
            let vaddr = ph.p_vaddr;
            let memsz = ph.p_memsz;
            let page_start = vaddr & !0xFFFu64;
            let page_end = (vaddr + memsz + 4095) & !0xFFFu64;
            assert(vaddr & !0xFFFu64 == vaddr - vaddr % 4096) by (bit_vector);
            let e = (vaddr + memsz + 4095) as u64;
            assert(e & !0xFFFu64 == e - e % 4096) by (bit_vector);
            segments.push(
                LoadSegment {
                    vaddr,
                    filesz: ph.p_filesz,
                    memsz,
                    offset: ph.p_offset,
                    page_start,
                    page_end,
                },
            );
        }
        i += 1;
    }
    Some(ElfLoadPlan { entry: h.e_entry, stack_top, stack_pages, segments })
}

/// The part of `data` (of `data_len` bytes) copied into the page at
/// `page_vaddr` of segment `seg`: `Some((source offset, byte count))`, or
/// `None` when the page gets no file bytes.
pub open spec fn page_copy_range(seg: LoadSegment, page_vaddr: u64, data_len: nat) -> Option<(u64, u64)> {
    let page_offset = page_vaddr - seg.page_start;
    let copy_start = seg.offset + page_offset;
    let rest = if seg.filesz >= page_offset {
        seg.filesz - page_offset
    } else {
        0
    };
    let copy_len = if rest < 4096 {
        rest
    } else {
        4096
    };
    if copy_start < data_len && copy_len > 0 {
        let amount = if copy_len < data_len - copy_start {
            copy_len
        } else {
            data_len - copy_start
        };
        Some((copy_start as u64, amount as u64))
    } else {
        None
    }
}

/// What a page of a segment gets from the file: the bytes starting at the
/// segment's file offset plus the page's offset into the segment, never
/// more than one page, than the segment's file bytes left from there, or
/// than the file has left, and exactly the least of these; nothing when
/// the page starts at or past the end of the file or of the segment's file
/// bytes.
pub proof fn lemma_page_copy_bounded(seg: LoadSegment, page_vaddr: u64, data_len: nat)
    requires
        seg.page_start <= page_vaddr,
        seg.offset + (page_vaddr - seg.page_start) <= u64::MAX,
    ensures
        ({
            let po = page_vaddr - seg.page_start;
            let start = seg.offset + po;
            match page_copy_range(seg, page_vaddr, data_len) {
                Some((from, len)) => {
                    &&& from == start
                    &&& 0 < len <= 4096
                    &&& len <= seg.filesz - po
                    &&& len <= data_len - start
                    &&& (len == 4096 || len == seg.filesz - po || len == data_len - start)
                },
                None => start >= data_len || seg.filesz <= po,
            }
        }),
{
}

/// Which file bytes go to the page at `page_vaddr` of `seg` (see
/// [`page_copy_range`]).
pub fn page_copy(seg: &LoadSegment, page_vaddr: u64, data_len: usize) -> (r: Option<(u64, u64)>)
    requires
        seg.page_start <= page_vaddr,
        seg.offset + (page_vaddr - seg.page_start) <= u64::MAX,
    ensures
        r == page_copy_range(*seg, page_vaddr, data_len as nat),
{
    let page_offset = page_vaddr - seg.page_start;
    let copy_start = seg.offset + page_offset;
    let copy_len = if 4096 < seg.filesz.saturating_sub(page_offset) {
        4096
    } else {
        seg.filesz.saturating_sub(page_offset)
    };
    if copy_start < data_len as u64 && copy_len > 0 {
        let src_start = copy_start;
        let avail = data_len as u64 - src_start;
        let amount = if copy_len < avail {
            copy_len
        } else {
            avail
        };
        Some((src_start, amount))
    } else {
        None
    }
}

} // verus!
