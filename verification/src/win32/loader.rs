//! Loading a parsed PE/COFF image into a process's memory: how many pages
//! it needs, where each section's bytes go, and where execution starts.
use vstd::prelude::*;
use crate::net::{le32, read_le32};

verus! {

/// Page size.
pub const PAGE_SIZE: u64 = 4096;
/// Size of a section header in the section table.
pub const SECTION_HEADER_LEN: usize = 40;

/// Machine types of PE images.
#[derive(Clone, Copy, PartialEq, Eq, Structural, Debug)]
pub enum MachineType {
    I386,
    Amd64,
    Arm64,
}

/// Whether an image for `guest` needs binary translation on a `host`
/// machine: exactly when the two differ.
pub fn requires_translation(guest: MachineType, host: MachineType) -> (b: bool)
    ensures
        b == (guest != host),
{
    guest != host
}

/// What the loader uses of a parsed PE image.
#[derive(Clone, Copy, PartialEq, Eq, Structural, Debug)]
pub struct PeImage {
    pub image_size: u32,
    pub num_sections: u16,
    pub section_table_offset: usize,
    pub entry_point: u64,
    pub image_base: u64,
}

/// What the loader uses of a section header.
#[derive(Clone, Copy, PartialEq, Eq, Structural, Debug)]
pub struct SectionHeader {
    pub virtual_address: u32,
    pub virtual_size: u32,
    pub raw_offset: u32,
    pub raw_size: u32,
}

/// Number of 4 KiB pages the image occupies.
pub fn image_pages(image: &PeImage) -> (n: usize)
    ensures
        n == (image.image_size + 4095) / 4096,
{
    ((image.image_size as u64 + 4095) / 4096) as usize
}

/// Offset of section header `i` in the file.
pub fn section_header_offset(image: &PeImage, i: usize) -> (off: usize)
    requires
        image.section_table_offset + i * 40 <= usize::MAX,
    ensures
        off == image.section_table_offset + i * 40,
{
    image.section_table_offset + i * SECTION_HEADER_LEN
}

/// Where a section goes when the image is loaded at `base`: its address,
/// the file bytes copied there (`(file offset, length)`, present when they
/// lie inside the file), and the part zeroed after them (`(address,
/// length)`, present when the section is larger in memory than in the
/// file).
#[derive(Clone, Copy, Debug)]
pub struct SectionMapping {
    pub dest: u64,
    pub copy: Option<(usize, usize)>,
    pub zero: Option<(u64, usize)>,
}

/// The mapping of `section` for an image at `base` read from a file of
/// `data_len` bytes: the copied length is the smaller of the raw and
/// virtual sizes.
pub open spec fn section_mapping(section: SectionHeader, data_len: nat, base: u64) -> SectionMapping {
    let dest = (base + section.virtual_address) as u64;
    let copy_size = if section.raw_size < section.virtual_size {
        section.raw_size
    } else {
        section.virtual_size
    };
    SectionMapping {
        dest,
        copy: if section.raw_offset + copy_size <= data_len {
            Some((section.raw_offset as usize, copy_size as usize))
        } else {
            None
        },
        zero: if copy_size < section.virtual_size {
            Some(((dest + copy_size) as u64, (section.virtual_size - copy_size) as usize))
        } else {
            None
        },
    }
}

/// Where a section's bytes go: at `base` plus its virtual address, the
/// first `min(raw_size, virtual_size)` bytes of its raw data are copied
/// from `raw_offset` whenever they lie inside the file (and only then is
/// nothing copied), and the rest of its virtual size after them is zeroed.
pub proof fn lemma_section_mapping_covers(section: SectionHeader, data_len: nat, base: u64)
    requires
        base + section.virtual_address + section.virtual_size <= u64::MAX,
    ensures
        ({
            let m = section_mapping(section, data_len, base);
            let n: int = if section.raw_size <= section.virtual_size {
                section.raw_size as int
            } else {
                section.virtual_size as int
            };
            &&& m.dest == base + section.virtual_address
            &&& section.raw_offset + n <= data_len ==> m.copy == Some(
                (section.raw_offset as usize, n as usize),
            )
            &&& section.raw_offset + n > data_len ==> m.copy is None
            &&& n < section.virtual_size ==> m.zero == Some(
                ((base + section.virtual_address + n) as u64, (section.virtual_size - n) as usize),
            )
            &&& n == section.virtual_size ==> m.zero is None
        }),
{
}

/// Map one section (see [`section_mapping`]); the caller copies and
/// zeroes the memory.
pub fn map_section(section: &SectionHeader, data_len: usize, base: u64) -> (m: SectionMapping)
    requires
        base + section.virtual_address + section.virtual_size <= u64::MAX,
    ensures
        m == section_mapping(*section, data_len as nat, base),
{
    let dest = base + section.virtual_address as u64;
    let raw_size = section.raw_size;
    let virtual_size = section.virtual_size;
    let copy_size = if raw_size < virtual_size { raw_size } else { virtual_size };
    let src_offset = section.raw_offset;
    let copy = if src_offset as u64 + copy_size as u64 <= data_len as u64 {
        Some((src_offset as usize, copy_size as usize))
    } else {
        None
    };
    let zero = if copy_size < virtual_size {
        Some((dest + copy_size as u64, (virtual_size - copy_size) as usize))
    } else {
        None
    };
    SectionMapping { dest, copy, zero }
}

/// Address of the entry point for an image loaded at `base`: its offset
/// from the preferred image base (0 if below it) added to `base`.
pub fn entry_address(image: &PeImage, base: u64) -> (addr: u64)
    requires
        base + (if image.entry_point >= image.image_base {
            image.entry_point - image.image_base
        } else {
            0
        }) <= u64::MAX,
    ensures
        addr == base + if image.entry_point >= image.image_base {
            image.entry_point - image.image_base
        } else {
            0
        },
{
    let entry_rva = image.entry_point.saturating_sub(image.image_base);
    base + entry_rva
}

/// The section header at file offset `off`: virtual size, virtual address,
/// raw data size and raw data offset are the little-endian words at bytes
/// 8, 12, 16 and 20 of its 40 bytes; `None` when the header does not lie
/// wholly inside the file.
pub open spec fn section_at(data: Seq<u8>, off: int) -> Option<SectionHeader> {
    if 0 <= off && off + SECTION_HEADER_LEN <= data.len() {
        Some(
            SectionHeader {
                virtual_size: le32(data[off + 8], data[off + 9], data[off + 10], data[off + 11]),
                virtual_address: le32(data[off + 12], data[off + 13], data[off + 14], data[off + 15]),
                raw_size: le32(data[off + 16], data[off + 17], data[off + 18], data[off + 19]),
                raw_offset: le32(data[off + 20], data[off + 21], data[off + 22], data[off + 23]),
            },
        )
    } else {
        None
    }
}

/// Read the section header at file offset `offset` (see [`section_at`]).
pub fn parse_section_header(data: &[u8], offset: usize) -> (h: Option<SectionHeader>)
    ensures
        h == section_at(data@, offset as int),
{
    if offset > data.len() || data.len() - offset < SECTION_HEADER_LEN {
        return None;
    }
    Some(
        SectionHeader {
            virtual_size: read_le32(data, offset + 8),
            virtual_address: read_le32(data, offset + 12),
            raw_size: read_le32(data, offset + 16),
            raw_offset: read_le32(data, offset + 20),
        },
    )
}

/// File offset of section header `i`.
pub open spec fn section_offset(image: PeImage, i: int) -> int {
    image.section_table_offset + i * SECTION_HEADER_LEN
}

/// Whether every section header of the image lies inside the file.
pub open spec fn all_sections_present(image: PeImage, data: Seq<u8>) -> bool {
    forall|i: int|
        0 <= i < image.num_sections ==> (#[trigger] section_at(data, section_offset(image, i))) is Some
}

/// Offset of the entry point from the preferred image base (0 if below it).
pub open spec fn entry_rva(image: PeImage) -> u64 {
    if image.entry_point >= image.image_base {
        (image.entry_point - image.image_base) as u64
    } else {
        0
    }
}

/// Whether the loader's address arithmetic stays within its integer
/// types for an image at `base`: the offsets of the section headers, each
/// section's extent, and (once every section is read) the entry point.
pub open spec fn pe_layout_fits(image: PeImage, data: Seq<u8>, base: u64) -> bool {
    &&& image.num_sections == 0 || section_offset(image, image.num_sections - 1) <= usize::MAX
    &&& forall|i: int|
        0 <= i < image.num_sections ==> (#[trigger] section_at(data, section_offset(image, i)) matches Some(h)
            ==> base + h.virtual_address + h.virtual_size <= u64::MAX)
    &&& all_sections_present(image, data) ==> base + entry_rva(image) <= u64::MAX
}

/// The mappings of the image's sections, in table order.
pub open spec fn planned_sections(image: PeImage, data: Seq<u8>, base: u64) -> Seq<SectionMapping> {
    Seq::new(
        image.num_sections as nat,
        |i: int| section_mapping(section_at(data, section_offset(image, i)).unwrap(), data.len(), base),
    )
}

/// How to load a PE image into the region at `base`: the pages it spans
/// (zeroed first), each section's mapping, and the entry point.
pub struct PeLoadPlan {
    pub base: u64,
    pub pages: usize,
    pub sections: Vec<SectionMapping>,
    pub entry: u64,
}

/// Plan the loading of `image`, read from the file `data`, into the region
/// of contiguous frames at `base`. `None` (the load fails) exactly when a
/// section header does not lie inside the file.
pub fn pe_load_plan(image: &PeImage, data: &[u8], base: u64) -> (plan: Option<PeLoadPlan>)
    requires
        pe_layout_fits(*image, data@, base),
    ensures
        plan is Some <==> all_sections_present(*image, data@),
        plan matches Some(p) ==> {
            &&& p.base == base
            &&& p.pages == (image.image_size + 4095) / 4096
            &&& p.sections@ == planned_sections(*image, data@, base)
            &&& p.entry == base + entry_rva(*image)
        },
{
    let n = image.num_sections as usize;
    let mut sections: Vec<SectionMapping> = Vec::new();
    let mut i: usize = 0;
    while i < n
        invariant
            n == image.num_sections,
            i <= n,
            pe_layout_fits(*image, data@, base),
            forall|j: int| 0 <= j < i ==> (#[trigger] section_at(data@, section_offset(*image, j))) is Some,
            sections@ == planned_sections(*image, data@, base).take(i as int),
        decreases n - i,
    {
        let off = section_header_offset(image, i);
        match parse_section_header(data, off) {
            None => {
                assert(section_at(data@, section_offset(*image, i as int)) is None);
                return None;
            },
            Some(h) => {
                assert(section_at(data@, section_offset(*image, i as int)) matches Some(_));
                let m = map_section(&h, data.len(), base);
                sections.push(m);
                i += 1;
                assert(sections@ =~= planned_sections(*image, data@, base).take(i as int));
            },
        }
    }
    assert(sections@ =~= planned_sections(*image, data@, base));
    let entry = entry_address(image, base);
    Some(PeLoadPlan { base, pages: image_pages(image), sections, entry })
}

/// Progress of an allocation of `pages` physically contiguous frames,
/// taken one at a time from the frame allocator.
pub struct ContiguousAlloc {
    pages: usize,
    first: u64,
    last: u64,
    got: usize,
}

/// What to do after handing a frame to [`ContiguousAlloc::step`].
#[derive(Clone, Copy, PartialEq, Eq, Structural, Debug)]
pub enum AllocStep {
    /// Ask the frame allocator for the next frame.
    NeedMore,
    /// All frames are contiguous; the region starts here.
    Done(u64),
    /// The allocator ran out or a frame did not follow the previous one.
    Failed,
}

impl ContiguousAlloc {
    /// Frames still to obtain.
    pub closed spec fn remaining(&self) -> int {
        self.pages - self.got
    }

    /// The first frame obtained (meaningful once one was).
    pub closed spec fn first_frame(&self) -> u64 {
        self.first
    }

    /// The last frame obtained (meaningful once one was).
    pub closed spec fn last_frame(&self) -> u64 {
        self.last
    }

    /// Frames obtained so far.
    pub closed spec fn obtained(&self) -> int {
        self.got as int
    }

    /// Start allocating `pages` contiguous frames; `None` (the allocation
    /// fails) when `pages` is 0.
    pub fn start(pages: usize) -> (a: Option<Self>)
        ensures
            pages == 0 ==> a is None,
            pages > 0 ==> (a matches Some(s) && s.remaining() == pages && s.obtained() == 0),
    {
        if pages == 0 {
            return None;
        }
        Some(ContiguousAlloc { pages, first: 0, last: 0, got: 0 })
    }

    /// Hand over what the frame allocator returned. The first frame starts
    /// the region; each later one must be 4096 bytes after the previous.
    pub fn step(&mut self, frame: Option<u64>) -> (s: AllocStep)
        requires
            old(self).remaining() > 0,
            old(self).obtained() > 0 ==> old(self).last_frame() + PAGE_SIZE <= u64::MAX,
        ensures
            frame is None ==> s == AllocStep::Failed,
            frame matches Some(f) ==> {
                let first = if old(self).obtained() == 0 {
                    f
                } else {
                    old(self).first_frame()
                };
                if old(self).obtained() > 0 && f != old(self).last_frame() + PAGE_SIZE {
                    s == AllocStep::Failed
                } else if old(self).remaining() == 1 {
                    s == AllocStep::Done(first)
                } else {
                    &&& s == AllocStep::NeedMore
                    &&& final(self).remaining() == old(self).remaining() - 1
                    &&& final(self).obtained() == old(self).obtained() + 1
                    &&& final(self).first_frame() == first
                    &&& final(self).last_frame() == f
                }
            },
    {
        let f = match frame {
            Some(f) => f,
            None => return AllocStep::Failed,
        };
        if self.got == 0 {
            self.first = f;
        } else if f != self.last + PAGE_SIZE {
            return AllocStep::Failed;
        }
        self.last = f;
        self.got = self.got + 1;
        if self.got == self.pages {
            AllocStep::Done(self.first)
        } else {
            AllocStep::NeedMore
        }
    }
}

} // verus!
