use vibeos::userland::loader::{
    elf_load_fits, load_elf, load_elf_for_task, page_copy, LoadSegment, EM_AARCH64, EM_X86_64,
    USER_STACK_TOP_X86_64,
};
use vibeos::win32::loader::{
    entry_address, image_pages, map_section, requires_translation, section_header_offset, AllocStep,
    ContiguousAlloc, MachineType, PeImage, SectionHeader, parse_section_header, pe_load_plan,
};

fn put_u16(b: &mut [u8], at: usize, v: u16) {
    b[at..at + 2].copy_from_slice(&v.to_le_bytes());
}

fn put_u32(b: &mut [u8], at: usize, v: u32) {
    b[at..at + 4].copy_from_slice(&v.to_le_bytes());
}

fn put_u64(b: &mut [u8], at: usize, v: u64) {
    b[at..at + 8].copy_from_slice(&v.to_le_bytes());
}

fn elf(machine: u16, phnum: u16) -> Vec<u8> {
    let mut b = vec![0u8; 64 + 56 * phnum as usize + 100];
    b[..4].copy_from_slice(b"\x7fELF");
    b[4] = 2;
    put_u16(&mut b, 16, 2);
    put_u16(&mut b, 18, machine);
    put_u64(&mut b, 24, 0x401234);
    put_u64(&mut b, 32, 64);
    put_u16(&mut b, 56, phnum);
    b
}

fn phdr(b: &mut [u8], i: usize, ty: u32, offset: u64, vaddr: u64, filesz: u64, memsz: u64) {
    let at = 64 + 56 * i;
    put_u32(b, at, ty);
    put_u64(b, at + 8, offset);
    put_u64(b, at + 16, vaddr);
    put_u64(b, at + 32, filesz);
    put_u64(b, at + 40, memsz);
}

#[test]
fn elf_header_checks() {
    let b = elf(EM_X86_64, 0);
    assert_eq!(load_elf(&b), Some(0x401234));
    let mut bad = b.clone();
    bad[1] = b'X';
    assert_eq!(load_elf(&bad), None);
    let mut class32 = b.clone();
    class32[4] = 1;
    assert_eq!(load_elf(&class32), None);
    let mut dynlib = b.clone();
    put_u16(&mut dynlib, 16, 3);
    assert_eq!(load_elf(&dynlib), None);
    assert_eq!(load_elf(&b[..63]), None);
}

#[test]
fn elf_plan_lists_load_segments_and_stack() {
    let mut b = elf(EM_X86_64, 3);
    phdr(&mut b, 0, 1, 0x100, 0x400123, 0x20, 0x1000);
    phdr(&mut b, 1, 4, 0, 0, 0, 0);
    phdr(&mut b, 2, 1, 0x200, 0x600000, 0x10, 0x10);
    assert!(elf_load_fits(&b, EM_X86_64));
    assert!(load_elf_for_task(&b, EM_AARCH64, USER_STACK_TOP_X86_64).is_none());
    let plan = load_elf_for_task(&b, EM_X86_64, USER_STACK_TOP_X86_64).unwrap();
    assert_eq!(plan.entry, 0x401234);
    assert_eq!(plan.stack_top, USER_STACK_TOP_X86_64);
    assert_eq!(plan.stack_pages, vec![0x7FFFFFFFE000, 0x7FFFFFFFD000, 0x7FFFFFFFC000, 0x7FFFFFFFB000]);
    assert_eq!(plan.segments.len(), 2);
    assert_eq!((plan.segments[0].page_start, plan.segments[0].page_end), (0x400000, 0x402000));
    assert_eq!((plan.segments[1].page_start, plan.segments[1].page_end), (0x600000, 0x601000));
}

#[test]
fn elf_plan_stops_at_headers_past_the_file() {
    let mut b = elf(EM_X86_64, 2);
    phdr(&mut b, 0, 1, 0, 0x1000, 0, 0x10);
    phdr(&mut b, 1, 1, 0, 0x2000, 0, 0x10);
    let cut = &b[..64 + 56 + 10];
    let plan = load_elf_for_task(cut, EM_X86_64, USER_STACK_TOP_X86_64).unwrap();
    assert_eq!(plan.segments.len(), 1);
    let mut huge = elf(EM_X86_64, 1);
    phdr(&mut huge, 0, 1, 0, u64::MAX - 10, 0, 100);
    assert!(!elf_load_fits(&huge, EM_X86_64));
    // Another machine's file is refused before the headers are read.
    assert!(elf_load_fits(&huge, EM_AARCH64));
    assert!(load_elf_for_task(&huge, EM_AARCH64, USER_STACK_TOP_X86_64).is_none());
}

#[test]
fn elf_headers_never_reached_do_not_matter() {
    // No program headers: the table's offset is never used.
    let mut b = elf(EM_X86_64, 0);
    put_u64(&mut b, 32, u64::MAX);
    assert!(elf_load_fits(&b, EM_X86_64));
    let plan = load_elf_for_task(&b, EM_X86_64, USER_STACK_TOP_X86_64).unwrap();
    assert_eq!(plan.entry, 0x401234);
    assert!(plan.segments.is_empty());
    // A header past the file stops the loader; the overflowing one after
    // it is never read.
    let mut c = elf(EM_X86_64, 3);
    let table = (c.len() - 60) as u64;
    put_u64(&mut c, 32, table);
    assert!(elf_load_fits(&c, EM_X86_64));
    assert!(load_elf_for_task(&c, EM_X86_64, USER_STACK_TOP_X86_64).unwrap().segments.is_empty());
    // A table offset whose end overflows `usize` is refused.
    let mut d = elf(EM_X86_64, 1);
    put_u64(&mut d, 32, u64::MAX - 20);
    assert!(!elf_load_fits(&d, EM_X86_64));
    // Not an ELF executable: nothing to check.
    assert!(elf_load_fits(b"not an elf", EM_X86_64));
}

#[test]
fn page_copy_clips_to_file_and_page() {
    let seg = LoadSegment { vaddr: 0x400100, filesz: 0x1100, memsz: 0x3000, offset: 0x80, page_start: 0x400000, page_end: 0x404000 };
    assert_eq!(page_copy(&seg, 0x400000, 0x10000), Some((0x80, 0x1000)));
    assert_eq!(page_copy(&seg, 0x401000, 0x10000), Some((0x1080, 0x100)));
    assert_eq!(page_copy(&seg, 0x402000, 0x10000), None);
    assert_eq!(page_copy(&seg, 0x400000, 0x100), Some((0x80, 0x80)));
    assert_eq!(page_copy(&seg, 0x400000, 0x80), None);
}

#[test]
fn pe_sections_are_copied_and_zeroed() {
    let image = PeImage { image_size: 0x3001, num_sections: 2, section_table_offset: 0x178, entry_point: 0x140001000, image_base: 0x140000000 };
    assert_eq!(image_pages(&image), 4);
    assert_eq!(section_header_offset(&image, 1), 0x178 + 40);
    assert_eq!(entry_address(&image, 0x200000), 0x201000);
    let low = PeImage { entry_point: 5, image_base: 10, ..image };
    assert_eq!(entry_address(&low, 0x200000), 0x200000);
    let s = SectionHeader { virtual_address: 0x1000, virtual_size: 0x300, raw_offset: 0x400, raw_size: 0x200 };
    let m = map_section(&s, 0x1000, 0x200000);
    assert_eq!(m.dest, 0x201000);
    assert_eq!(m.copy, Some((0x400, 0x200)));
    assert_eq!(m.zero, Some((0x201200, 0x100)));
    let m = map_section(&s, 0x500, 0x200000);
    assert_eq!(m.copy, None);
    let full = SectionHeader { raw_size: 0x400, ..s };
    assert_eq!(map_section(&full, 0x1000, 0).zero, None);
}

#[test]
fn machines_need_translation_when_they_differ() {
    assert!(!requires_translation(MachineType::Amd64, MachineType::Amd64));
    assert!(requires_translation(MachineType::I386, MachineType::Amd64));
}

#[test]
fn contiguous_frames_are_accepted_in_sequence() {
    assert!(ContiguousAlloc::start(0).is_none());
    let mut a = ContiguousAlloc::start(3).unwrap();
    assert_eq!(a.step(Some(0x5000)), AllocStep::NeedMore);
    assert_eq!(a.step(Some(0x6000)), AllocStep::NeedMore);
    assert_eq!(a.step(Some(0x7000)), AllocStep::Done(0x5000));
    let mut b = ContiguousAlloc::start(2).unwrap();
    assert_eq!(b.step(Some(0x5000)), AllocStep::NeedMore);
    assert_eq!(b.step(Some(0x9000)), AllocStep::Failed);
    let mut c = ContiguousAlloc::start(1).unwrap();
    assert_eq!(c.step(None), AllocStep::Failed);
    let mut d = ContiguousAlloc::start(1).unwrap();
    assert_eq!(d.step(Some(0x1000)), AllocStep::Done(0x1000));
}

fn put_section(data: &mut [u8], off: usize, vs: u32, va: u32, raw_size: u32, raw_off: u32) {
    data[off + 8..off + 12].copy_from_slice(&vs.to_le_bytes());
    data[off + 12..off + 16].copy_from_slice(&va.to_le_bytes());
    data[off + 16..off + 20].copy_from_slice(&raw_size.to_le_bytes());
    data[off + 20..off + 24].copy_from_slice(&raw_off.to_le_bytes());
}

fn two_section_image() -> PeImage {
    PeImage {
        image_size: 0x2010,
        num_sections: 2,
        section_table_offset: 16,
        entry_point: 0x1_4000_1500,
        image_base: 0x1_4000_0000,
    }
}

#[test]
fn pe_load_plan_maps_every_section() {
    let mut data = vec![0u8; 0x100];
    put_section(&mut data, 16, 0x100, 0x1000, 0x80, 0x60);
    put_section(&mut data, 56, 0x10, 0x2000, 0x20, 0x1000);
    assert_eq!(
        parse_section_header(&data, 16),
        Some(SectionHeader { virtual_address: 0x1000, virtual_size: 0x100, raw_offset: 0x60, raw_size: 0x80 })
    );
    let plan = pe_load_plan(&two_section_image(), &data, 0x80_0000).unwrap();
    assert_eq!(plan.base, 0x80_0000);
    assert_eq!(plan.pages, 3);
    assert_eq!(plan.entry, 0x80_1500);
    assert_eq!(plan.sections.len(), 2);
    let s0 = plan.sections[0];
    assert_eq!(s0.dest, 0x80_1000);
    assert_eq!(s0.copy, Some((0x60, 0x80)));
    assert_eq!(s0.zero, Some((0x80_1080, 0x80)));
    let s1 = plan.sections[1];
    assert_eq!(s1.dest, 0x80_2000);
    assert_eq!(s1.copy, None);
    assert_eq!(s1.zero, None);
}

#[test]
fn pe_load_plan_fails_on_a_missing_section_header() {
    let mut data = vec![0u8; 60];
    put_section(&mut data, 16, 0x100, 0x1000, 0x80, 0x10);
    assert_eq!(parse_section_header(&data, 56), None);
    assert!(pe_load_plan(&two_section_image(), &data, 0x80_0000).is_none());
}
