use elinos::elf::constants::segment_permissions;
use elinos::elf::error::ElfError;
use elinos::elf::exec::{check_entry_point, overlong_segment, physical_entry, placed_segment, trap_action, EntryCheck, TrapAction};
use elinos::elf::loader::{segment_image, ElfLoader};
use elinos::elf::structures::SegmentLoad;

/// A RISC-V ELF64 executable of 0x100 bytes with one loadable segment and
/// one note segment.
fn sample_elf() -> Vec<u8> {
    let mut d = vec![0u8; 0x100];
    d[0..4].copy_from_slice(b"\x7fELF");
    d[4] = 2; // 64-bit
    d[5] = 1; // little endian
    d[6] = 1;
    d[16..18].copy_from_slice(&2u16.to_le_bytes()); // executable
    d[18..20].copy_from_slice(&0xF3u16.to_le_bytes()); // RISC-V
    d[24..32].copy_from_slice(&0x1_0000u64.to_le_bytes()); // entry
    d[32..40].copy_from_slice(&64u64.to_le_bytes()); // program headers
    d[54..56].copy_from_slice(&56u16.to_le_bytes());
    d[56..58].copy_from_slice(&2u16.to_le_bytes());
    // PT_LOAD, R+X, from file offset 0xB0, 0x20 bytes, 0x1000 in memory.
    let p = 64;
    d[p..p + 4].copy_from_slice(&1u32.to_le_bytes());
    d[p + 4..p + 8].copy_from_slice(&5u32.to_le_bytes());
    d[p + 8..p + 16].copy_from_slice(&0xB0u64.to_le_bytes());
    d[p + 16..p + 24].copy_from_slice(&0x1_0000u64.to_le_bytes());
    d[p + 32..p + 40].copy_from_slice(&0x20u64.to_le_bytes());
    d[p + 40..p + 48].copy_from_slice(&0x1000u64.to_le_bytes());
    // PT_NOTE.
    let p = 120;
    d[p..p + 4].copy_from_slice(&4u32.to_le_bytes());
    d
}

#[test]
fn valid_header_is_parsed() {
    let l = ElfLoader::new();
    let d = sample_elf();
    assert!(l.is_elf(&d));
    let h = l.parse_header(&d).unwrap();
    assert_eq!({ h.e_entry }, 0x1_0000);
    assert_eq!({ h.e_phnum }, 2);
}

#[test]
fn header_errors_in_order() {
    let l = ElfLoader::new();
    assert_eq!(l.parse_header(&[0u8; 10]).err(), Some(ElfError::InvalidHeader));
    let mut d = sample_elf();
    d[0] = 0;
    assert_eq!(l.parse_header(&d).err(), Some(ElfError::InvalidMagic));
    let mut d = sample_elf();
    d[4] = 1;
    assert_eq!(l.parse_header(&d).err(), Some(ElfError::UnsupportedClass));
    let mut d = sample_elf();
    d[5] = 2;
    assert_eq!(l.parse_header(&d).err(), Some(ElfError::UnsupportedEndian));
    let mut d = sample_elf();
    d[18] = 0x3E;
    assert_eq!(l.parse_header(&d).err(), Some(ElfError::UnsupportedMachine));
    let mut d = sample_elf();
    d[16] = 1;
    assert_eq!(l.parse_header(&d).err(), Some(ElfError::UnsupportedType));
    assert_eq!(ElfError::InvalidMagic.message(), "Invalid ELF magic number");
}

#[test]
fn load_plan_takes_loadable_segments() {
    let l = ElfLoader::new();
    let plan = l.plan_load(&sample_elf()).unwrap();
    assert_eq!(plan.entry_point, 0x1_0000);
    assert_eq!(plan.segments.len(), 1);
    let s = plan.segments[0];
    assert_eq!(s.vaddr, 0x1_0000);
    assert_eq!(s.memsz, 0x1000);
    assert_eq!(s.flags, 5);
    assert_eq!(s.file_offset, 0xB0);
    assert_eq!(s.file_size, 0x20);
}

#[test]
fn load_plan_clips_file_bytes_to_the_file() {
    let mut d = sample_elf();
    d[64 + 32..64 + 40].copy_from_slice(&0x1000u64.to_le_bytes());
    let plan = ElfLoader::new().plan_load(&d).unwrap();
    assert_eq!(plan.segments[0].file_size, 0x100 - 0xB0);
}

#[test]
fn program_header_table_past_the_end() {
    let mut d = sample_elf();
    d[56..58].copy_from_slice(&9u16.to_le_bytes());
    assert_eq!(ElfLoader::new().plan_load(&d).err(), Some(ElfError::InvalidHeader));
    assert_eq!(ElfLoader::new().display_elf_info(&d).err(), Some(ElfError::InvalidHeader));
}

#[test]
fn info_lists_every_program_header() {
    let (h, phs) = ElfLoader::new().display_elf_info(&sample_elf()).unwrap();
    assert_eq!({ h.e_phnum }, 2);
    assert_eq!(phs.len(), 2);
    assert_eq!({ phs[0].p_type }, 1);
    assert_eq!({ phs[0].p_memsz }, 0x1000);
    assert_eq!({ phs[1].p_type }, 4);
}

#[test]
fn permission_strings() {
    assert_eq!(segment_permissions(5), "R-X");
    assert_eq!(segment_permissions(6), "RW-");
    assert_eq!(segment_permissions(0), "---");
}

#[test]
fn segment_images_are_zero_filled() {
    let d = sample_elf();
    let plan = ElfLoader::new().plan_load(&d).unwrap();
    let image = segment_image(&d, &plan.segments[0]);
    assert_eq!(image.len(), 0x1000);
    assert_eq!(&image[..0x20], &d[0xB0..0xD0]);
    assert!(image[0x20..].iter().all(|b| *b == 0));
    // More file bytes than memory: only the memory size is taken.
    let small = SegmentLoad { vaddr: 0, memsz: 4, flags: 4, file_offset: 0, file_size: 16 };
    assert_eq!(segment_image(&d, &small), d[..4].to_vec());
    // Its data size is still reported as its file size.
    assert!(overlong_segment(&small));
    assert_eq!(placed_segment(&small, 0x9000).data_size, 16);
    assert!(!overlong_segment(&SegmentLoad { vaddr: 0, memsz: 16, flags: 4, file_offset: 0, file_size: 16 }));
}

#[test]
fn entry_points_are_found_in_executable_segments() {
    let d = sample_elf();
    let plan = ElfLoader::new().plan_load(&d).unwrap();
    let placed: Vec<_> = plan.segments.iter().map(|s| placed_segment(s, 0x8010_0000)).collect();
    assert_eq!(placed[0].data_size, 0x20);
    assert_eq!(placed[0].data_addr, Some(0x8010_0000));
    assert_eq!(physical_entry(&placed, 0x1_0000), Some(0x8010_0000));
    assert_eq!(physical_entry(&placed, 0x1_0008), Some(0x8010_0008));
    // Past the segment's file bytes, or in a segment that is not executable.
    assert_eq!(physical_entry(&placed, 0x1_0020), None);
    let data_only = SegmentLoad { vaddr: 0x2_0000, memsz: 16, flags: 6, file_offset: 0, file_size: 16 };
    assert_eq!(physical_entry(&[placed_segment(&data_only, 0x8020_0000)], 0x2_0000), None);
}

#[test]
fn entry_addresses_and_traps() {
    assert_eq!(check_entry_point(0x8010_0002), EntryCheck::Misaligned);
    assert_eq!(check_entry_point(0x1000), EntryCheck::Suspicious);
    assert_eq!(check_entry_point(0x9000_0004), EntryCheck::Suspicious);
    assert_eq!(check_entry_point(0x8010_0000), EntryCheck::Runnable);
    assert_eq!(trap_action(8, 64, 1, 0x5000, 12), TrapAction::Write { ptr: 0x5000, len: 12 });
    assert_eq!(trap_action(9 | (1 << 63), 64, 1, 0x5000, 12), TrapAction::Write { ptr: 0x5000, len: 12 });
    assert_eq!(trap_action(8, 64, 2, 0x5000, 12), TrapAction::ReturnZero);
    assert_eq!(trap_action(8, 64, 1, 0x5000, 1024), TrapAction::ReturnZero);
    assert_eq!(trap_action(8, 93, 0, 0, 0), TrapAction::ReturnZero);
    assert_eq!(trap_action(2, 64, 1, 0x5000, 12), TrapAction::Skip(2));
}
