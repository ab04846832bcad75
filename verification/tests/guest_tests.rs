use memmap2::MmapMut;
use rvemu_core::elf::{ElfHeader, ProgramHeader, EI_CLASS, EI_NIDENT, ELF_CLASS_64, ELF_MAGIC, EM_RISCV, PF_R, PF_W, PF_X, PT_LOAD};
use rvemu_core::error::Error;
use rvemu_core::guest::{GuestMem, MemAccess, MemFlags, MemSegment};

const EHDR: usize = 64;
const PHDR: usize = 56;

struct Seg {
    p_type: u32,
    flags: u32,
    vaddr: u64,
    data: Vec<u8>,
    memsz: u64,
}

fn load(flags: u32, vaddr: u64, data: &[u8], memsz: u64) -> Seg {
    Seg { p_type: PT_LOAD, flags, vaddr, data: data.to_vec(), memsz }
}

fn build_elf(entry: u64, segs: &[Seg]) -> Vec<u8> {
    let mut elf = vec![0u8; EHDR + PHDR * segs.len()];
    elf[0..4].copy_from_slice(&ELF_MAGIC);
    elf[EI_CLASS] = ELF_CLASS_64;
    elf[5] = 1;
    elf[6] = 1;
    elf[16..18].copy_from_slice(&2u16.to_le_bytes());
    elf[18..20].copy_from_slice(&EM_RISCV.to_le_bytes());
    elf[20..24].copy_from_slice(&1u32.to_le_bytes());
    elf[24..32].copy_from_slice(&entry.to_le_bytes());
    elf[32..40].copy_from_slice(&(EHDR as u64).to_le_bytes());
    elf[52..54].copy_from_slice(&(EHDR as u16).to_le_bytes());
    elf[54..56].copy_from_slice(&(PHDR as u16).to_le_bytes());
    elf[56..58].copy_from_slice(&(segs.len() as u16).to_le_bytes());
    for (i, seg) in segs.iter().enumerate() {
        let offset = elf.len() as u64;
        elf.extend_from_slice(&seg.data);
        let at = EHDR + PHDR * i;
        elf[at..at + 4].copy_from_slice(&seg.p_type.to_le_bytes());
        elf[at + 4..at + 8].copy_from_slice(&seg.flags.to_le_bytes());
        elf[at + 8..at + 16].copy_from_slice(&offset.to_le_bytes());
        elf[at + 16..at + 24].copy_from_slice(&seg.vaddr.to_le_bytes());
        elf[at + 24..at + 32].copy_from_slice(&seg.vaddr.to_le_bytes());
        elf[at + 32..at + 40].copy_from_slice(&(seg.data.len() as u64).to_le_bytes());
        elf[at + 40..at + 48].copy_from_slice(&seg.memsz.to_le_bytes());
        elf[at + 48..at + 56].copy_from_slice(&0x1000u64.to_le_bytes());
    }
    elf
}

/// A program like a small compiled one: code at 0x10000, data and bss
/// from 0x19000 on.
fn sample_program() -> Vec<u8> {
    let text: Vec<u8> = (0..0x200u32).map(|i| (i % 251) as u8).collect();
    let data: Vec<u8> = (0..0x100u32).map(|i| (i % 7 + 1) as u8).collect();
    build_elf(
        0x10000,
        &[load(PF_R | PF_X, 0x10000, &text, 0x200), load(PF_R | PF_W, 0x19000, &data, 0x2000)],
    )
}

fn rw() -> MemFlags {
    MemFlags::read() | MemFlags::write()
}

#[test]
fn test_elf_header_from_bytes() {
    let mut header = [0u8; EHDR];
    header[0..4].copy_from_slice(&ELF_MAGIC);
    header[EI_CLASS] = ELF_CLASS_64;

    let e_machine_offset = 0 + EI_NIDENT + 2;
    header[e_machine_offset..e_machine_offset + 2].copy_from_slice(&EM_RISCV.to_le_bytes());

    let elf_header = ElfHeader::from_bytes(&header).unwrap();
    assert_eq!(elf_header.e_machine, EM_RISCV);
    assert_eq!(elf_header.e_ident[..4], ELF_MAGIC);
    assert_eq!(elf_header.e_ident[EI_CLASS], ELF_CLASS_64);
    assert_eq!(elf_header.e_entry, 0);
}

#[test]
fn test_parse_file() {
    let elf = sample_program();
    let ehdr = ElfHeader::from_bytes(&elf[..EHDR]).unwrap();
    assert_eq!(ehdr.e_entry, 0x10000);
    assert_eq!(ehdr.e_phoff, 64);
    assert_eq!(ehdr.e_phnum, 2);
    assert_eq!(ehdr.e_phentsize, 56);
    assert_eq!(ehdr.e_type, 2);
    assert_eq!(ehdr.e_version, 1);
    assert_eq!(ehdr.e_ehsize, 64);

    let mut seen = 0;
    for i in 0..ehdr.e_phnum as usize {
        let offset = ehdr.e_phoff as usize + i * ehdr.e_phentsize as usize;
        if offset + PHDR > elf.len() {
            continue;
        }
        let phdr = ProgramHeader::from_bytes(&elf[offset..offset + PHDR]).unwrap();
        assert_eq!(phdr.p_type, PT_LOAD);
        seen += 1;
        if i == 1 {
            assert_eq!(phdr.p_flags, PF_R | PF_W);
            assert_eq!(phdr.p_vaddr, 0x19000);
            assert_eq!(phdr.p_paddr, 0x19000);
            assert_eq!(phdr.p_filesz, 0x100);
            assert_eq!(phdr.p_memsz, 0x2000);
            assert_eq!(phdr.p_align, 0x1000);
            assert_eq!(phdr.p_offset, (EHDR + 2 * PHDR + 0x200) as u64);
        }
    }
    assert_eq!(seen, 2);
}

#[test]
fn test_parse_elf() {
    let elf_data = sample_program();
    let mut guest_mem = GuestMem::new();
    let entry = guest_mem.load_elf(&elf_data).expect("Failed to load ELF");
    assert_eq!(entry, 0x10000);
    assert_eq!(guest_mem.init_brk(), 0x1b000);
    assert_eq!(guest_mem.cur_brk(), 0x1b000);
    assert_eq!(guest_mem.num_segments(), 2);
}

#[test]
fn test_rw_bytes() {
    let elf_data = sample_program();
    let mut guest_mem = GuestMem::new();
    guest_mem.load_elf(&elf_data).expect("Failed to load ELF");
    let test_addr = 0x1a000;
    guest_mem.write_u32(test_addr, 0x12345678).expect("Failed to write u32");
    let value = guest_mem.read_u32(test_addr).expect("Failed to read u32");
    assert_eq!(value, 0x12345678, "Read value does not match written value");
    guest_mem.write_u64(test_addr + 4, 0x9abcdef012345678).expect("Failed to write u64");
    let value64 = guest_mem.read_u64(test_addr + 4).expect("Failed to read u64");
    assert_eq!(value64, 0x9abcdef012345678, "Read value does not match written value");
}

#[test]
fn header_is_refused_for_each_fault() {
    let good = sample_program()[..EHDR].to_vec();
    assert!(ElfHeader::from_bytes(&good).is_ok());
    assert!(matches!(ElfHeader::from_bytes(&good[..63]), Err(Error::InvalidElf)));
    let mut long = good.clone();
    long.push(0);
    assert!(matches!(ElfHeader::from_bytes(&long), Err(Error::InvalidElf)));
    for i in 0..4 {
        let mut bad = good.clone();
        bad[i] ^= 1;
        assert!(matches!(ElfHeader::from_bytes(&bad), Err(Error::InvalidElf)), "magic byte {}", i);
    }
    let mut bad = good.clone();
    bad[EI_CLASS] = 1;
    assert!(matches!(ElfHeader::from_bytes(&bad), Err(Error::InvalidElf)));
    let mut bad = good.clone();
    bad[18] = 0x3e;
    assert!(matches!(ElfHeader::from_bytes(&bad), Err(Error::InvalidElf)));
    let mut bad = good.clone();
    bad[19] = 1;
    assert!(matches!(ElfHeader::from_bytes(&bad), Err(Error::InvalidElf)));
}

#[test]
fn program_header_must_have_its_size() {
    assert!(matches!(ProgramHeader::from_bytes(&[0u8; 55]), Err(Error::InvalidElf)));
    assert!(matches!(ProgramHeader::from_bytes(&[0u8; 57]), Err(Error::InvalidElf)));
    let mut b = [0u8; 56];
    b[0] = 1;
    b[4] = 5;
    b[8..16].copy_from_slice(&0x0102030405060708u64.to_le_bytes());
    let ph = ProgramHeader::from_bytes(&b).unwrap();
    assert_eq!(ph.p_type, 1);
    assert_eq!(ph.p_flags, 5);
    assert_eq!(ph.p_offset, 0x0102030405060708);
}

#[test]
fn flags_of_program_headers() {
    assert_eq!(MemFlags::from_p_flags(0), MemFlags::none());
    assert_eq!(MemFlags::from_p_flags(PF_R), MemFlags::read());
    assert_eq!(MemFlags::from_p_flags(PF_W), MemFlags::write());
    assert_eq!(MemFlags::from_p_flags(PF_X), MemFlags::execute());
    assert_eq!(MemFlags::from_p_flags(PF_R | PF_X), MemFlags::read() | MemFlags::execute());
    assert_eq!(MemFlags::from_p_flags(7), MemFlags { read: true, write: true, execute: true });
    assert_eq!(MemFlags::from_p_flags(0xffff_fff8), MemFlags::none());
    assert_eq!(MemFlags::from_p_flags(7).bits(), 7);
    assert_eq!(MemFlags::read().bits(), 1);
    assert_eq!(MemFlags::write().bits(), 2);
    assert_eq!(MemFlags::execute().bits(), 4);
    assert!(rw().contains(MemFlags::read()));
    assert!(!rw().contains(MemFlags::execute()));
    assert!(MemFlags::none().is_empty());
    assert!(rw().permits(MemAccess::Write));
    assert!(!rw().permits(MemAccess::Execute));
    let mut f = MemFlags::none();
    f.insert(MemFlags::execute());
    assert_eq!(f, MemFlags::execute());
    assert_eq!(f.union(MemFlags::read()).bits(), 5);
}

#[test]
fn segment_with_initial_bytes() {
    let mut guest = GuestMem::new();
    guest.add_segment(0x10000, 4097, rw(), Some(&[0xAA, 0xBB])).unwrap();
    assert_eq!(guest.read_u8(0x10000), Ok(0xAA));
    assert_eq!(guest.read_u8(0x10001), Ok(0xBB));
    assert_eq!(guest.read_u8(0x10002), Ok(0));
    assert_eq!(guest.read_u8(0x11000), Ok(0));
    assert_eq!(guest.read_u8(0x11fff), Ok(0));
    assert_eq!(guest.read_u8(0x12000), Err(Error::MemAccessFault(MemAccess::Read, 0x12000)));
    assert_eq!(guest.read_u8(0xffff), Err(Error::MemAccessFault(MemAccess::Read, 0xffff)));
}

#[test]
fn every_byte_of_a_segment_can_be_read_and_no_other() {
    let mut guest = GuestMem::new();
    guest.add_segment(0x10804, 0x1000, rw(), Some(&[1, 2, 3])).unwrap();
    guest.add_segment(0x20000, 1, rw(), None).unwrap();
    for a in 0xf000u64..0x13000 {
        let mapped = (0x10000..0x12000).contains(&a);
        let expected = match a {
            0x10804 => Ok(1),
            0x10805 => Ok(2),
            0x10806 => Ok(3),
            _ if mapped => Ok(0),
            _ => Err(Error::MemAccessFault(MemAccess::Read, a)),
        };
        assert_eq!(guest.read_u8(a), expected, "address {:#x}", a);
    }
    assert_eq!(guest.read_u8(0x20fff), Ok(0));
    assert_eq!(guest.read_u8(0x21000), Err(Error::MemAccessFault(MemAccess::Read, 0x21000)));
    assert_eq!(guest.read_u8(u64::MAX), Err(Error::MemAccessFault(MemAccess::Read, u64::MAX)));
    assert_eq!(guest.read_u8(0), Err(Error::MemAccessFault(MemAccess::Read, 0)));
}

#[test]
fn permissions_are_enforced() {
    let mut guest = GuestMem::new();
    guest.add_segment(0x1000, 16, MemFlags::execute(), Some(&[0x13, 0, 0, 0])).unwrap();
    guest.add_segment(0x2000, 16, MemFlags::write(), None).unwrap();
    guest.add_segment(0x3000, 16, MemFlags::read(), Some(&[9])).unwrap();
    assert_eq!(guest.read_u8(0x1000), Err(Error::PermissionDenied));
    assert_eq!(guest.write_u8(0x1000, 1), Err(Error::PermissionDenied));
    assert_eq!(guest.fetch_insn(0x1000), Ok(0x13));
    assert_eq!(guest.read_u8(0x2000), Err(Error::PermissionDenied));
    assert_eq!(guest.write_u8(0x2000, 1), Ok(()));
    assert_eq!(guest.fetch_insn(0x2000), Err(Error::PermissionDenied));
    assert_eq!(guest.read_u8(0x3000), Ok(9));
    assert_eq!(guest.write_u8(0x3000, 1), Err(Error::PermissionDenied));
    assert_eq!(guest.read_u8(0x3000), Ok(9));
    assert_eq!(guest.fetch_insn(0x3000), Err(Error::PermissionDenied));
    assert_eq!(guest.fetch_insn(0x4000), Err(Error::MemAccessFault(MemAccess::Execute, 0x4000)));
    assert_eq!(guest.write_u8(0x4000, 0), Err(Error::MemAccessFault(MemAccess::Write, 0x4000)));
}

#[test]
fn add_segment_refuses_bad_arguments() {
    let mut guest = GuestMem::new();
    assert_eq!(guest.add_segment(0x1000, 0, rw(), None), Err(Error::InvalidSegment));
    assert_eq!(guest.add_segment(u64::MAX - 10, 100, rw(), None), Err(Error::InvalidSegment));
    assert_eq!(guest.add_segment(u64::MAX - 4095, 1, rw(), None), Err(Error::InvalidSegment));
    assert_eq!(guest.add_segment(0x1000, 2, rw(), Some(&[1, 2, 3])), Err(Error::OutOfBounds));
    assert_eq!(guest.num_segments(), 0);
    guest.add_segment(0x5000, 0x2000, rw(), None).unwrap();
    for (start, len) in [(0x5000u64, 1usize), (0x4fff, 2), (0x4000, 0x1001), (0x6fff, 1), (0x6000, 0x5000), (0x1000, 0x10000), (0x5800, 0x100)] {
        assert_eq!(guest.add_segment(start, len, rw(), None), Err(Error::SegmentOverlap), "{:#x}+{:#x}", start, len);
    }
    // a range that overlaps only once it is rounded to pages
    assert_eq!(guest.add_segment(0x4800, 0x100, rw(), None), Ok(()));
    assert_eq!(guest.add_segment(0x4000, 0x10, rw(), None), Err(Error::SegmentOverlap));
    assert_eq!(guest.add_segment(0x3fff, 1, rw(), None), Ok(()));
    assert_eq!(guest.add_segment(0x7000, 1, rw(), None), Ok(()));
    // overlap is found before the initial bytes are looked at
    assert_eq!(guest.add_segment(0x7000, 1, rw(), Some(&[1, 2])), Err(Error::SegmentOverlap));
    assert_eq!(guest.num_segments(), 4);
}

#[test]
fn segments_are_found_whatever_the_order_of_adding() {
    let mut guest = GuestMem::new();
    let bases = [0x9000u64, 0x3000, 0x7000, 0x1000, 0x5000, 0xb000];
    for (i, b) in bases.iter().enumerate() {
        guest.add_segment(*b, 0x1000, rw(), Some(&[i as u8 + 1])).unwrap();
    }
    for (i, b) in bases.iter().enumerate() {
        assert_eq!(guest.read_u8(*b), Ok(i as u8 + 1));
        assert_eq!(guest.read_u8(*b + 0xfff), Ok(0));
        assert_eq!(guest.read_u8(*b + 0x1000), Err(Error::MemAccessFault(MemAccess::Read, *b + 0x1000)));
        let (base, seg) = guest.decompose(*b + 5, MemAccess::Write).unwrap();
        assert_eq!(base, *b);
        assert_eq!(seg.base(), *b);
        assert_eq!(seg.end(), *b + 0x1000);
        assert_eq!(seg.num_pages(), 1);
        assert!(seg.contains(*b));
        assert!(!seg.contains(*b + 0x1000));
        assert!(seg.allows(MemAccess::Read));
        assert!(!seg.allows(MemAccess::Execute));
        assert_eq!(seg.flags(), rw());
    }
    assert!(matches!(guest.decompose(0x2000, MemAccess::Read), Err(Error::MemAccessFault(MemAccess::Read, 0x2000))));
    assert!(matches!(guest.decompose(0x3000, MemAccess::Execute), Err(Error::PermissionDenied)));
}

#[test]
fn write_then_read_gives_the_value_back() {
    let mut guest = GuestMem::new();
    guest.add_segment(0x10000, 0x2000, rw(), None).unwrap();
    for a in [0x10000u64, 0x10001, 0x10ffd, 0x11ff8] {
        guest.write_u8(a, 0x5a).unwrap();
        assert_eq!(guest.read_u8(a), Ok(0x5a));
        guest.write_u16(a, 0xbeef).unwrap();
        assert_eq!(guest.read_u16(a), Ok(0xbeef));
        guest.write_u32(a, 0xdeadbeef).unwrap();
        assert_eq!(guest.read_u32(a), Ok(0xdeadbeef));
        guest.write_u64(a, 0x0123456789abcdef).unwrap();
        assert_eq!(guest.read_u64(a), Ok(0x0123456789abcdef));
    }
    // little-endian: low byte first
    guest.write_u32(0x10100, 0x11223344).unwrap();
    assert_eq!(guest.read_u8(0x10100), Ok(0x44));
    assert_eq!(guest.read_u8(0x10103), Ok(0x11));
    assert_eq!(guest.read_u16(0x10101), Ok(0x2233));
}

#[test]
fn access_across_the_end_of_a_segment_stops_at_the_fault() {
    let mut guest = GuestMem::new();
    guest.add_segment(0x10000, 0x1000, rw(), None).unwrap();
    assert_eq!(guest.write_u32(0x10ffe, 0xaabbccdd), Err(Error::MemAccessFault(MemAccess::Write, 0x11000)));
    assert_eq!(guest.read_u8(0x10ffe), Ok(0xdd));
    assert_eq!(guest.read_u8(0x10fff), Ok(0xcc));
    assert_eq!(guest.read_u32(0x10ffe), Err(Error::MemAccessFault(MemAccess::Read, 0x11000)));
    assert_eq!(guest.read_u64(0x10ff9), Err(Error::MemAccessFault(MemAccess::Read, 0x11000)));
    assert_eq!(guest.read_u16(0xffff), Err(Error::MemAccessFault(MemAccess::Read, 0xffff)));
    assert_eq!(guest.write_bytes(0x10ffd, &[1, 2, 3, 4, 5]), Err(Error::MemAccessFault(MemAccess::Write, 0x11000)));
    assert_eq!(guest.read_u16(0x10ffd), Ok(0x0201));
    assert_eq!(guest.read_u8(0x10fff), Ok(3));
    assert_eq!(guest.write_bytes(0x10000, &[]), Ok(()));
    assert_eq!(guest.write_bytes(0x9000, &[]), Ok(()));
}

#[test]
fn access_in_adjacent_segments_goes_on() {
    let mut guest = GuestMem::new();
    guest.add_segment(0x10000, 0x1000, rw(), None).unwrap();
    guest.add_segment(0x11000, 0x1000, MemFlags::read(), Some(&[7, 8])).unwrap();
    assert_eq!(guest.read_u32(0x10ffe), Ok(0x0807_0000));
    assert_eq!(guest.write_u32(0x10ffe, 0x11223344), Err(Error::PermissionDenied));
    assert_eq!(guest.read_u32(0x10ffe), Ok(0x0807_3344));
}

#[test]
fn bss_reads_as_zero() {
    let elf = sample_program();
    let mut guest = GuestMem::new();
    guest.load_elf(&elf).unwrap();
    // the file holds 0x100 bytes of the 0x2000
    assert_eq!(guest.read_u8(0x19000), Ok(1));
    assert_eq!(guest.read_u8(0x190ff), Ok((0xff % 7 + 1) as u8));
    for a in [0x19100u64, 0x19101, 0x19fff, 0x1a000, 0x1afff] {
        assert_eq!(guest.read_u8(a), Ok(0), "address {:#x}", a);
    }
    assert_eq!(guest.read_u8(0x1b000), Err(Error::MemAccessFault(MemAccess::Read, 0x1b000)));
    // the padding of the code segment up to the page end
    assert_eq!(guest.fetch_insn(0x10200), Ok(0));
    assert_eq!(guest.fetch_insn(0x10ffc), Ok(0));
    assert_eq!(guest.read_u8(0x10000), Ok(0));
    assert_eq!(guest.read_u8(0x10001), Ok(1));
    assert_eq!(guest.write_u8(0x10000, 1), Err(Error::PermissionDenied));
}

#[test]
fn segment_that_starts_inside_a_page() {
    let elf = build_elf(0x10100, &[load(PF_R | PF_W, 0x10100, &[5, 6, 7], 0xf01)]);
    let mut guest = GuestMem::new();
    assert_eq!(guest.load_elf(&elf), Ok(0x10100));
    assert_eq!(guest.read_u8(0x10000), Ok(0));
    assert_eq!(guest.read_u8(0x100ff), Ok(0));
    assert_eq!(guest.read_u8(0x10100), Ok(5));
    assert_eq!(guest.read_u8(0x10102), Ok(7));
    assert_eq!(guest.read_u8(0x10103), Ok(0));
    assert_eq!(guest.read_u8(0x11000), Ok(0));
    assert_eq!(guest.read_u8(0x11fff), Ok(0));
    assert_eq!(guest.read_u8(0x12000), Err(Error::MemAccessFault(MemAccess::Read, 0x12000)));
    assert_eq!(guest.init_brk(), 0x12000);
}

#[test]
fn loader_refuses_malformed_files() {
    let good = sample_program();
    let mut guest = GuestMem::new();
    assert_eq!(guest.load_elf(&good[..63]), Err(Error::InvalidElf));
    assert_eq!(guest.load_elf(&[]), Err(Error::InvalidElf));
    let mut bad = good.clone();
    bad[0] = 0;
    assert_eq!(guest.load_elf(&bad), Err(Error::InvalidElf));
    let mut bad = good.clone();
    bad[EI_CLASS] = 1;
    assert_eq!(guest.load_elf(&bad), Err(Error::InvalidElf));
    let mut bad = good.clone();
    bad[18] = 0x3e;
    assert_eq!(guest.load_elf(&bad), Err(Error::InvalidElf));
    // the table of program headers reaches past the end
    assert_eq!(guest.load_elf(&good[..EHDR + PHDR + 10]), Err(Error::InvalidElf));
    let mut bad = good.clone();
    bad[32..40].copy_from_slice(&u64::MAX.to_le_bytes());
    assert_eq!(guest.load_elf(&bad), Err(Error::InvalidElf));
    assert_eq!(guest.num_segments(), 0);
    // the bytes of a segment reach past the end
    let mut guest = GuestMem::new();
    let mut bad = good.clone();
    let at = EHDR + 32;
    bad[at..at + 8].copy_from_slice(&0x10_0000u64.to_le_bytes());
    assert_eq!(guest.load_elf(&bad), Err(Error::InvalidElf));
    let mut bad = good.clone();
    bad[EHDR + 8..EHDR + 16].copy_from_slice(&u64::MAX.to_le_bytes());
    assert_eq!(guest.load_elf(&bad), Err(Error::InvalidElf));
    assert_eq!(guest.num_segments(), 0);
}

#[test]
fn loader_refuses_segments_that_cannot_be_added() {
    let mut guest = GuestMem::new();
    // more bytes in the file than in memory
    let elf = build_elf(0, &[load(PF_R, 0x1000, &[1, 2, 3], 2)]);
    assert_eq!(guest.load_elf(&elf), Err(Error::InvalidElf));
    // an empty segment
    let elf = build_elf(0, &[load(PF_R, 0x1000, &[], 0)]);
    assert_eq!(guest.load_elf(&elf), Err(Error::InvalidElf));
    // a segment that reaches past the address space
    let elf = build_elf(0, &[load(PF_R, u64::MAX - 0x10, &[1], 0x100)]);
    assert_eq!(guest.load_elf(&elf), Err(Error::InvalidElf));
    assert_eq!(guest.num_segments(), 0);
    // two segments that share a page
    let elf = build_elf(0, &[load(PF_R, 0x1000, &[1], 0x1000), load(PF_R, 0x1800, &[1], 0x10)]);
    assert_eq!(guest.load_elf(&elf), Err(Error::InvalidElf));
    // the first segment stays
    assert_eq!(guest.num_segments(), 1);
    assert_eq!(guest.read_u8(0x1000), Ok(1));
    assert_eq!(guest.init_brk(), 0);
}

#[test]
fn loader_skips_headers_that_are_not_loadable() {
    let mut note = load(PF_R, 0x5000, &[1, 2, 3, 4], 4);
    note.p_type = 4;
    let elf = build_elf(0x1004, &[note, load(PF_R | PF_X, 0x1000, &[0x13, 0, 0, 0], 4)]);
    let mut guest = GuestMem::new();
    assert_eq!(guest.load_elf(&elf), Ok(0x1004));
    assert_eq!(guest.num_segments(), 1);
    assert_eq!(guest.read_u8(0x5000), Err(Error::MemAccessFault(MemAccess::Read, 0x5000)));
    assert_eq!(guest.init_brk(), 0x2000);
    let elf = build_elf(0x77, &[]);
    let mut guest = GuestMem::new();
    assert_eq!(guest.load_elf(&elf), Ok(0x77));
    assert_eq!(guest.init_brk(), 0);
}

#[test]
fn install_segment_takes_what_the_host_gave() {
    let mut guest = GuestMem::new();
    let host = MmapMut::map_anon(8192);
    assert_eq!(guest.install_segment(0x1ff0, 0x20, rw(), Some(&[1, 2]), host), Ok(()));
    assert_eq!(guest.read_u8(0x1ff0), Ok(1));
    assert_eq!(guest.read_u8(0x1ff1), Ok(2));
    assert_eq!(guest.read_u8(0x200f), Ok(0));
    assert_eq!(guest.read_u8(0x2fff), Ok(0));
    // a mapping of another length than the pages of the segment
    let host = MmapMut::map_anon(4096);
    assert_eq!(
        guest.install_segment(0x5ff0, 0x20, rw(), None, host),
        Err(Error::InternalError(rvemu_core::error::Breach::HostMapping))
    );
    let host = Err(std::io::Error::new(std::io::ErrorKind::OutOfMemory, "none left"));
    assert_eq!(
        guest.install_segment(0x5000, 0x20, rw(), None, host),
        Err(Error::InternalError(rvemu_core::error::Breach::HostMapping))
    );
    // the checks come before the host is looked at
    let host = Err(std::io::Error::new(std::io::ErrorKind::OutOfMemory, "none left"));
    assert_eq!(guest.install_segment(0x1000, 1, rw(), None, host), Err(Error::SegmentOverlap));
    assert_eq!(guest.num_segments(), 1);
}

#[test]
fn a_mapping_that_is_not_zero_is_cleared() {
    let mut host = MmapMut::map_anon(4096).unwrap();
    host.fill(0xee);
    let mut guest = GuestMem::new();
    guest.install_segment(0x3000, 0x10, rw(), Some(&[4]), Ok(host)).unwrap();
    assert_eq!(guest.read_u8(0x3000), Ok(4));
    assert_eq!(guest.read_u8(0x3001), Ok(0));
    assert_eq!(guest.read_u8(0x3fff), Ok(0));
}

#[test]
fn segment_made_by_hand() {
    let mut host = MmapMut::map_anon(4096).unwrap();
    host[3] = 9;
    let seg = MemSegment::new(0x1003, 0x1004, 0x1000, 0x2000, host, MemFlags::read());
    assert_eq!(seg.base(), 0x1000);
    assert_eq!(seg.end(), 0x2000);
    assert_eq!(seg.num_pages(), 1);
    assert!(seg.contains(0x1000));
    assert!(seg.contains(0x1fff));
    assert!(!seg.contains(0x2000));
    assert!(!seg.contains(0xfff));
    assert!(seg.allows(MemAccess::Read));
    assert!(!seg.allows(MemAccess::Write));
    assert_eq!(seg.flags(), MemFlags::read());
}

#[test]
fn stack_is_recorded() {
    let mut guest = GuestMem::new();
    assert_eq!(guest.stack_base(), 0);
    assert_eq!(guest.stack_size(), 0);
    guest.set_stack(0x7000_0000, 0x1000);
    assert_eq!(guest.stack_base(), 0x7000_0000);
    assert_eq!(guest.stack_size(), 0x1000);
}

#[test]
fn segment_is_changed_through_decompose_mut() {
    let mut guest = GuestMem::new();
    guest.add_segment(0x4000, 0x100, MemFlags::read(), Some(&[1, 2, 3])).unwrap();
    {
        let (base, seg) = guest.decompose_mut(0x4002, MemAccess::Read).unwrap();
        assert_eq!(base, 0x4000);
        assert_eq!(seg.peek(0x4002), 3);
        // the segment itself does not ask for the write flag
        seg.poke(0x4002, 9);
        assert_eq!(seg.peek(0x4002), 9);
    }
    assert_eq!(guest.read_u8(0x4002), Ok(9));
    assert_eq!(guest.read_u8(0x4001), Ok(2));
    assert!(matches!(guest.decompose_mut(0x4002, MemAccess::Write), Err(Error::PermissionDenied)));
    assert!(matches!(
        guest.decompose_mut(0x5000, MemAccess::Read),
        Err(Error::MemAccessFault(MemAccess::Read, 0x5000))
    ));
}
