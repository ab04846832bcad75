//! ELF64 support
use vstd::prelude::*;
use crate::error::Error;
use crate::utils::{le_u16, le_u32, le_u64, read_le_u16, read_le_u32, read_le_u64};

verus! {

/// Size of the ELF identification array.
pub const EI_NIDENT: usize = 16;

/// Magic number for ELF files.
pub const ELF_MAGIC: [u8; 4] = [0x7f, 0x45, 0x4c, 0x46];

/// RISC-V machine type.
pub const EM_RISCV: u16 = 0xf3;

/// Index of ELF class in e_ident.
pub const EI_CLASS: usize = 4;

/// Invalid or unknown ELF class.
pub const ELF_CLASS_NONE: u8 = 0;

/// 32-bit ELF class.
pub const ELF_CLASS_32: u8 = 1;

/// 64-bit ELF class.
pub const ELF_CLASS_64: u8 = 2;

/// Number of defined ELF classes.
pub const ELF_CLASS_NUM: u8 = 3;

/// Loadable segment type.
pub const PT_LOAD: u32 = 1;

pub const PF_X: u32 = 0x1;

pub const PF_W: u32 = 0x2;

pub const PF_R: u32 = 0x4;

/// PC-relative 32-bit relocation
pub const R_X86_64_PC32: u32 = 2;

/// Size of the ELF file header in bytes.
pub const EHDR_SIZE: usize = 64;

/// Size of one program header in bytes.
pub const PHDR_SIZE: usize = 56;

#[derive(Debug)]
pub struct ElfHeader {
    pub e_ident: [u8; 16],
    pub e_type: u16,
    pub e_machine: u16,
    pub e_version: u32,
    pub e_entry: u64,
    pub e_phoff: u64,
    pub e_shoff: u64,
    pub e_flags: u32,
    pub e_ehsize: u16,
    pub e_phentsize: u16,
    pub e_phnum: u16,
    pub e_shentsize: u16,
    pub e_shnum: u16,
    pub e_shstrndx: u16,
}

impl ElfHeader {
    /// Whether `b` is the file header of a 64-bit RISC-V ELF file: 64
    /// bytes that start with the magic number, with class 2 and machine
    /// 0xf3.
    pub open spec fn valid_image(b: Seq<u8>) -> bool {
        &&& b.len() == EHDR_SIZE
        &&& b[0] == 0x7f
        &&& b[1] == 0x45
        &&& b[2] == 0x4c
        &&& b[3] == 0x46
        &&& b[EI_CLASS as int] == ELF_CLASS_64
        &&& le_u16(b, 18) == EM_RISCV
    }

    /// Whether each field holds what `b` encodes at the field's place,
    /// low byte first.
    pub open spec fn decodes(&self, b: Seq<u8>) -> bool {
        &&& self.e_ident@ == b.subrange(0, 16)
        &&& self.e_type == le_u16(b, 16)
        &&& self.e_machine == le_u16(b, 18)
        &&& self.e_version == le_u32(b, 20)
        &&& self.e_entry == le_u64(b, 24)
        &&& self.e_phoff == le_u64(b, 32)
        &&& self.e_shoff == le_u64(b, 40)
        &&& self.e_flags == le_u32(b, 48)
        &&& self.e_ehsize == le_u16(b, 52)
        &&& self.e_phentsize == le_u16(b, 54)
        &&& self.e_phnum == le_u16(b, 56)
        &&& self.e_shentsize == le_u16(b, 58)
        &&& self.e_shnum == le_u16(b, 60)
        &&& self.e_shstrndx == le_u16(b, 62)
    }

    pub fn from_bytes(src: &[u8]) -> (r: Result<ElfHeader, Error>)
        ensures
            match r {
                Ok(h) => Self::valid_image(src@) && h.decodes(src@),
                Err(e) => e == Error::InvalidElf && !Self::valid_image(src@),
            },
    {
        if src.len() != EHDR_SIZE {
            return Err(Error::InvalidElf);
        }
        let mut e_ident = [0u8; 16];
        let mut i: usize = 0;
        while i < EI_NIDENT
            invariant
                0 <= i <= 16,
                src@.len() == 64,
                forall|j: int| 0 <= j < i ==> e_ident@[j] == src@[j],
            decreases 16 - i,
        {
            e_ident[i] = src[i];
            i += 1;
        }
        assert(e_ident@ =~= src@.subrange(0, 16));
        let res = ElfHeader {
            e_ident,
            e_type: read_le_u16(src, 16),
            e_machine: read_le_u16(src, 18),
            e_version: read_le_u32(src, 20),
            e_entry: read_le_u64(src, 24),
            e_phoff: read_le_u64(src, 32),
            e_shoff: read_le_u64(src, 40),
            e_flags: read_le_u32(src, 48),
            e_ehsize: read_le_u16(src, 52),
            e_phentsize: read_le_u16(src, 54),
            e_phnum: read_le_u16(src, 56),
            e_shentsize: read_le_u16(src, 58),
            e_shnum: read_le_u16(src, 60),
            e_shstrndx: read_le_u16(src, 62),
        };
        if res.e_ident[0] != ELF_MAGIC[0] || res.e_ident[1] != ELF_MAGIC[1] || res.e_ident[2]
            != ELF_MAGIC[2] || res.e_ident[3] != ELF_MAGIC[3] {
            return Err(Error::InvalidElf);
        }
        if res.e_ident[EI_CLASS] != ELF_CLASS_64 {
            return Err(Error::InvalidElf);
        }
        if res.e_machine != EM_RISCV {
            return Err(Error::InvalidElf);
        }
        Ok(res)
    }
}

#[derive(Debug)]
pub struct ProgramHeader {
    pub p_type: u32,
    pub p_flags: u32,
    pub p_offset: u64,
    pub p_vaddr: u64,
    pub p_paddr: u64,
    pub p_filesz: u64,
    pub p_memsz: u64,
    pub p_align: u64,
}

impl ProgramHeader {
    /// The program header that the 56 bytes of `b` encode, each field low
    /// byte first.
    pub open spec fn parse(b: Seq<u8>) -> ProgramHeader {
        ProgramHeader {
            p_type: le_u32(b, 0) as u32,
            p_flags: le_u32(b, 4) as u32,
            p_offset: le_u64(b, 8) as u64,
            p_vaddr: le_u64(b, 16) as u64,
            p_paddr: le_u64(b, 24) as u64,
            p_filesz: le_u64(b, 32) as u64,
            p_memsz: le_u64(b, 40) as u64,
            p_align: le_u64(b, 48) as u64,
        }
    }

    pub fn from_bytes(src: &[u8]) -> (r: Result<ProgramHeader, Error>)
        ensures
            match r {
                Ok(h) => src@.len() == PHDR_SIZE && h == Self::parse(src@),
                Err(e) => e == Error::InvalidElf && src@.len() != PHDR_SIZE,
            },
    {
        if src.len() != PHDR_SIZE {
            return Err(Error::InvalidElf);
        }
        Ok(
            ProgramHeader {
                p_type: read_le_u32(src, 0),
                p_flags: read_le_u32(src, 4),
                p_offset: read_le_u64(src, 8),
                p_vaddr: read_le_u64(src, 16),
                p_paddr: read_le_u64(src, 24),
                p_filesz: read_le_u64(src, 32),
                p_memsz: read_le_u64(src, 40),
                p_align: read_le_u64(src, 48),
            },
        )
    }
}

#[derive(Debug)]
pub struct SectionHeader {
    pub sh_name: u32,
    pub sh_type: u32,
    pub sh_flags: u64,
    pub sh_addr: u64,
    pub sh_offset: u64,
    pub sh_size: u64,
    pub sh_link: u32,
    pub sh_info: u32,
    pub sh_addralign: u64,
    pub sh_entsize: u64,
}

#[derive(Debug)]
pub struct Symbol {
    pub st_name: u32,
    pub st_info: u8,
    pub st_other: u8,
    pub st_shndx: u16,
    pub st_value: u64,
    pub st_size: u64,
}

#[derive(Debug)]
pub struct Relocation {
    pub r_offset: u64,
    pub r_type: u32,
    pub r_sym: u32,
    pub r_addend: i64,
}

} // verus!
