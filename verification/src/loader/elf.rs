//! ELF64 parsing with the SCE extensions: the SELF wrapper, SCE program
//! header types and SCE dynamic tags.
pub mod sce_dynamic;

use vstd::prelude::*;
use crate::bytes::{le, read_le, read_u16_le, read_u32_le, read_u64_le, read_i64_le, lemma_le_suffix};

verus! {

// ============================================================================
// SELF header
// ============================================================================

/// Magic number of SELF files.
pub const SELF_MAGIC: u32 = 0x1D3D_154F;

/// SELF file header (32 bytes).
#[derive(Clone, Copy, Debug)]
pub struct SelfHeader {
    pub magic: u32,
    pub version: u8,
    pub mode: u8,
    pub endian: u8,
    pub attributes: u8,
    pub category: u8,
    pub program_type: u8,
    pub padding1: u16,
    pub header_size: u16,
    pub meta_size: u16,
    pub file_size: u32,
    pub padding2: u32,
    pub segment_count: u16,
    pub unknown_1a: u16,
    pub padding3: u32,
}

/// SELF segment header (32 bytes).
#[derive(Clone, Copy, Debug)]
pub struct SelfSegmentHeader {
    pub flags: u64,
    pub file_offset: u64,
    pub file_size: u64,
    pub memory_size: u64,
}

impl SelfSegmentHeader {
    /// Whether the segment's data is stored in blocks.
    pub open spec fn blocked(&self) -> bool {
        (self.flags & 0x800) != 0
    }

    /// The program header index this segment carries.
    pub open spec fn id(&self) -> u64 {
        (self.flags >> 20u64) & 0xFFF
    }

    pub fn is_blocked(&self) -> (r: bool)
        ensures
            r == self.blocked(),
    {
        (self.flags & 0x800) != 0
    }

    pub fn get_id(&self) -> (r: u32)
        ensures
            r == self.id(),
            r < 4096,
    {
        let f = self.flags;
        let v = (f >> 20) & 0xFFF;
        assert(((f >> 20u64) & 0xFFF) <= 0xFFF) by (bit_vector);
        v as u32
    }

    pub fn is_ordered(&self) -> (r: bool)
        ensures
            r == ((self.flags & 1) != 0),
    {
        (self.flags & 1) != 0
    }

    pub fn is_encrypted(&self) -> (r: bool)
        ensures
            r == ((self.flags & 2) != 0),
    {
        (self.flags & 2) != 0
    }

    pub fn is_signed(&self) -> (r: bool)
        ensures
            r == ((self.flags & 4) != 0),
    {
        (self.flags & 4) != 0
    }

    pub fn is_compressed(&self) -> (r: bool)
        ensures
            r == ((self.flags & 8) != 0),
    {
        (self.flags & 8) != 0
    }
}

// ============================================================================
// ELF header
// ============================================================================

/// ELF magic bytes: 0x7F 'E' 'L' 'F'.
pub const ELF_MAGIC: [u8; 4] = [0x7F, 0x45, 0x4C, 0x46];

/// ELF file type.
#[derive(Clone, Copy, Debug, PartialEq, Eq, Structural)]
pub enum ElfType {
    /// No file type (`e_type` 0).
    NoType,
    Relocatable,
    Executable,
    SharedObject,
    Core,
    /// SCE executable.
    SceExec,
    /// SCE stub library.
    SceStubLib,
    /// SCE dynamic executable (most games).
    SceDynExec,
    /// SCE dynamic library (.sprx).
    SceDynamic,
    /// Any other value.
    Unknown(u16),
}

/// The ELF type that a raw `e_type` value denotes.
pub open spec fn elf_type_of(v: u16) -> ElfType {
    if v == 0x0 {
        ElfType::NoType
    } else if v == 0x1 {
        ElfType::Relocatable
    } else if v == 0x2 {
        ElfType::Executable
    } else if v == 0x3 {
        ElfType::SharedObject
    } else if v == 0x4 {
        ElfType::Core
    } else if v == 0xFE00 {
        ElfType::SceExec
    } else if v == 0xFE0C {
        ElfType::SceStubLib
    } else if v == 0xFE10 {
        ElfType::SceDynExec
    } else if v == 0xFE18 {
        ElfType::SceDynamic
    } else {
        ElfType::Unknown(v)
    }
}

impl From<u16> for ElfType {
    fn from(v: u16) -> (r: Self) {
        match v {
            0x0 => ElfType::NoType,
            0x1 => ElfType::Relocatable,
            0x2 => ElfType::Executable,
            0x3 => ElfType::SharedObject,
            0x4 => ElfType::Core,
            0xFE00 => ElfType::SceExec,
            0xFE0C => ElfType::SceStubLib,
            0xFE10 => ElfType::SceDynExec,
            0xFE18 => ElfType::SceDynamic,
            other => ElfType::Unknown(other),
        }
    }
}

impl vstd::std_specs::convert::FromSpecImpl<u16> for ElfType {
    open spec fn obeys_from_spec() -> bool {
        true
    }

    open spec fn from_spec(v: u16) -> Self {
        elf_type_of(v)
    }
}

/// ELF identification (first 16 bytes).
#[derive(Clone, Copy, Debug)]
pub struct ElfIdent {
    pub magic: [u8; 4],
    pub class: u8,
    pub data: u8,
    pub version: u8,
    pub os_abi: u8,
    pub abi_version: u8,
    pub padding: [u8; 7],
}

/// ELF64 file header (64 bytes).
#[derive(Clone, Copy, Debug)]
pub struct ElfHeader {
    pub ident: ElfIdent,
    pub elf_type: ElfType,
    pub machine: u16,
    pub version: u32,
    pub entry: u64,
    pub phoff: u64,
    pub shoff: u64,
    pub flags: u32,
    pub ehsize: u16,
    pub phentsize: u16,
    pub phnum: u16,
    pub shentsize: u16,
    pub shnum: u16,
    pub shstrndx: u16,
}

// ============================================================================
// Program header
// ============================================================================

/// ELF program header type.
#[derive(Clone, Copy, Debug, PartialEq, Eq, Structural)]
pub enum ProgramType {
    Null,
    Load,
    Dynamic,
    Interp,
    Note,
    Phdr,
    Tls,
    /// SCE relocation data.
    SceRela,
    /// SCE dynamic library data.
    SceDynlibData,
    /// SCE process parameters.
    SceProcParam,
    /// SCE module parameters.
    SceModuleParam,
    /// SCE relocatable read-only.
    SceRelro,
    /// GNU exception frame header.
    GnuEhFrame,
    /// GNU stack permissions.
    GnuStack,
    /// GNU read-only relocations.
    GnuRelro,
    /// SCE comment.
    SceComment,
    /// SCE library version.
    SceLibVersion,
    /// Any other value.
    Unknown(u32),
}

/// The program header type that a raw `p_type` value denotes.
pub open spec fn program_type_of(v: u32) -> ProgramType {
    if v == 0x0 {
        ProgramType::Null
    } else if v == 0x1 {
        ProgramType::Load
    } else if v == 0x2 {
        ProgramType::Dynamic
    } else if v == 0x3 {
        ProgramType::Interp
    } else if v == 0x4 {
        ProgramType::Note
    } else if v == 0x6 {
        ProgramType::Phdr
    } else if v == 0x7 {
        ProgramType::Tls
    } else if v == 0x6000_0000 {
        ProgramType::SceRela
    } else if v == 0x6100_0000 {
        ProgramType::SceDynlibData
    } else if v == 0x6100_0001 {
        ProgramType::SceProcParam
    } else if v == 0x6100_0002 {
        ProgramType::SceModuleParam
    } else if v == 0x6100_0010 {
        ProgramType::SceRelro
    } else if v == 0x6474_E550 {
        ProgramType::GnuEhFrame
    } else if v == 0x6474_E551 {
        ProgramType::GnuStack
    } else if v == 0x6474_E552 {
        ProgramType::GnuRelro
    } else if v == 0x6FFF_FF00 {
        ProgramType::SceComment
    } else if v == 0x6FFF_FF01 {
        ProgramType::SceLibVersion
    } else {
        ProgramType::Unknown(v)
    }
}

impl From<u32> for ProgramType {
    fn from(v: u32) -> (r: Self) {
        match v {
            0x0 => ProgramType::Null,
            0x1 => ProgramType::Load,
            0x2 => ProgramType::Dynamic,
            0x3 => ProgramType::Interp,
            0x4 => ProgramType::Note,
            0x6 => ProgramType::Phdr,
            0x7 => ProgramType::Tls,
            0x6000_0000 => ProgramType::SceRela,
            0x6100_0000 => ProgramType::SceDynlibData,
            0x6100_0001 => ProgramType::SceProcParam,
            0x6100_0002 => ProgramType::SceModuleParam,
            0x6100_0010 => ProgramType::SceRelro,
            0x6474_E550 => ProgramType::GnuEhFrame,
            0x6474_E551 => ProgramType::GnuStack,
            0x6474_E552 => ProgramType::GnuRelro,
            0x6FFF_FF00 => ProgramType::SceComment,
            0x6FFF_FF01 => ProgramType::SceLibVersion,
            other => ProgramType::Unknown(other),
        }
    }
}

impl vstd::std_specs::convert::FromSpecImpl<u32> for ProgramType {
    open spec fn obeys_from_spec() -> bool {
        true
    }

    open spec fn from_spec(v: u32) -> Self {
        program_type_of(v)
    }
}

/// Segment permission flags of a program header.
#[derive(Clone, Copy, Debug, PartialEq, Eq, Structural)]
pub struct ProgramFlags {
    pub bits: u32,
}

/// Execute permission.
pub const PF_EXECUTE: u32 = 0x1;

/// Write permission.
pub const PF_WRITE: u32 = 0x2;

/// Read permission.
pub const PF_READ: u32 = 0x4;

impl ProgramFlags {
    /// Keeps only the known flag bits.
    pub fn from_bits_truncate(bits: u32) -> (r: Self)
        ensures
            r.bits == bits & 7,
    {
        ProgramFlags { bits: bits & 7 }
    }

    /// The raw flag bits.
    pub fn bits(&self) -> (r: u32)
        ensures
            r == self.bits,
    {
        self.bits
    }

    /// Whether every bit of `other` is set.
    pub fn contains(&self, other: u32) -> (r: bool)
        ensures
            r == ((self.bits & other) == other),
    {
        (self.bits & other) == other
    }
}

/// ELF64 program header (56 bytes).
#[derive(Clone, Copy, Debug)]
pub struct ProgramHeader {
    pub phdr_type: ProgramType,
    pub flags: ProgramFlags,
    pub offset: u64,
    pub vaddr: u64,
    pub paddr: u64,
    pub filesz: u64,
    pub memsz: u64,
    pub align: u64,
}

/// A dynamic table entry.
#[derive(Clone, Copy, Debug)]
pub struct DynamicEntry {
    pub tag: i64,
    pub value: u64,
}

// ============================================================================
// Symbols and relocations
// ============================================================================

/// Symbol binding.
pub const STB_LOCAL: u8 = 0;
pub const STB_GLOBAL: u8 = 1;
pub const STB_WEAK: u8 = 2;

/// Symbol type.
pub const STT_NOTYPE: u8 = 0;
pub const STT_OBJECT: u8 = 1;
pub const STT_FUNC: u8 = 2;
pub const STT_SECTION: u8 = 3;
pub const STT_TLS: u8 = 6;
/// SCE-specific: module_start/module_stop.
pub const STT_SCE: u8 = 11;

/// An ELF symbol table entry (24 bytes).
#[derive(Clone, Copy, Debug)]
pub struct ElfSymbol {
    pub name_offset: u32,
    pub info: u8,
    pub other: u8,
    pub shndx: u16,
    pub value: u64,
    pub size: u64,
}

/// The symbol encoded by the 24 bytes at offset `o` of `d`.
pub open spec fn symbol_at(d: Seq<u8>, o: int) -> ElfSymbol {
    ElfSymbol {
        name_offset: le(d, o, 4) as u32,
        info: d[o + 4],
        other: d[o + 5],
        shndx: le(d, o + 6, 2) as u16,
        value: le(d, o + 8, 8) as u64,
        size: le(d, o + 16, 8) as u64,
    }
}

impl ElfSymbol {
    /// Decodes a symbol from the start of `bytes`; `None` when fewer than 24 bytes remain.
    pub fn from_bytes(bytes: &[u8]) -> (r: Option<Self>)
        ensures
            bytes@.len() < 24 ==> r is None,
            bytes@.len() >= 24 ==> r == Some(symbol_at(bytes@, 0)),
    {
        if bytes.len() < 24 {
            return None;
        }
        proof {
            crate::bytes::lemma_le_bound(bytes@, 0, 4);
            crate::bytes::lemma_le_bound(bytes@, 6, 2);
            crate::bytes::lemma_pow256_values();
        }
        Some(ElfSymbol {
            name_offset: read_u32_le(bytes, 0),
            info: bytes[4],
            other: bytes[5],
            shndx: read_u16_le(bytes, 6),
            value: read_u64_le(bytes, 8),
            size: read_u64_le(bytes, 16),
        })
    }

    pub fn binding(&self) -> (r: u8)
        ensures
            r == self.info >> 4u8,
    {
        self.info >> 4
    }

    pub fn sym_type(&self) -> (r: u8)
        ensures
            r == self.info & 0xF,
    {
        self.info & 0xF
    }

    pub fn visibility(&self) -> (r: u8)
        ensures
            r == self.other & 3,
    {
        self.other & 3
    }
}

/// x86-64 relocation types used by the guest.
pub const R_X86_64_64: u32 = 1;
pub const R_X86_64_GLOB_DAT: u32 = 6;
pub const R_X86_64_JUMP_SLOT: u32 = 7;
pub const R_X86_64_RELATIVE: u32 = 8;
pub const R_X86_64_DTPMOD64: u32 = 16;

/// Relocation entry with addend (24 bytes).
#[derive(Clone, Copy, Debug)]
pub struct ElfRelocation {
    pub offset: u64,
    pub info: u64,
    pub addend: i64,
}

/// The relocation encoded by the 24 bytes at offset `o` of `d`.
pub open spec fn relocation_at(d: Seq<u8>, o: int) -> ElfRelocation {
    ElfRelocation {
        offset: le(d, o, 8) as u64,
        info: le(d, o + 8, 8) as u64,
        addend: (le(d, o + 16, 8) as u64) as i64,
    }
}

impl ElfRelocation {
    /// Decodes a relocation from the start of `bytes`; `None` when fewer than 24 bytes remain.
    pub fn from_bytes(bytes: &[u8]) -> (r: Option<Self>)
        ensures
            bytes@.len() < 24 ==> r is None,
            bytes@.len() >= 24 ==> r == Some(relocation_at(bytes@, 0)),
    {
        if bytes.len() < 24 {
            return None;
        }
        Some(ElfRelocation {
            offset: read_u64_le(bytes, 0),
            info: read_u64_le(bytes, 8),
            addend: read_i64_le(bytes, 16),
        })
    }

    /// The symbol index (high 32 bits of `info`).
    pub fn symbol(&self) -> (r: u32)
        ensures
            r == self.info >> 32u64,
    {
        let i = self.info;
        assert(i >> 32u64 <= 0xFFFF_FFFF) by (bit_vector);
        (i >> 32) as u32
    }

    /// The relocation type (low 32 bits of `info`).
    pub fn rel_type(&self) -> (r: u32)
        ensures
            r == self.info & 0xFFFF_FFFF,
    {
        let i = self.info;
        assert(i & 0xFFFF_FFFF <= 0xFFFF_FFFF) by (bit_vector);
        (i & 0xFFFF_FFFF) as u32
    }
}

// ============================================================================
// SELF program type
// ============================================================================

/// SELF program type identifier.
#[derive(Clone, Copy, Debug, PartialEq, Eq, Structural)]
pub enum SelfProgramType {
    Fake,
    NpdrmExec,
    NpdrmDynlib,
    SystemExec,
    SystemDynlib,
    HostKernel,
    SecureModule,
    SecureKernel,
    Unknown(u64),
}

/// The SELF program type that a raw value denotes.
pub open spec fn self_program_type_of(v: u64) -> SelfProgramType {
    if v == 0x1 {
        SelfProgramType::Fake
    } else if v == 0x4 {
        SelfProgramType::NpdrmExec
    } else if v == 0x5 {
        SelfProgramType::NpdrmDynlib
    } else if v == 0x8 {
        SelfProgramType::SystemExec
    } else if v == 0x9 {
        SelfProgramType::SystemDynlib
    } else if v == 0xC {
        SelfProgramType::HostKernel
    } else if v == 0xE {
        SelfProgramType::SecureModule
    } else if v == 0xF {
        SelfProgramType::SecureKernel
    } else {
        SelfProgramType::Unknown(v)
    }
}

impl From<u64> for SelfProgramType {
    fn from(v: u64) -> (r: Self) {
        match v {
            0x1 => SelfProgramType::Fake,
            0x4 => SelfProgramType::NpdrmExec,
            0x5 => SelfProgramType::NpdrmDynlib,
            0x8 => SelfProgramType::SystemExec,
            0x9 => SelfProgramType::SystemDynlib,
            0xC => SelfProgramType::HostKernel,
            0xE => SelfProgramType::SecureModule,
            0xF => SelfProgramType::SecureKernel,
            v => SelfProgramType::Unknown(v),
        }
    }
}

impl vstd::std_specs::convert::FromSpecImpl<u64> for SelfProgramType {
    open spec fn obeys_from_spec() -> bool {
        true
    }

    open spec fn from_spec(v: u64) -> Self {
        self_program_type_of(v)
    }
}

// ============================================================================
// Errors
// ============================================================================

/// Errors during ELF parsing.
#[derive(Clone, Copy, Debug, PartialEq, Eq, Structural)]
pub enum ElfError {
    /// The data ended before a field that had to be read (an unexpected end of file).
    Io,
    /// Not a valid ELF or SELF file.
    NotElf,
    /// Not a 64-bit ELF (the class byte).
    Not64Bit(u8),
    /// Not little-endian (the data byte).
    NotLittleEndian(u8),
    /// Not x86-64 (the machine field).
    NotX86_64(u16),
}


// ============================================================================
// What a byte buffer holds, field by field
// ============================================================================

/// The buffer begins with the SELF magic number.
pub open spec fn is_self_file(d: Seq<u8>) -> bool {
    d.len() >= 4 && le(d, 0, 4) == SELF_MAGIC
}

/// The segment count field of a SELF header.
pub open spec fn self_segment_count(d: Seq<u8>) -> nat {
    le(d, 24, 2)
}

/// Where the ELF image starts: after the SELF header and its segment table, if any.
pub open spec fn elf_start(d: Seq<u8>) -> nat {
    if is_self_file(d) {
        32 + 32 * self_segment_count(d)
    } else {
        0
    }
}

/// The SELF header at the start of `d`.
pub open spec fn self_header_at(d: Seq<u8>) -> SelfHeader {
    SelfHeader {
        magic: le(d, 0, 4) as u32,
        version: d[4],
        mode: d[5],
        endian: d[6],
        attributes: d[7],
        category: d[8],
        program_type: d[9],
        padding1: le(d, 10, 2) as u16,
        header_size: le(d, 12, 2) as u16,
        meta_size: le(d, 14, 2) as u16,
        file_size: le(d, 16, 4) as u32,
        padding2: le(d, 20, 4) as u32,
        segment_count: le(d, 24, 2) as u16,
        unknown_1a: le(d, 26, 2) as u16,
        padding3: le(d, 28, 4) as u32,
    }
}

/// The SELF segment header at offset `o`.
pub open spec fn self_segment_at(d: Seq<u8>, o: int) -> SelfSegmentHeader {
    SelfSegmentHeader {
        flags: le(d, o, 8) as u64,
        file_offset: le(d, o + 8, 8) as u64,
        file_size: le(d, o + 16, 8) as u64,
        memory_size: le(d, o + 24, 8) as u64,
    }
}

/// The SELF segment table (empty for a plain ELF).
pub open spec fn self_segments_of(d: Seq<u8>) -> Seq<SelfSegmentHeader> {
    if is_self_file(d) {
        Seq::new(self_segment_count(d), |i: int| self_segment_at(d, 32 + 32 * i))
    } else {
        Seq::empty()
    }
}

/// The first error met while reading the ELF header at offset `e`, if any.
pub open spec fn header_error(d: Seq<u8>, e: int) -> Option<ElfError> {
    if d.len() < e + 4 {
        Some(ElfError::Io)
    } else if !(d[e] == 0x7F && d[e + 1] == 0x45 && d[e + 2] == 0x4C && d[e + 3] == 0x46) {
        Some(ElfError::NotElf)
    } else if d.len() < e + 5 {
        Some(ElfError::Io)
    } else if d[e + 4] != 2 {
        Some(ElfError::Not64Bit(d[e + 4]))
    } else if d.len() < e + 6 {
        Some(ElfError::Io)
    } else if d[e + 5] != 1 {
        Some(ElfError::NotLittleEndian(d[e + 5]))
    } else if d.len() < e + 20 {
        Some(ElfError::Io)
    } else if le(d, e + 18, 2) != 62 {
        Some(ElfError::NotX86_64(le(d, e + 18, 2) as u16))
    } else if d.len() < e + 64 {
        Some(ElfError::Io)
    } else {
        None
    }
}

/// The first error met before the program header table, if any.
pub open spec fn prelude_error(d: Seq<u8>) -> Option<ElfError> {
    if d.len() < 4 {
        Some(ElfError::Io)
    } else if is_self_file(d) && (d.len() < 32 || d.len() < elf_start(d)) {
        Some(ElfError::Io)
    } else {
        header_error(d, elf_start(d) as int)
    }
}

/// `h` holds the fields of the ELF header at offset `e`.
pub open spec fn header_matches(h: ElfHeader, d: Seq<u8>, e: int) -> bool {
    &&& h.ident.magic@ == d.subrange(e, e + 4)
    &&& h.ident.class == d[e + 4]
    &&& h.ident.data == d[e + 5]
    &&& h.ident.version == d[e + 6]
    &&& h.ident.os_abi == d[e + 7]
    &&& h.ident.abi_version == d[e + 8]
    &&& h.ident.padding@ == d.subrange(e + 9, e + 16)
    &&& h.elf_type == elf_type_of(le(d, e + 16, 2) as u16)
    &&& h.machine == le(d, e + 18, 2)
    &&& h.version == le(d, e + 20, 4)
    &&& h.entry == le(d, e + 24, 8)
    &&& h.phoff == le(d, e + 32, 8)
    &&& h.shoff == le(d, e + 40, 8)
    &&& h.flags == le(d, e + 48, 4)
    &&& h.ehsize == le(d, e + 52, 2)
    &&& h.phentsize == le(d, e + 54, 2)
    &&& h.phnum == le(d, e + 56, 2)
    &&& h.shentsize == le(d, e + 58, 2)
    &&& h.shnum == le(d, e + 60, 2)
    &&& h.shstrndx == le(d, e + 62, 2)
}

/// Where the program header table starts.
pub open spec fn ph_table_start(d: Seq<u8>) -> int {
    elf_start(d) as int + le(d, elf_start(d) as int + 32, 8)
}

/// The number of program headers.
pub open spec fn phnum_of(d: Seq<u8>) -> nat {
    le(d, elf_start(d) as int + 56, 2)
}

/// Locating the program header table overflows a 64-bit offset.
pub open spec fn ph_table_overflows(d: Seq<u8>) -> bool {
    ph_table_start(d) > u64::MAX
}

/// The program header table runs past the end of the data.
pub open spec fn ph_table_short(d: Seq<u8>) -> bool {
    phnum_of(d) > 0 && ph_table_start(d) + 56 * phnum_of(d) > d.len()
}

/// The program header at offset `o`.
pub open spec fn program_header_at(d: Seq<u8>, o: int) -> ProgramHeader {
    ProgramHeader {
        phdr_type: program_type_of(le(d, o, 4) as u32),
        flags: ProgramFlags { bits: (le(d, o + 4, 4) as u32) & 7 },
        offset: le(d, o + 8, 8) as u64,
        vaddr: le(d, o + 16, 8) as u64,
        paddr: le(d, o + 24, 8) as u64,
        filesz: le(d, o + 32, 8) as u64,
        memsz: le(d, o + 40, 8) as u64,
        align: le(d, o + 48, 8) as u64,
    }
}

/// The program header table.
pub open spec fn program_headers_of(d: Seq<u8>) -> Seq<ProgramHeader> {
    Seq::new(phnum_of(d), |i: int| program_header_at(d, ph_table_start(d) + 56 * i))
}

/// The index of the last program header of type `t`.
pub open spec fn last_index_of_type(phs: Seq<ProgramHeader>, t: ProgramType) -> Option<int>
    decreases phs.len(),
{
    if phs.len() == 0 {
        None
    } else if phs.last().phdr_type == t {
        Some(phs.len() - 1)
    } else {
        last_index_of_type(phs.drop_last(), t)
    }
}

/// The first blocked SELF segment, from index `j` on, that carries program header `idx`.
pub open spec fn direct_segment(segs: Seq<SelfSegmentHeader>, idx: int, j: int) -> Option<int>
    decreases segs.len() - j,
{
    if j < 0 || j >= segs.len() {
        None
    } else if segs[j].blocked() && segs[j].id() == idx {
        Some(j)
    } else {
        direct_segment(segs, idx, j + 1)
    }
}

/// The file offset of `target` found through the first blocked SELF segment, from index `j`
/// on, whose program header's file range contains it; failing that, `target` past the ELF
/// start. `None` when one of these sums overflows 64 bits.
pub open spec fn containing_offset(
    segs: Seq<SelfSegmentHeader>,
    phs: Seq<ProgramHeader>,
    target: u64,
    e: int,
    j: int,
) -> Option<u64>
    decreases segs.len() - j,
{
    if j < 0 || j >= segs.len() {
        if e + target <= u64::MAX {
            Some((e + target) as u64)
        } else {
            None
        }
    } else if !segs[j].blocked() || segs[j].id() >= phs.len() {
        containing_offset(segs, phs, target, e, j + 1)
    } else {
        let p = phs[segs[j].id() as int];
        if target >= p.offset {
            if p.offset + p.filesz > u64::MAX {
                None
            } else if target < p.offset + p.filesz {
                if segs[j].file_offset + (target - p.offset) <= u64::MAX {
                    Some((segs[j].file_offset + (target - p.offset)) as u64)
                } else {
                    None
                }
            } else {
                containing_offset(segs, phs, target, e, j + 1)
            }
        } else {
            containing_offset(segs, phs, target, e, j + 1)
        }
    }
}

/// Where the data of program header `ph` (number `idx`) lies in the file; `None` when
/// computing it overflows 64 bits.
pub open spec fn resolved_offset(
    is_self: bool,
    segs: Seq<SelfSegmentHeader>,
    phs: Seq<ProgramHeader>,
    idx: int,
    ph: ProgramHeader,
    e: int,
) -> Option<u64> {
    if !is_self {
        Some(ph.offset)
    } else {
        match direct_segment(segs, idx, 0) {
            Some(j) => Some(segs[j].file_offset),
            None => containing_offset(segs, phs, ph.offset, e, 0),
        }
    }
}

/// SELF segment `s` is blocked and carries a program header whose file range ends within 64
/// bits and contains file offset `target`.
pub open spec fn segment_holds(s: SelfSegmentHeader, phs: Seq<ProgramHeader>, target: u64) -> bool {
    &&& s.blocked()
    &&& s.id() < phs.len()
    &&& phs[s.id() as int].offset <= target
    &&& target < phs[s.id() as int].offset + phs[s.id() as int].filesz
}

proof fn lemma_containing_from_skips(
    segs: Seq<SelfSegmentHeader>,
    phs: Seq<ProgramHeader>,
    target: u64,
    e: int,
    k: int,
    j: int,
)
    requires
        0 <= k <= j <= segs.len(),
        forall|i: int|
            k <= i < j && (#[trigger] segs[i]).blocked() && segs[i].id() < phs.len() ==> {
                &&& phs[segs[i].id() as int].offset + phs[segs[i].id() as int].filesz <= u64::MAX
                &&& !segment_holds(segs[i], phs, target)
            },
    ensures
        containing_offset(segs, phs, target, e, k) == containing_offset(segs, phs, target, e, j),
    decreases j - k,
{
    if k < j {
        lemma_containing_from_skips(segs, phs, target, e, k + 1, j);
    }
}

proof fn lemma_no_direct(segs: Seq<SelfSegmentHeader>, idx: int, k: int)
    requires
        0 <= k,
        forall|i: int| 0 <= i < segs.len() ==> !((#[trigger] segs[i]).blocked() && segs[i].id() == idx),
    ensures
        direct_segment(segs, idx, k) is None,
    decreases segs.len() - k,
{
    if k < segs.len() {
        lemma_no_direct(segs, idx, k + 1);
    }
}

proof fn lemma_direct_first(segs: Seq<SelfSegmentHeader>, idx: int, k: int, j: int)
    requires
        0 <= k <= j < segs.len(),
        segs[j].blocked() && segs[j].id() == idx,
        forall|i: int| k <= i < j ==> !((#[trigger] segs[i]).blocked() && segs[i].id() == idx),
    ensures
        direct_segment(segs, idx, k) == Some(j),
    decreases j - k,
{
    if k < j {
        lemma_direct_first(segs, idx, k + 1, j);
    }
}

/// Where a program header's data lies in the file:
/// - in a plain ELF, at the header's own file offset;
/// - in a SELF, at the file offset of the first blocked segment that carries the header;
/// - in a SELF where no segment carries it, inside the first blocked segment whose carried
///   header's file range contains the header's offset, at the same distance from that
///   segment's start as from the start of that range;
/// - in a SELF where no segment carries it or its offset, at its offset past the ELF start `e`.
pub proof fn law_program_header_offset(
    segs: Seq<SelfSegmentHeader>,
    phs: Seq<ProgramHeader>,
    idx: int,
    ph: ProgramHeader,
    e: int,
    j: int,
)
    ensures
        resolved_offset(false, segs, phs, idx, ph, e) == Some(ph.offset),
        0 <= j < segs.len() && segs[j].blocked() && segs[j].id() == idx && (forall|i: int|
            0 <= i < j ==> !((#[trigger] segs[i]).blocked() && segs[i].id() == idx))
            ==> resolved_offset(true, segs, phs, idx, ph, e) == Some(segs[j].file_offset),
        ({
            &&& 0 <= j < segs.len()
            &&& forall|i: int| 0 <= i < segs.len() ==> !((#[trigger] segs[i]).blocked() && segs[i].id() == idx)
            &&& segment_holds(segs[j], phs, ph.offset)
            &&& phs[segs[j].id() as int].offset + phs[segs[j].id() as int].filesz <= u64::MAX
            &&& segs[j].file_offset + (ph.offset - phs[segs[j].id() as int].offset) <= u64::MAX
            &&& forall|i: int|
                0 <= i < j && (#[trigger] segs[i]).blocked() && segs[i].id() < phs.len() ==> {
                    &&& phs[segs[i].id() as int].offset + phs[segs[i].id() as int].filesz <= u64::MAX
                    &&& !segment_holds(segs[i], phs, ph.offset)
                }
        }) ==> resolved_offset(true, segs, phs, idx, ph, e) == Some(
            (segs[j].file_offset + (ph.offset - phs[segs[j].id() as int].offset)) as u64,
        ),
        ({
            &&& forall|i: int| 0 <= i < segs.len() ==> !((#[trigger] segs[i]).blocked() && segs[i].id() == idx)
            &&& forall|i: int|
                0 <= i < segs.len() && (#[trigger] segs[i]).blocked() && segs[i].id() < phs.len() ==> {
                    &&& phs[segs[i].id() as int].offset + phs[segs[i].id() as int].filesz <= u64::MAX
                    &&& !segment_holds(segs[i], phs, ph.offset)
                }
            &&& e + ph.offset <= u64::MAX
        }) ==> resolved_offset(true, segs, phs, idx, ph, e) == Some((e + ph.offset) as u64),
{
    if (forall|i: int| 0 <= i < segs.len() ==> !((#[trigger] segs[i]).blocked() && segs[i].id() == idx))
        && (forall|i: int|
        0 <= i < segs.len() && (#[trigger] segs[i]).blocked() && segs[i].id() < phs.len() ==> {
            &&& phs[segs[i].id() as int].offset + phs[segs[i].id() as int].filesz <= u64::MAX
            &&& !segment_holds(segs[i], phs, ph.offset)
        }) {
        lemma_no_direct(segs, idx, 0);
        lemma_containing_from_skips(segs, phs, ph.offset, e, 0, segs.len() as int);
    }
    if 0 <= j < segs.len() && segs[j].blocked() && segs[j].id() == idx && (forall|i: int|
        0 <= i < j ==> !((#[trigger] segs[i]).blocked() && segs[i].id() == idx)) {
        lemma_direct_first(segs, idx, 0, j);
    }
    if 0 <= j < segs.len() && (forall|i: int|
        0 <= i < segs.len() ==> !((#[trigger] segs[i]).blocked() && segs[i].id() == idx))
        && segment_holds(segs[j], phs, ph.offset) && phs[segs[j].id() as int].offset
        + phs[segs[j].id() as int].filesz <= u64::MAX && (forall|i: int|
        0 <= i < j && (#[trigger] segs[i]).blocked() && segs[i].id() < phs.len() ==> {
            &&& phs[segs[i].id() as int].offset + phs[segs[i].id() as int].filesz <= u64::MAX
            &&& !segment_holds(segs[i], phs, ph.offset)
        }) {
        lemma_no_direct(segs, idx, 0);
        lemma_containing_from_skips(segs, phs, ph.offset, e, 0, j);
    }
}

/// The dynamic table goes on past entry `j`: within the table size, within the data, and not
/// the terminating `DT_NULL`.
pub open spec fn dynamic_continues(d: Seq<u8>, at: int, kmax: int, j: int) -> bool {
    j < kmax && at + 16 * (j + 1) <= d.len() && le(d, at + 16 * j, 8) != 0
}

/// The number of entries of the dynamic table, counting on from entry `j`.
pub open spec fn dynamic_len(d: Seq<u8>, at: int, kmax: int, j: int) -> int
    decreases kmax - j,
{
    if j >= kmax {
        j
    } else if dynamic_continues(d, at, kmax, j) {
        dynamic_len(d, at, kmax, j + 1)
    } else {
        j
    }
}

/// The dynamic entry at offset `o`.
pub open spec fn dynamic_entry_at(d: Seq<u8>, o: int) -> DynamicEntry {
    DynamicEntry { tag: (le(d, o, 8) as u64) as i64, value: le(d, o + 8, 8) as u64 }
}

/// The dynamic entries read from offset `at` for a segment of `filesz` bytes.
pub open spec fn dynamic_entries_from(d: Seq<u8>, at: int, filesz: int) -> Seq<DynamicEntry> {
    if at >= d.len() {
        Seq::empty()
    } else {
        Seq::new(
            dynamic_len(d, at, filesz / 16, 0) as nat,
            |j: int| dynamic_entry_at(d, at + 16 * j),
        )
    }
}

/// The dynamic library data read from offset `at` for a segment of `filesz` bytes:
/// all of it, or what the data holds of it.
pub open spec fn dynlib_from(d: Seq<u8>, at: int, filesz: int) -> Seq<u8> {
    if at + filesz <= d.len() {
        d.subrange(at, at + filesz)
    } else if at < d.len() {
        d.subrange(at, d.len() as int)
    } else {
        Seq::empty()
    }
}

/// Index of the last `PT_DYNAMIC` header.
pub open spec fn dynamic_index(d: Seq<u8>) -> Option<int> {
    last_index_of_type(program_headers_of(d), ProgramType::Dynamic)
}

/// Index of the last `PT_SCE_DYNLIBDATA` header.
pub open spec fn dynlib_index(d: Seq<u8>) -> Option<int> {
    last_index_of_type(program_headers_of(d), ProgramType::SceDynlibData)
}

/// The file offset of program header `i`'s data.
pub open spec fn resolved_for(d: Seq<u8>, i: int) -> Option<u64> {
    resolved_offset(
        is_self_file(d),
        self_segments_of(d),
        program_headers_of(d),
        i,
        program_headers_of(d)[i],
        elf_start(d) as int,
    )
}

/// Locating the dynamic table or the dynamic library data overflows 64 bits.
pub open spec fn tail_overflows(d: Seq<u8>) -> bool {
    ||| (dynamic_index(d) matches Some(i) && resolved_for(d, i) is None)
    ||| (dynlib_index(d) matches Some(i) && (resolved_for(d, i) is None || resolved_for(d, i).unwrap()
        + program_headers_of(d)[i].filesz > u64::MAX))
}

/// Parsing `d` would overflow 64-bit offset arithmetic.
pub open spec fn parse_overflows(d: Seq<u8>) -> bool {
    prelude_error(d) is None && (ph_table_overflows(d) || (!ph_table_short(d) && tail_overflows(
        d,
    )))
}

/// The error that parsing `d` reports, if any (meaningful when it does not overflow).
pub open spec fn parse_error(d: Seq<u8>) -> Option<ElfError> {
    match prelude_error(d) {
        Some(e) => Some(e),
        None => if ph_table_short(d) {
            Some(ElfError::Io)
        } else {
            None
        },
    }
}

/// The dynamic entries of `d`.
pub open spec fn dynamic_entries_of(d: Seq<u8>) -> Seq<DynamicEntry> {
    match dynamic_index(d) {
        Some(i) => dynamic_entries_from(
            d,
            resolved_for(d, i).unwrap() as int,
            program_headers_of(d)[i].filesz as int,
        ),
        None => Seq::empty(),
    }
}

/// The dynamic library data of `d`.
pub open spec fn dynlib_data_of(d: Seq<u8>) -> Seq<u8> {
    match dynlib_index(d) {
        Some(i) => dynlib_from(
            d,
            resolved_for(d, i).unwrap() as int,
            program_headers_of(d)[i].filesz as int,
        ),
        None => Seq::empty(),
    }
}


// ============================================================================
// The parser
// ============================================================================

/// A parsed ELF/SELF file.
#[derive(Debug)]
pub struct Elf {
    /// True if the file has a SELF header.
    pub is_self: bool,
    /// SELF header (if present).
    pub self_header: Option<SelfHeader>,
    /// SELF segment headers (if present).
    pub self_segments: Vec<SelfSegmentHeader>,
    /// ELF header.
    pub header: ElfHeader,
    /// Program headers.
    pub program_headers: Vec<ProgramHeader>,
    /// Dynamic entries (from PT_DYNAMIC).
    pub dynamic_entries: Vec<DynamicEntry>,
    /// Raw dynamic library data (from PT_SCE_DYNLIBDATA).
    pub dynlib_data: Vec<u8>,
    /// The raw file data.
    pub data: Vec<u8>,
}

impl Elf {
    /// This value is what parsing `d` yields.
    pub open spec fn parsed_from(&self, d: Seq<u8>) -> bool {
        &&& self.data@ == d
        &&& self.is_self == is_self_file(d)
        &&& (is_self_file(d) ==> self.self_header == Some(self_header_at(d)))
        &&& (!is_self_file(d) ==> self.self_header is None)
        &&& self.self_segments@ == self_segments_of(d)
        &&& header_matches(self.header, d, elf_start(d) as int)
        &&& self.program_headers@ == program_headers_of(d)
        &&& self.dynamic_entries@ == dynamic_entries_of(d)
        &&& self.dynlib_data@ == dynlib_data_of(d)
    }
}

/// Reads the SELF header at the start of `d`.
fn read_self_header(d: &[u8]) -> (r: SelfHeader)
    requires
        d@.len() >= 32,
    ensures
        r == self_header_at(d@),
{
    proof {
        crate::bytes::lemma_pow256_values();
        crate::bytes::lemma_le_bound(d@, 10, 2);
        crate::bytes::lemma_le_bound(d@, 12, 2);
        crate::bytes::lemma_le_bound(d@, 14, 2);
        crate::bytes::lemma_le_bound(d@, 16, 4);
        crate::bytes::lemma_le_bound(d@, 20, 4);
        crate::bytes::lemma_le_bound(d@, 24, 2);
        crate::bytes::lemma_le_bound(d@, 26, 2);
        crate::bytes::lemma_le_bound(d@, 28, 4);
        crate::bytes::lemma_le_bound(d@, 0, 4);
    }
    SelfHeader {
        magic: read_u32_le(d, 0),
        version: d[4],
        mode: d[5],
        endian: d[6],
        attributes: d[7],
        category: d[8],
        program_type: d[9],
        padding1: read_u16_le(d, 10),
        header_size: read_u16_le(d, 12),
        meta_size: read_u16_le(d, 14),
        file_size: read_u32_le(d, 16),
        padding2: read_u32_le(d, 20),
        segment_count: read_u16_le(d, 24),
        unknown_1a: read_u16_le(d, 26),
        padding3: read_u32_le(d, 28),
    }
}

/// Reads `count` SELF segment headers following the SELF header.
fn read_self_segments(d: &[u8], count: u16) -> (r: Vec<SelfSegmentHeader>)
    requires
        32 + 32 * count <= d@.len(),
    ensures
        r@ == Seq::new(count as nat, |i: int| self_segment_at(d@, 32 + 32 * i)),
{
    let mut segs: Vec<SelfSegmentHeader> = Vec::new();
    let mut i: usize = 0;
    while i < count as usize
        invariant
            i <= count,
            32 + 32 * count <= d@.len(),
            segs@ == Seq::new(i as nat, |k: int| self_segment_at(d@, 32 + 32 * k)),
        decreases count - i,
    {
        let o: usize = 32 + 32 * i;
        let seg = SelfSegmentHeader {
            flags: read_u64_le(d, o),
            file_offset: read_u64_le(d, o + 8),
            file_size: read_u64_le(d, o + 16),
            memory_size: read_u64_le(d, o + 24),
        };
        segs.push(seg);
        i = i + 1;
        assert(segs@ =~= Seq::new(i as nat, |k: int| self_segment_at(d@, 32 + 32 * k)));
    }
    segs
}

/// Reads the ELF header at offset `e`, checking the identification as it goes.
fn read_elf_header(d: &[u8], e: usize) -> (r: Result<ElfHeader, ElfError>)
    requires
        e <= d@.len(),
    ensures
        match header_error(d@, e as int) {
            Some(err) => r == Err::<ElfHeader, ElfError>(err),
            None => r is Ok && header_matches(r->Ok_0, d@, e as int),
        },
{
    let n = d.len();
    if n - e < 4 {
        return Err(ElfError::Io);
    }
    let magic: [u8; 4] = [d[e], d[e + 1], d[e + 2], d[e + 3]];
    if !(magic[0] == 0x7F && magic[1] == 0x45 && magic[2] == 0x4C && magic[3] == 0x46) {
        return Err(ElfError::NotElf);
    }
    if n - e < 5 {
        return Err(ElfError::Io);
    }
    let class = d[e + 4];
    if class != 2 {
        return Err(ElfError::Not64Bit(class));
    }
    if n - e < 6 {
        return Err(ElfError::Io);
    }
    let data = d[e + 5];
    if data != 1 {
        return Err(ElfError::NotLittleEndian(data));
    }
    if n - e < 20 {
        return Err(ElfError::Io);
    }
    proof {
        crate::bytes::lemma_pow256_values();
        crate::bytes::lemma_le_bound(d@, e + 16, 2);
        crate::bytes::lemma_le_bound(d@, e + 18, 2);
    }
    let machine = read_u16_le(d, e + 18);
    if machine != 62 {
        return Err(ElfError::NotX86_64(machine));
    }
    if n - e < 64 {
        return Err(ElfError::Io);
    }
    let padding: [u8; 7] = [d[e + 9], d[e + 10], d[e + 11], d[e + 12], d[e + 13], d[e + 14], d[e + 15]];
    let ident = ElfIdent {
        magic,
        class,
        data,
        version: d[e + 6],
        os_abi: d[e + 7],
        abi_version: d[e + 8],
        padding,
    };
    let elf_type_raw = read_u16_le(d, e + 16);
    let h = ElfHeader {
        ident,
        elf_type: ElfType::from(elf_type_raw),
        machine,
        version: read_u32_le(d, e + 20),
        entry: read_u64_le(d, e + 24),
        phoff: read_u64_le(d, e + 32),
        shoff: read_u64_le(d, e + 40),
        flags: read_u32_le(d, e + 48),
        ehsize: read_u16_le(d, e + 52),
        phentsize: read_u16_le(d, e + 54),
        phnum: read_u16_le(d, e + 56),
        shentsize: read_u16_le(d, e + 58),
        shnum: read_u16_le(d, e + 60),
        shstrndx: read_u16_le(d, e + 62),
    };
    assert(h.ident.magic@ =~= d@.subrange(e as int, e + 4));
    assert(h.ident.padding@ =~= d@.subrange(e + 9, e + 16));
    Ok(h)
}

/// Reads the program header at offset `o`.
fn read_program_header(d: &[u8], o: usize) -> (r: ProgramHeader)
    requires
        o + 56 <= d.len(),
    ensures
        r == program_header_at(d@, o as int),
{
    let type_raw = read_u32_le(d, o);
    let flags_raw = read_u32_le(d, o + 4);
    ProgramHeader {
        phdr_type: ProgramType::from(type_raw),
        flags: ProgramFlags::from_bits_truncate(flags_raw),
        offset: read_u64_le(d, o + 8),
        vaddr: read_u64_le(d, o + 16),
        paddr: read_u64_le(d, o + 24),
        filesz: read_u64_le(d, o + 32),
        memsz: read_u64_le(d, o + 40),
        align: read_u64_le(d, o + 48),
    }
}

/// Reads `phnum` program headers from offset `start`; `Io` when the table runs past the data.
fn read_program_headers(d: &[u8], start: u64, phnum: u16) -> (r: Result<Vec<ProgramHeader>, ElfError>)
    ensures
        (phnum > 0 && start + 56 * phnum > d@.len()) ==> r == Err::<Vec<ProgramHeader>, ElfError>(
            ElfError::Io,
        ),
        !(phnum > 0 && start + 56 * phnum > d@.len()) ==> r is Ok && r->Ok_0@ == Seq::new(
            phnum as nat,
            |i: int| program_header_at(d@, start + 56 * i),
        ),
{
    if phnum > 0 && (start > d.len() as u64 || (d.len() as u64) - start < 56 * (phnum as u64)) {
        return Err(ElfError::Io);
    }
    let mut phs: Vec<ProgramHeader> = Vec::new();
    let mut i: u64 = 0;
    while i < phnum as u64
        invariant
            i <= phnum,
            d@.len() == d.len(),
            phnum > 0 ==> start + 56 * phnum <= d@.len(),
            phs@ == Seq::new(i as nat, |k: int| program_header_at(d@, start + 56 * k)),
        decreases phnum - i,
    {
        let o = (start + 56 * i) as usize;
        assert(o == start + 56 * i);
        let ph = read_program_header(d, o);
        phs.push(ph);
        i = i + 1;
        assert(phs@ =~= Seq::new(i as nat, |k: int| program_header_at(d@, start + 56 * k)));
    }
    assert(phs@ =~= Seq::new(phnum as nat, |k: int| program_header_at(d@, start + 56 * k)));
    Ok(phs)
}

/// The last index of a type is a valid index holding that type.
pub proof fn lemma_last_index_in_range(phs: Seq<ProgramHeader>, t: ProgramType)
    ensures
        last_index_of_type(phs, t) matches Some(i) ==> 0 <= i < phs.len() && phs[i].phdr_type == t,
    decreases phs.len(),
{
    if phs.len() > 0 && phs.last().phdr_type != t {
        lemma_last_index_in_range(phs.drop_last(), t);
    }
}

/// Adding one more element at the end either finds a later match or keeps the old one.
proof fn lemma_last_index_push(phs: Seq<ProgramHeader>, i: int, t: ProgramType)
    requires
        0 <= i < phs.len(),
    ensures
        last_index_of_type(phs.take(i + 1), t) == (if phs[i].phdr_type == t {
            Some(i)
        } else {
            last_index_of_type(phs.take(i), t)
        }),
{
    assert(phs.take(i + 1).drop_last() =~= phs.take(i));
}

/// The index of the last program header of type `t`.
fn find_last_of_type(phs: &Vec<ProgramHeader>, t: ProgramType) -> (r: Option<usize>)
    ensures
        match last_index_of_type(phs@, t) {
            Some(i) => r == Some(i as usize),
            None => r is None,
        },
        r matches Some(i) ==> i < phs@.len() && phs@[i as int].phdr_type == t
            && last_index_of_type(phs@, t) == Some(i as int),
        r is None ==> last_index_of_type(phs@, t) is None,
{
    proof {
        lemma_last_index_in_range(phs@, t);
    }
    let mut found: Option<usize> = None;
    let mut i: usize = 0;
    while i < phs.len()
        invariant
            i <= phs@.len(),
            match last_index_of_type(phs@.take(i as int), t) {
                Some(k) => found == Some(k as usize),
                None => found is None,
            },
        decreases phs.len() - i,
    {
        proof {
            lemma_last_index_push(phs@, i as int, t);
        }
        if phs[i].phdr_type == t {
            found = Some(i);
        }
        i = i + 1;
    }
    assert(phs@.take(phs@.len() as int) =~= phs@);
    found
}

/// Where the data of program header `ph` (number `idx`) lies in the file, or `None` when
/// computing it overflows 64 bits.
pub(crate) fn resolve_checked(
    is_self: bool,
    segs: &[SelfSegmentHeader],
    phs: &[ProgramHeader],
    idx: usize,
    ph: &ProgramHeader,
    e: u64,
) -> (r: Option<u64>)
    ensures
        r == resolved_offset(is_self, segs@, phs@, idx as int, *ph, e as int),
{
    if !is_self {
        return Some(ph.offset);
    }
    // A segment that carries this program header directly.
    let mut j: usize = 0;
    while j < segs.len()
        invariant
            is_self,
            j <= segs@.len(),
            direct_segment(segs@, idx as int, 0) == direct_segment(segs@, idx as int, j as int),
        decreases segs.len() - j,
    {
        if segs[j].is_blocked() && segs[j].get_id() as usize == idx {
            assert(direct_segment(segs@, idx as int, j as int) == Some(j as int));
            assert(resolved_offset(is_self, segs@, phs@, idx as int, *ph, e as int) == Some(
                segs@[j as int].file_offset,
            ));
            return Some(segs[j].file_offset);
        }
        j = j + 1;
    }
    // A blocked segment whose program header's file range contains this offset.
    let target = ph.offset;
    let mut j: usize = 0;
    while j < segs.len()
        invariant
            is_self,
            target == ph.offset,
            direct_segment(segs@, idx as int, 0) is None,
            j <= segs@.len(),
            containing_offset(segs@, phs@, target, e as int, 0) == containing_offset(
                segs@,
                phs@,
                target,
                e as int,
                j as int,
            ),
        decreases segs.len() - j,
    {
        let seg = &segs[j];
        if seg.is_blocked() {
            let parent = seg.get_id() as usize;
            if parent < phs.len() {
                let p = &phs[parent];
                if target >= p.offset {
                    if p.filesz > u64::MAX - p.offset {
                        assert(containing_offset(segs@, phs@, target, e as int, j as int) is None);
                        return None;
                    }
                    if target < p.offset + p.filesz {
                        let within = target - p.offset;
                        if within > u64::MAX - seg.file_offset {
                            assert(containing_offset(segs@, phs@, target, e as int, j as int) is None);
                            return None;
                        }
                        return Some(seg.file_offset + within);
                    }
                }
            }
        }
        j = j + 1;
    }
    if target > u64::MAX - e {
        return None;
    }
    Some(e + target)
}

/// Reads the dynamic table from offset `at` for a segment of `filesz` bytes.
fn read_dynamic_entries(d: &[u8], at: u64, filesz: u64) -> (r: Vec<DynamicEntry>)
    ensures
        r@ == dynamic_entries_from(d@, at as int, filesz as int),
{
    let mut entries: Vec<DynamicEntry> = Vec::new();
    if at >= d.len() as u64 {
        return entries;
    }
    let kmax = filesz / 16;
    let ghost dl = dynamic_len(d@, at as int, kmax as int, 0);
    let mut j: u64 = 0;
    while j < kmax
        invariant
            at < d@.len(),
            d@.len() == d.len(),
            kmax == filesz / 16,
            j <= kmax,
            at + 16 * j <= d@.len(),
            dl == dynamic_len(d@, at as int, kmax as int, 0),
            dynamic_len(d@, at as int, kmax as int, j as int) == dl,
            entries@ == Seq::new(j as nat, |k: int| dynamic_entry_at(d@, at + 16 * k)),
        ensures
            entries@ == Seq::new(dl as nat, |k: int| dynamic_entry_at(d@, at + 16 * k)),
        decreases kmax - j,
    {
        let o = at + 16 * j;
        if (d.len() as u64) - o < 16 {
            assert(!dynamic_continues(d@, at as int, kmax as int, j as int));
            break;
        }
        let tag = read_i64_le(d, o as usize);
        let value = read_u64_le(d, (o + 8) as usize);
        if tag == sce_dynamic::DT_NULL {
            proof {
                assert(((le(d@, o as int, 8) as u64) as i64 == 0) ==> le(d@, o as int, 8) == 0) by {
                    crate::bytes::lemma_le_bound(d@, o as int, 8);
                    crate::bytes::lemma_pow256_values();
                    let x = le(d@, o as int, 8) as u64;
                    assert((x as i64 == 0) ==> x == 0) by (bit_vector);
                }
                assert(!dynamic_continues(d@, at as int, kmax as int, j as int));
            }
            break;
        }
        entries.push(DynamicEntry { tag, value });
        j = j + 1;
        assert(entries@ =~= Seq::new(j as nat, |k: int| dynamic_entry_at(d@, at + 16 * k)));
    }
    entries
}


/// A copy of `d[start..end]`.
pub fn copy_range(d: &[u8], start: usize, end: usize) -> (r: Vec<u8>)
    requires
        start <= end <= d@.len(),
    ensures
        r@ == d@.subrange(start as int, end as int),
{
    let mut out: Vec<u8> = Vec::new();
    let mut i = start;
    while i < end
        invariant
            start <= i <= end <= d@.len(),
            out@ == d@.subrange(start as int, i as int),
        decreases end - i,
    {
        out.push(d[i]);
        i = i + 1;
        assert(out@ =~= d@.subrange(start as int, i as int));
    }
    out
}

/// The dynamic library data read from offset `at` for a segment of `filesz` bytes.
fn read_dynlib(d: &[u8], at: u64, filesz: u64) -> (r: Vec<u8>)
    requires
        at + filesz <= u64::MAX,
    ensures
        r@ == dynlib_from(d@, at as int, filesz as int),
{
    let n = d.len() as u64;
    let end = at + filesz;
    if end <= n {
        copy_range(d, at as usize, end as usize)
    } else if at < n {
        copy_range(d, at as usize, d.len())
    } else {
        Vec::new()
    }
}

/// The program headers of type `t`, in table order.
pub open spec fn headers_of_type(phs: Seq<ProgramHeader>, t: ProgramType) -> Seq<ProgramHeader>
    decreases phs.len(),
{
    if phs.len() == 0 {
        Seq::empty()
    } else if phs.last().phdr_type == t {
        headers_of_type(phs.drop_last(), t).push(phs.last())
    } else {
        headers_of_type(phs.drop_last(), t)
    }
}

/// The index of the first program header of type `t`, from index `j` on.
pub open spec fn first_index_of_type(phs: Seq<ProgramHeader>, t: ProgramType, j: int) -> Option<int>
    decreases phs.len() - j,
{
    if j < 0 || j >= phs.len() {
        None
    } else if phs[j].phdr_type == t {
        Some(j)
    } else {
        first_index_of_type(phs, t, j + 1)
    }
}

/// The index of the first dynamic entry with tag `tag`, from index `j` on.
pub open spec fn first_tag_index(entries: Seq<DynamicEntry>, tag: i64, j: int) -> Option<int>
    decreases entries.len() - j,
{
    if j < 0 || j >= entries.len() {
        None
    } else if entries[j].tag == tag {
        Some(j)
    } else {
        first_tag_index(entries, tag, j + 1)
    }
}

/// The value of the first dynamic entry with tag `tag`.
pub open spec fn first_dynamic_value(entries: Seq<DynamicEntry>, tag: i64) -> Option<u64> {
    match first_tag_index(entries, tag, 0) {
        Some(i) => Some(entries[i].value),
        None => None,
    }
}

/// A found first index is a valid index with the wanted type.
pub proof fn lemma_first_index_in_range(phs: Seq<ProgramHeader>, t: ProgramType, j: int)
    ensures
        first_index_of_type(phs, t, j) matches Some(i) ==> j <= i < phs.len() && phs[i].phdr_type
            == t,
    decreases phs.len() - j,
{
    if 0 <= j < phs.len() && phs[j].phdr_type != t {
        lemma_first_index_in_range(phs, t, j + 1);
    }
}

/// A found first tag index is a valid index with the wanted tag.
pub proof fn lemma_first_tag_in_range(entries: Seq<DynamicEntry>, tag: i64, j: int)
    ensures
        first_tag_index(entries, tag, j) matches Some(i) ==> j <= i < entries.len()
            && entries[i].tag == tag,
    decreases entries.len() - j,
{
    if 0 <= j < entries.len() && entries[j].tag != tag {
        lemma_first_tag_in_range(entries, tag, j + 1);
    }
}

impl Elf {
    /// Parses an ELF/SELF image; `None` exactly where the offset arithmetic would overflow.
    pub fn try_parse(data: Vec<u8>) -> (r: Option<Result<Elf, ElfError>>)
        ensures
            parse_overflows(data@) <==> r is None,
            r matches Some(res) ==> match res {
                Ok(elf) => parse_error(data@) is None && elf.parsed_from(data@),
                Err(e) => parse_error(data@) == Some(e),
            },
    {
        let ghost dd = data@;
        let d = data.as_slice();
        let n = d.len();
        if n < 4 {
            return Some(Err(ElfError::Io));
        }
        let first = read_u32_le(d, 0);
        let is_self = first == SELF_MAGIC;
        let mut self_header: Option<SelfHeader> = None;
        let mut segs: Vec<SelfSegmentHeader> = Vec::new();
        let mut e: usize = 0;
        if is_self {
            if n < 32 {
                return Some(Err(ElfError::Io));
            }
            let sh = read_self_header(d);
            let count = sh.segment_count;
            proof {
                crate::bytes::lemma_le_bound(dd, 24, 2);
                crate::bytes::lemma_pow256_values();
            }
            if 32 + 32 * (count as u64) > n as u64 {
                return Some(Err(ElfError::Io));
            }
            segs = read_self_segments(d, count);
            e = 32 + 32 * (count as usize);
            self_header = Some(sh);
        }
        assert(e == elf_start(dd));
        assert(segs@ =~= self_segments_of(dd));
        let header = match read_elf_header(d, e) {
            Ok(h) => h,
            Err(err) => {
                return Some(Err(err));
            },
        };
        if header.phoff > u64::MAX - (e as u64) {
            return None;
        }
        let start = (e as u64) + header.phoff;
        let phs = match read_program_headers(d, start, header.phnum) {
            Ok(v) => v,
            Err(err) => {
                return Some(Err(err));
            },
        };
        assert(phs@ =~= program_headers_of(dd));
        assert(prelude_error(dd) is None);
        assert(!ph_table_overflows(dd));
        assert(!ph_table_short(dd));
        let dyn_idx = find_last_of_type(&phs, ProgramType::Dynamic);
        let dl_idx = find_last_of_type(&phs, ProgramType::SceDynlibData);
        let mut dynamic_entries: Vec<DynamicEntry> = Vec::new();
        if let Some(i) = dyn_idx {
            assert(dynamic_index(dd) == Some(i as int));
            match resolve_checked(is_self, segs.as_slice(), phs.as_slice(), i, &phs[i], e as u64) {
                Some(at) => {
                    assert(resolved_for(dd, i as int) == Some(at));
                    dynamic_entries = read_dynamic_entries(d, at, phs[i].filesz);
                },
                None => {
                    assert(resolved_for(dd, i as int) is None);
                    assert(tail_overflows(dd));
                    return None;
                },
            }
        } else {
            assert(dynamic_index(dd) is None);
        }
        assert(dynamic_entries@ =~= dynamic_entries_of(dd));
        let mut dynlib_data: Vec<u8> = Vec::new();
        if let Some(i) = dl_idx {
            assert(dynlib_index(dd) == Some(i as int));
            match resolve_checked(is_self, segs.as_slice(), phs.as_slice(), i, &phs[i], e as u64) {
                Some(at) => {
                    assert(resolved_for(dd, i as int) == Some(at));
                    if phs[i].filesz > u64::MAX - at {
                        assert(tail_overflows(dd));
                        return None;
                    }
                    dynlib_data = read_dynlib(d, at, phs[i].filesz);
                },
                None => {
                    assert(resolved_for(dd, i as int) is None);
                    assert(tail_overflows(dd));
                    return None;
                },
            }
        } else {
            assert(dynlib_index(dd) is None);
        }
        assert(dynlib_data@ =~= dynlib_data_of(dd));
        assert(!tail_overflows(dd));
        let elf = Elf {
            is_self,
            self_header,
            self_segments: segs,
            header,
            program_headers: phs,
            dynamic_entries,
            dynlib_data,
            data,
        };
        Some(Ok(elf))
    }

    /// Parses an ELF/SELF image from raw bytes.
    pub fn parse(data: Vec<u8>) -> (r: Result<Elf, ElfError>)
        requires
            !parse_overflows(data@),
        ensures
            match r {
                Ok(elf) => parse_error(data@) is None && elf.parsed_from(data@),
                Err(e) => parse_error(data@) == Some(e),
            },
    {
        match Self::try_parse(data) {
            Some(res) => res,
            None => Err(ElfError::Io),
        }
    }
}


/// The first program header of type `t`.
fn find_first_of_type(phs: &Vec<ProgramHeader>, t: ProgramType) -> (r: Option<&ProgramHeader>)
    ensures
        match first_index_of_type(phs@, t, 0) {
            Some(i) => r == Some(&phs@[i]),
            None => r is None,
        },
{
    proof {
        lemma_first_index_in_range(phs@, t, 0);
    }
    let mut i: usize = 0;
    while i < phs.len()
        invariant
            i <= phs@.len(),
            first_index_of_type(phs@, t, 0) == first_index_of_type(phs@, t, i as int),
        decreases phs.len() - i,
    {
        if phs[i].phdr_type == t {
            return Some(&phs[i]);
        }
        i = i + 1;
    }
    None
}

impl Elf {
    /// The ELF data offset: past the SELF header and its segment table, if any.
    pub open spec fn elf_offset_spec(&self) -> u64 {
        if self.is_self {
            match self.self_header {
                Some(sh) => (32 + sh.segment_count * 32) as u64,
                None => 0,
            }
        } else {
            0
        }
    }

    /// Returns true if this is a shared library (.sprx).
    pub fn is_shared_lib(&self) -> (r: bool)
        ensures
            r == (self.header.elf_type == ElfType::SceDynamic),
    {
        self.header.elf_type == ElfType::SceDynamic
    }

    /// The entry point virtual address.
    pub fn entry_point(&self) -> (r: u64)
        ensures
            r == self.header.entry,
    {
        self.header.entry
    }

    /// The raw file data.
    pub fn raw_data(&self) -> (r: &[u8])
        ensures
            r@ == self.data@,
    {
        self.data.as_slice()
    }

    /// The ELF data offset (after the SELF header, if any).
    pub fn elf_offset(&self) -> (r: u64)
        ensures
            r == self.elf_offset_spec(),
    {
        if self.is_self {
            match &self.self_header {
                Some(sh) => 32 + (sh.segment_count as u64) * 32,
                None => 0,
            }
        } else {
            0
        }
    }

    /// All program headers.
    pub fn program_headers(&self) -> (r: &[ProgramHeader])
        ensures
            r@ == self.program_headers@,
    {
        self.program_headers.as_slice()
    }

    /// The `PT_LOAD` program headers, in table order.
    pub fn load_segments(&self) -> (r: Vec<ProgramHeader>)
        ensures
            r@ == headers_of_type(self.program_headers@, ProgramType::Load),
    {
        let mut out: Vec<ProgramHeader> = Vec::new();
        let mut i: usize = 0;
        while i < self.program_headers.len()
            invariant
                i <= self.program_headers@.len(),
                out@ == headers_of_type(self.program_headers@.take(i as int), ProgramType::Load),
            decreases self.program_headers.len() - i,
        {
            let ph = self.program_headers[i];
            assert(self.program_headers@.take(i + 1).drop_last() =~= self.program_headers@.take(
                i as int,
            ));
            if ph.phdr_type == ProgramType::Load {
                out.push(ph);
            }
            i = i + 1;
        }
        assert(self.program_headers@.take(i as int) =~= self.program_headers@);
        out
    }

    /// Where the data of program header `phdr` (number `phdr_idx`) lies in the file.
    pub fn resolve_file_offset(&self, phdr_idx: usize, phdr: &ProgramHeader) -> (r: u64)
        requires
            resolved_offset(
                self.is_self,
                self.self_segments@,
                self.program_headers@,
                phdr_idx as int,
                *phdr,
                self.elf_offset_spec() as int,
            ) is Some,
        ensures
            Some(r) == resolved_offset(
                self.is_self,
                self.self_segments@,
                self.program_headers@,
                phdr_idx as int,
                *phdr,
                self.elf_offset_spec() as int,
            ),
    {
        let e = self.elf_offset();
        match resolve_checked(
            self.is_self,
            self.self_segments.as_slice(),
            self.program_headers.as_slice(),
            phdr_idx,
            phdr,
            e,
        ) {
            Some(v) => v,
            None => 0,
        }
    }

    /// The first TLS program header, if any.
    pub fn tls_header(&self) -> (r: Option<&ProgramHeader>)
        ensures
            match first_index_of_type(self.program_headers@, ProgramType::Tls, 0) {
                Some(i) => r == Some(&self.program_headers@[i]),
                None => r is None,
            },
    {
        find_first_of_type(&self.program_headers, ProgramType::Tls)
    }

    /// The first process parameter program header, if any.
    pub fn proc_param_header(&self) -> (r: Option<&ProgramHeader>)
        ensures
            match first_index_of_type(self.program_headers@, ProgramType::SceProcParam, 0) {
                Some(i) => r == Some(&self.program_headers@[i]),
                None => r is None,
            },
    {
        find_first_of_type(&self.program_headers, ProgramType::SceProcParam)
    }

    /// The first GNU EH frame program header, if any.
    pub fn eh_frame_header(&self) -> (r: Option<&ProgramHeader>)
        ensures
            match first_index_of_type(self.program_headers@, ProgramType::GnuEhFrame, 0) {
                Some(i) => r == Some(&self.program_headers@[i]),
                None => r is None,
            },
    {
        find_first_of_type(&self.program_headers, ProgramType::GnuEhFrame)
    }

    /// The value of the first dynamic entry with tag `tag`.
    pub fn dynamic_value(&self, tag: i64) -> (r: Option<u64>)
        ensures
            r == first_dynamic_value(self.dynamic_entries@, tag),
    {
        proof {
            lemma_first_tag_in_range(self.dynamic_entries@, tag, 0);
        }
        let mut i: usize = 0;
        while i < self.dynamic_entries.len()
            invariant
                i <= self.dynamic_entries@.len(),
                first_tag_index(self.dynamic_entries@, tag, 0) == first_tag_index(
                    self.dynamic_entries@,
                    tag,
                    i as int,
                ),
            decreases self.dynamic_entries.len() - i,
        {
            if self.dynamic_entries[i].tag == tag {
                return Some(self.dynamic_entries[i].value);
            }
            i = i + 1;
        }
        None
    }

    /// The bytes of a segment, read at its ELF-relative offset; empty when they run past the
    /// data.
    pub fn segment_data(&self, ph: &ProgramHeader) -> (r: &[u8])
        requires
            self.elf_offset_spec() + ph.offset + ph.filesz <= u64::MAX,
        ensures
            ({
                let start = self.elf_offset_spec() + ph.offset;
                let end = start + ph.filesz;
                if end <= self.data@.len() {
                    r@ == self.data@.subrange(start, end)
                } else {
                    r@ == Seq::<u8>::empty()
                }
            }),
    {
        let offset = self.elf_offset() + ph.offset;
        let end = offset + ph.filesz;
        if end <= self.data.len() as u64 {
            &self.data.as_slice()[offset as usize..end as usize]
        } else {
            &[]
        }
    }

    /// The string at `offset` in the dynamic string table (empty when absent or out of range).
    pub open spec fn dynamic_string(&self, offset: u64) -> Seq<char> {
        match (
            first_dynamic_value(self.dynamic_entries@, sce_dynamic::DT_SCE_STRTAB),
            first_dynamic_value(self.dynamic_entries@, sce_dynamic::DT_SCE_STRSZ),
        ) {
            (Some(off), Some(sz)) => if offset >= sz {
                Seq::empty()
            } else if off + offset >= self.dynlib_data@.len() {
                Seq::empty()
            } else {
                crate::text::utf8_lossy(
                    self.dynlib_data@.subrange(
                        off + offset,
                        crate::text::cstr_end(self.dynlib_data@, off + offset),
                    ),
                )
            },
            _ => Seq::empty(),
        }
    }

    /// Looking up `offset` in the string table would overflow 64 bits.
    pub open spec fn dynamic_string_overflows(&self, offset: u64) -> bool {
        match (
            first_dynamic_value(self.dynamic_entries@, sce_dynamic::DT_SCE_STRTAB),
            first_dynamic_value(self.dynamic_entries@, sce_dynamic::DT_SCE_STRSZ),
        ) {
            (Some(off), Some(sz)) => offset < sz && off + offset > u64::MAX,
            _ => false,
        }
    }

    /// Reads a string from the dynamic string table.
    pub fn get_dynamic_string(&self, offset: u64) -> (r: String)
        requires
            !self.dynamic_string_overflows(offset),
        ensures
            r@ == self.dynamic_string(offset),
    {
        let strtab_off = match self.dynamic_value(sce_dynamic::DT_SCE_STRTAB) {
            Some(v) => v,
            None => {
                return String::new();
            },
        };
        let strtab_sz = match self.dynamic_value(sce_dynamic::DT_SCE_STRSZ) {
            Some(v) => v,
            None => {
                return String::new();
            },
        };
        if offset >= strtab_sz {
            return String::new();
        }
        let start = strtab_off + offset;
        if start >= self.dynlib_data.len() as u64 {
            return String::new();
        }
        let d = self.dynlib_data.as_slice();
        let end = crate::text::find_cstr_end(d, start as usize);
        crate::text::string_from_utf8_lossy(&d[start as usize..end])
    }

    /// Dynamic entries naming a required module.
    pub open spec fn is_needed_tag(tag: i64) -> bool {
        tag == sce_dynamic::DT_NEEDED || tag == sce_dynamic::DT_SCE_IMPORT_LIB
    }

    /// The names of required modules among `entries`, in order, leaving out empty names.
    pub open spec fn needed_names(&self, entries: Seq<DynamicEntry>) -> Seq<Seq<char>>
        decreases entries.len(),
    {
        if entries.len() == 0 {
            Seq::empty()
        } else {
            let rest = self.needed_names(entries.drop_last());
            let e = entries.last();
            if Self::is_needed_tag(e.tag) && self.dynamic_string(e.value).len() > 0 {
                rest.push(self.dynamic_string(e.value))
            } else {
                rest
            }
        }
    }

    /// All required modules (`DT_NEEDED` and `DT_SCE_IMPORT_LIB`).
    pub fn needed_modules(&self) -> (r: Vec<String>)
        requires
            forall|i: int|
                0 <= i < self.dynamic_entries@.len() && Self::is_needed_tag(
                    #[trigger] self.dynamic_entries@[i].tag,
                ) ==> !self.dynamic_string_overflows(self.dynamic_entries@[i].value),
        ensures
            r@.map_values(|s: String| s@) == self.needed_names(self.dynamic_entries@),
    {
        let mut modules: Vec<String> = Vec::new();
        let mut i: usize = 0;
        while i < self.dynamic_entries.len()
            invariant
                i <= self.dynamic_entries@.len(),
                forall|k: int|
                    0 <= k < self.dynamic_entries@.len() && Self::is_needed_tag(
                        #[trigger] self.dynamic_entries@[k].tag,
                    ) ==> !self.dynamic_string_overflows(self.dynamic_entries@[k].value),
                modules@.map_values(|s: String| s@) == self.needed_names(
                    self.dynamic_entries@.take(i as int),
                ),
            decreases self.dynamic_entries.len() - i,
        {
            let entry = self.dynamic_entries[i];
            assert(self.dynamic_entries@.take(i + 1).drop_last() =~= self.dynamic_entries@.take(
                i as int,
            ));
            if entry.tag == sce_dynamic::DT_NEEDED || entry.tag == sce_dynamic::DT_SCE_IMPORT_LIB {
                let name = self.get_dynamic_string(entry.value);
                if !name.as_str().is_empty() {
                    let ghost before = modules@;
                    modules.push(name);
                    assert(modules@.map_values(|s: String| s@) =~= before.map_values(
                        |s: String| s@,
                    ).push(name@));
                }
            }
            i = i + 1;
        }
        assert(self.dynamic_entries@.take(i as int) =~= self.dynamic_entries@);
        modules
    }
}

} // verus!
