//! Dynamic section tags, standard and SCE-specific.
use vstd::prelude::*;

verus! {

pub const DT_NULL: i64 = 0;
pub const DT_NEEDED: i64 = 0x0000_0001;
pub const DT_RELA: i64 = 0x0000_0007;
pub const DT_INIT: i64 = 0x0000_000C;
pub const DT_FINI: i64 = 0x0000_000D;
pub const DT_DEBUG: i64 = 0x0000_0015;
pub const DT_TEXTREL: i64 = 0x0000_0016;
pub const DT_INIT_ARRAY: i64 = 0x0000_0019;
pub const DT_FINI_ARRAY: i64 = 0x0000_001A;
pub const DT_INIT_ARRAYSZ: i64 = 0x0000_001B;
pub const DT_FINI_ARRAYSZ: i64 = 0x0000_001C;
pub const DT_FLAGS: i64 = 0x0000_001E;
pub const DT_PREINIT_ARRAY: i64 = 0x0000_0020;
pub const DT_PREINIT_ARRAYSZ: i64 = 0x0000_0021;

pub const DT_SCE_FINGERPRINT: i64 = 0x6100_0007;
pub const DT_SCE_ORIGINAL_FILENAME: i64 = 0x6100_0009;
pub const DT_SCE_MODULE_INFO: i64 = 0x6100_000D;
pub const DT_SCE_NEEDED_MODULE: i64 = 0x6100_000F;
pub const DT_SCE_MODULE_ATTR: i64 = 0x6100_0011;
pub const DT_SCE_EXPORT_LIB: i64 = 0x6100_0013;
pub const DT_SCE_IMPORT_LIB: i64 = 0x6100_0015;
pub const DT_SCE_IMPORT_LIB_ATTR: i64 = 0x6100_0019;
pub const DT_SCE_HASH: i64 = 0x6100_0025;
pub const DT_SCE_PLTGOT: i64 = 0x6100_0027;
pub const DT_SCE_JMPREL: i64 = 0x6100_0029;
pub const DT_SCE_PLTREL: i64 = 0x6100_002B;
pub const DT_SCE_PLTRELSZ: i64 = 0x6100_002D;
pub const DT_SCE_RELA: i64 = 0x6100_002F;
pub const DT_SCE_RELASZ: i64 = 0x6100_0031;
pub const DT_SCE_RELAENT: i64 = 0x6100_0033;
pub const DT_SCE_STRTAB: i64 = 0x6100_0035;
pub const DT_SCE_STRSZ: i64 = 0x6100_0037;
pub const DT_SCE_SYMTAB: i64 = 0x6100_0039;
pub const DT_SCE_SYMENT: i64 = 0x6100_003B;
pub const DT_SCE_HASHSZ: i64 = 0x6100_003D;
pub const DT_SCE_SYMTABSZ: i64 = 0x6100_003F;

} // verus!
