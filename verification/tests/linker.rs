use anotherps4::hle::stubs::{get_stub_name, StubAllocator};
use anotherps4::linker::init_array_funcs;
use anotherps4::linker::module::{Module, ParsedRelocation, SegmentCopy};
use anotherps4::linker::relocation::{apply_relocation, wrapping_add};
use anotherps4::linker::tls::{TlsImage, TlsManager};
use anotherps4::linker::{patches_eboot_assert, Linker};
use anotherps4::loader::elf::{
    Elf, R_X86_64_64, R_X86_64_DTPMOD64, R_X86_64_JUMP_SLOT, R_X86_64_RELATIVE,
};
use anotherps4::loader::symbols::{SymbolRecord, SymbolType};

fn push_u16(b: &mut Vec<u8>, v: u16) {
    b.extend_from_slice(&v.to_le_bytes());
}
fn push_u32(b: &mut Vec<u8>, v: u32) {
    b.extend_from_slice(&v.to_le_bytes());
}
fn push_u64(b: &mut Vec<u8>, v: u64) {
    b.extend_from_slice(&v.to_le_bytes());
}

/// A little ELF with two LOAD segments and a TLS segment.
fn build_elf() -> Vec<u8> {
    let mut b = Vec::new();
    b.extend_from_slice(&[0x7F, b'E', b'L', b'F', 2, 1, 1, 0]);
    b.extend_from_slice(&[0u8; 8]);
    push_u16(&mut b, 2); // executable
    push_u16(&mut b, 62); // x86-64
    push_u32(&mut b, 1);
    push_u64(&mut b, 0x1010); // entry
    push_u64(&mut b, 64); // phoff
    push_u64(&mut b, 0); // shoff
    push_u32(&mut b, 0);
    push_u16(&mut b, 64);
    push_u16(&mut b, 56);
    push_u16(&mut b, 3); // phnum
    push_u16(&mut b, 0);
    push_u16(&mut b, 0);
    push_u16(&mut b, 0);
    assert_eq!(b.len(), 64);
    let phdr = |b: &mut Vec<u8>, t: u32, off: u64, vaddr: u64, filesz: u64, memsz: u64| {
        push_u32(b, t);
        push_u32(b, 5);
        push_u64(b, off);
        push_u64(b, vaddr);
        push_u64(b, vaddr);
        push_u64(b, filesz);
        push_u64(b, memsz);
        push_u64(b, 0x1000);
    };
    phdr(&mut b, 1, 0, 0x1000, 0x40, 0x2000);
    phdr(&mut b, 1, 0x40, 0x4000, 0x10, 0x800);
    phdr(&mut b, 7, 0x50, 0x4800, 0x8, 0x20);
    b.resize(0x200, 0xAA);
    b
}

#[test]
fn elf_layout_and_copies() {
    let elf = match Elf::try_parse(build_elf()) {
        Some(Ok(e)) => e,
        _ => panic!("the test ELF parses"),
    };
    assert_eq!(elf.load_segments().len(), 2);
    assert_eq!(Module::try_layout(&elf), Some(Some((0x1000, 0x4000))));
    let copies = Module::segment_copies(&elf, 0x10_0000_0000, 0x1000).unwrap();
    assert_eq!(
        copies,
        vec![
            SegmentCopy { dest: 0x10_0000_0000, src_offset: 0, size: 0x40 },
            SegmentCopy { dest: 0x10_0000_3000, src_offset: 0x40, size: 0x10 },
        ]
    );
    // The base cannot lie below the image's start.
    assert_eq!(Module::segment_copies(&elf, 0, 0x1001), None);
    assert_eq!(Module::parse_relocations(&elf).map(|v| v.len()), Some(0));

    let mut linker = Linker::new();
    let index = linker
        .load_parsed("eboot.bin".to_string(), b"/g/eboot.bin".to_vec(), elf, 0x10_0000_0000, 0x1000, 0x4000)
        .expect("module builds");
    assert_eq!(index, 0);
    assert_eq!(linker.module_count(), 1);
    assert_eq!(linker.find_module("eboot.bin"), Some(0));
    assert_eq!(linker.find_module("libc.prx"), None);
    let m = linker.get_module(0).unwrap();
    assert_eq!(m.tls_index, 1);
    assert_eq!(m.tls_image_addr, 0x10_0000_3800);
    assert_eq!(m.tls_image_size, 8);
    assert_eq!(m.tls_size, 0x20);
    assert_eq!(m.init_addr, 0);
    assert_eq!(m.min_addr, 0x1000);
    assert_eq!(m.aligned_base_size, 0x4000);
    assert_eq!(m.base_virtual_addr, 0x10_0000_0000);
    assert_eq!(linker.entry_point(), Some(0x10_0000_1010));
    assert_eq!(linker.get_dt_init_funcs(), Vec::<u64>::new());
    let mut stubs: Option<StubAllocator> = None;
    assert_eq!(linker.relocate_all(&mut stubs), Some(vec![]));

    // A second module with a TLS segment takes the next TLS index.
    let elf2 = match Elf::try_parse(build_elf()) {
        Some(Ok(e)) => e,
        _ => panic!("the test ELF parses"),
    };
    let index2 = linker
        .load_parsed("libc.prx".to_string(), b"/g/libc.prx".to_vec(), elf2, 0x20_0000_0000, 0x1000, 0x4000)
        .expect("module builds");
    assert_eq!(index2, 1);
    let m2 = linker.get_module(1).unwrap();
    assert_eq!(m2.tls_index, 2);
    assert_eq!(m2.tls_image_addr, 0x20_0000_3800);

    // Loading a module of a name loaded already gives its index back and changes nothing.
    let elf3 = match Elf::try_parse(build_elf()) {
        Some(Ok(e)) => e,
        _ => panic!("the test ELF parses"),
    };
    let again = linker.load_parsed("eboot.bin".to_string(), Vec::new(), elf3, 0x30_0000_0000, 0x1000, 0x4000);
    assert_eq!(again, Some(0));
    assert_eq!(linker.module_count(), 2);
    assert_eq!(linker.get_module(0).unwrap().base_virtual_addr, 0x10_0000_0000);
    assert_eq!(linker.get_module(1).unwrap().tls_index, 2);
}

#[test]
fn elf_without_load_segments() {
    let mut data = build_elf();
    // Turn both LOAD segments into NULL segments.
    data[64] = 0;
    data[64 + 56] = 0;
    let elf = match Elf::try_parse(data) {
        Some(Ok(e)) => e,
        _ => panic!("the test ELF parses"),
    };
    assert_eq!(Module::try_layout(&elf), Some(None));
}

fn reloc(rel_type: u32, offset: u64, addend: i64, name: &str) -> ParsedRelocation {
    ParsedRelocation {
        offset,
        rel_type,
        addend,
        symbol_name: name.to_string(),
        symbol_binding: 1,
        symbol_type: 2,
        is_jmp_rel: false,
    }
}

#[test]
fn relocation_values() {
    let mut linker = Linker::new();
    linker.hle_symbols_mut().add_symbol(
        "malloc".to_string(),
        SymbolRecord {
            name: "malloc".to_string(),
            virtual_address: 0x5000,
            sym_type: SymbolType::Function,
            library: "libc".to_string(),
            module: String::new(),
        },
    );
    let hle = linker.hle_symbols();
    let mut stubs = Some(StubAllocator::new(0x9000_0000));
    let base = 0x10_0000_0000;
    assert_eq!(
        apply_relocation(&reloc(R_X86_64_RELATIVE, 0x10, 0x20, ""), base, hle, &[], &mut stubs),
        Some((base + 0x10, base + 0x20))
    );
    assert_eq!(
        apply_relocation(&reloc(R_X86_64_RELATIVE, 0x10, -1, ""), 0, hle, &[], &mut stubs),
        Some((0x10, u64::MAX))
    );
    assert_eq!(
        apply_relocation(&reloc(R_X86_64_DTPMOD64, 8, 0, ""), base, hle, &[], &mut stubs),
        Some((base + 8, 1))
    );
    assert_eq!(apply_relocation(&reloc(99, 8, 0, ""), base, hle, &[], &mut stubs), None);
    assert_eq!(
        apply_relocation(&reloc(R_X86_64_64, 0, 4, "malloc#A#B"), base, hle, &[], &mut stubs),
        Some((base, 0x5004))
    );
    assert_eq!(
        apply_relocation(&reloc(R_X86_64_JUMP_SLOT, 0, 0, ""), base, hle, &[], &mut stubs),
        Some((base, 0))
    );
    // An unresolved import gets a stub named after its known NID.
    assert_eq!(
        apply_relocation(&reloc(R_X86_64_JUMP_SLOT, 0x18, 0, "gQX+4GDQjpM#A#B"), base, hle, &[], &mut stubs),
        Some((base + 0x18, 0x9000_0000))
    );
    assert_eq!(get_stub_name(&stubs, 0), "malloc");
    assert_eq!(
        apply_relocation(&reloc(R_X86_64_JUMP_SLOT, 0x20, 0, "unknownNid#A"), base, hle, &[], &mut stubs),
        Some((base + 0x20, 0x9000_0010))
    );
    assert_eq!(get_stub_name(&stubs, 1), "unknownNid#A");
    assert_eq!(wrapping_add(u64::MAX, 2), 1);
}

#[test]
fn init_arrays() {
    assert_eq!(init_array_funcs(&[0x2000, 0, 0x500, 0x3000], 32), vec![0x2000, 0x3000]);
    assert_eq!(init_array_funcs(&[0x2000, 0x3000, 0x4000], 16), vec![0x2000, 0x3000]);
    assert_eq!(init_array_funcs(&[0x2000, 0, 0x3000], 0), vec![0x2000]);
    assert_eq!(init_array_funcs(&[0x2000], 12), vec![0x2000]);
    let many = vec![0x2000u64; 20000];
    assert_eq!(init_array_funcs(&many, 0).len(), 10001);
}

#[test]
fn eboot_patch_decision() {
    assert!(patches_eboot_assert("eboot.bin", 0xCD, 0x41));
    assert!(!patches_eboot_assert("eboot.bin", 0xCD, 0x40));
    assert!(!patches_eboot_assert("libc.prx", 0xCD, 0x41));
}

#[test]
fn tls_manager_sums_sizes() {
    let mut t = TlsManager::new();
    t.register_image(TlsImage { module_index: 1, align: 16, image_size: 8, total_size: 0x20, image_addr: 0x1000 });
    t.register_image(TlsImage { total_size: 0x40, ..TlsImage::default() });
    assert_eq!(t.image_count(), 2);
    assert_eq!(t.total_static_size(), 0x60);
    assert_eq!(TlsManager::default().total_static_size(), 0);
}
