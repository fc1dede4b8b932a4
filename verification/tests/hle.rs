use anotherps4::hle::dispatcher::{
    classify_sigill, hle_syscall_dispatcher, patch_syscalls, recover_from_fault, sigill_resume,
    Recovery, ResumeRegs, SigillTrap, SyscallOutcome, ThreadFsMap,
};
use anotherps4::hle::exports::{
    buffer_attribute_words, c_string_order, cxa_guard_acquire, cxa_guard_release, dcb_words, early_answer, export_kind,
    fixed_export_result, fread_items, gnm_init_answer, string_copy_goes_on, string_scan_goes_on,
    C_STRING_COPY_LIMIT,
    fread_total, gnm_init_default_hw_state, is_float_function, login_user_id_list, malloc_size,
    pad_neutral_state, pad_open_handle, rand_next, resolution_status_bytes, seek_target,
    submit_buffers_valid, thread_entry_rsp, vsnprintf_copy_len, wait_flip_done_packet, ExportKind,
    PhysMappings, SeekTarget, DIRECT_MEMORY_SIZE, RAND_SEED,
};
use anotherps4::hle::libkernel::{libkernel_export_names, register};
use anotherps4::hle::libraries::register_all_libraries;
use anotherps4::hle::stubs::{
    allocate_stub, fill_stub_slots, get_stub_index, get_stub_name, is_stub, stub_count, StubAllocator,
    MAX_STUBS, STUB_REGION_SIZE,
};
use anotherps4::loader::symbols::SymbolResolver;

#[test]
fn stubs_are_handed_out_in_slots() {
    let mut alloc = Some(StubAllocator::new(0x7000_0000));
    assert_eq!(allocate_stub(&mut alloc, "first".to_string()), 0x7000_0000);
    assert_eq!(allocate_stub(&mut alloc, "second".to_string()), 0x7000_0010);
    assert_eq!(stub_count(&alloc), 2);
    assert!(is_stub(&alloc, 0x7000_0015));
    assert!(!is_stub(&alloc, 0x7000_0020));
    assert_eq!(get_stub_index(&alloc, 0x7000_001F), Some(1));
    assert_eq!(get_stub_name(&alloc, 1), "second");
    assert_eq!(get_stub_name(&alloc, 5), "UnknownStub");
    let mut none: Option<StubAllocator> = None;
    assert_eq!(allocate_stub(&mut none, "x".to_string()), 0);
    assert_eq!(get_stub_name(&none, 0), "UnknownStub");
    assert!(!is_stub(&none, 0));
}

#[test]
fn stub_region_runs_out() {
    let mut alloc = Some(StubAllocator::new(0x1000));
    for i in 0..MAX_STUBS {
        assert_ne!(allocate_stub(&mut alloc, format!("s{i}")), 0);
    }
    assert_eq!(allocate_stub(&mut alloc, "extra".to_string()), 0);
    assert_eq!(stub_count(&alloc), MAX_STUBS);
}

#[test]
fn stub_region_fill() {
    let mut region = vec![0u8; STUB_REGION_SIZE];
    fill_stub_slots(&mut region);
    // xor eax, eax; ret; then nops: every stub returns 0.
    assert_eq!(&region[0..5], &[0x31, 0xC0, 0xC3, 0x90, 0x90]);
    assert_eq!(&region[16..19], &[0x31, 0xC0, 0xC3]);
    assert_eq!(region[15], 0x90);
    assert_eq!(region[STUB_REGION_SIZE - 1], 0x90);
}

#[test]
fn kernel_library_registration() {
    let mut r = SymbolResolver::new();
    let mut stubs = Some(StubAllocator::new(0x1000_0000));
    register(&mut r, &mut stubs);
    let names = libkernel_export_names();
    assert_eq!(names.len(), 103);
    assert_eq!(r.len(), 103);
    assert_eq!(r.resolve("sceKernelAllocateDirectMemory"), Some(0x1000_0000));
    assert_eq!(r.resolve("strlen"), Some(0x1000_0000 + 102 * 16));
    assert_eq!(get_stub_name(&stubs, 0), "sceKernelAllocateDirectMemory");
    let mut r2 = SymbolResolver::new();
    let mut s2 = Some(StubAllocator::new(0x2000_0000));
    register_all_libraries(&mut r2, &mut s2);
    assert_eq!(r2.len(), 103);
}

#[test]
fn syscalls_are_patched_to_traps() {
    let mut code = vec![0x0F, 0x05, 0x90, 0x0F, 0x0F, 0x05, 0x0F];
    assert_eq!(patch_syscalls(&mut code), 2);
    assert_eq!(code, vec![0x0F, 0x0B, 0x90, 0x0F, 0x0F, 0x0B, 0x0F]);
    let mut one = vec![0x0F];
    assert_eq!(patch_syscalls(&mut one), 0);
}

#[test]
fn patching_twice_patches_nothing_more() {
    let mut code = vec![0x0F, 0x05, 0x0F, 0x05, 0x05, 0x0F];
    assert_eq!(patch_syscalls(&mut code), 2);
    let once = code.clone();
    assert_eq!(patch_syscalls(&mut code), 0);
    assert_eq!(code, once);
    assert!(!code.windows(2).any(|w| w == [0x0F, 0x05]));
}

#[test]
fn syscall_dispatch() {
    assert_eq!(hle_syscall_dispatcher(1, 0, 0, 0, 0, 0, 0), SyscallOutcome::Exit);
    assert_eq!(hle_syscall_dispatcher(20, 1, 2, 3, 4, 5, 6), SyscallOutcome::Return(0));
}

#[test]
fn thread_fs_map() {
    let mut m = ThreadFsMap::new();
    m.register_thread_fs(10, 0xAAAA);
    m.register_thread_fs(11, 0xBBBB);
    m.register_thread_fs(10, 0xCCCC);
    assert_eq!(m.get_thread_fs(10), 0xCCCC);
    assert_eq!(m.get_thread_fs(11), 0xBBBB);
    assert_eq!(m.get_thread_fs(12), 0);
}

#[test]
fn fault_recovery() {
    let guest = 0x10_0000_1000u64;
    // The second frame returns into guest code.
    let frames = [(0x8000, 0x55), (0x9000, guest)];
    assert_eq!(
        recover_from_fault(0, 0x7000, 0x6F00, &frames, 0),
        Some(Recovery { rip: guest, rbp: 0x9000, rsp: 0x8000 + 16 })
    );
    // No frame does; the word at the stack pointer does: a `ret` is simulated.
    assert_eq!(
        recover_from_fault(3, 0, 0x7FF0, &[], guest + 4),
        Some(Recovery { rip: guest + 4, rbp: 0, rsp: 0x7FF8 })
    );
    assert_eq!(recover_from_fault(3, 0, 0x7FF0, &[], 5), None);
    assert_eq!(recover_from_fault(512, 0x7000, 0x6F00, &frames, guest), None);
}

#[test]
fn export_kinds() {
    assert_eq!(export_kind("malloc"), ExportKind::Malloc);
    assert_eq!(export_kind("_Znwm"), ExportKind::Malloc);
    assert_eq!(export_kind("sceKernelGetDirectMemorySize"), ExportKind::Return(DIRECT_MEMORY_SIZE));
    assert_eq!(export_kind("sceVideoOutOpen"), ExportKind::Return(1));
    assert_eq!(export_kind("sceUserServiceGetEvent"), ExportKind::Return(0x80990004));
    assert_eq!(export_kind("zwY0YV91TTI#R#S"), ExportKind::SubmitCommandBuffers);
    assert_eq!(export_kind("W1Etj-jlW7Y#B#C"), ExportKind::Return(0));
    assert_eq!(export_kind("exit"), ExportKind::Exit);
    assert_eq!(export_kind("nothing"), ExportKind::Unhandled);
    assert!(is_float_function("sinf"));
    assert!(is_float_function("fmodf"));
    assert!(!is_float_function("rand"));
}

#[test]
fn export_values() {
    assert_eq!(malloc_size(0), 4096);
    assert_eq!(malloc_size(12), 12);
    assert_eq!(cxa_guard_acquire(0), (1, 1));
    assert_eq!(cxa_guard_acquire(7), (7, 0));
    assert_eq!(c_string_order(b"abc", b"abc"), 0);
    assert_eq!(c_string_order(b"abc", b"abd"), u64::MAX);
    assert_eq!(c_string_order(b"ab", b"a"), 1);
    assert_eq!(c_string_order(b"", b"a"), u64::MAX);
    assert_eq!(vsnprintf_copy_len(10, 4), 3);
    assert_eq!(vsnprintf_copy_len(2, 4), 2);
    assert_eq!(fread_total(4, 3), Some(12));
    assert_eq!(fread_total(usize::MAX, 2), None);
    assert_eq!(fread_items(11, 4), 2);
    assert_eq!(seek_target(0, -1), Some(SeekTarget::Start(u64::MAX)));
    assert_eq!(seek_target(1, -1), Some(SeekTarget::Current(-1)));
    assert_eq!(seek_target(2, 5), Some(SeekTarget::End(5)));
    assert_eq!(seek_target(3, 5), None);
    assert_eq!(pad_open_handle(0), 1);
    assert_eq!(pad_open_handle(3), 4);
    assert_eq!(pad_open_handle(-5), 1);
    let pad = pad_neutral_state();
    assert_eq!(pad.len(), 80);
    assert_eq!(&pad[4..8], &[128, 128, 128, 128]);
    assert_eq!(pad[19], 1);
    assert_eq!(login_user_id_list(), [1, -1, -1, -1]);
    let status = resolution_status_bytes();
    assert_eq!(&status[0..16], &[0x80, 7, 0, 0, 0x38, 4, 0, 0, 0x80, 7, 0, 0, 0x38, 4, 0, 0]);
    assert!(status[16..].iter().all(|b| *b == 0));
    assert_eq!(buffer_attribute_words(0x8000_0000, 1, 0, 1920, 1080, 0), [0x8000_0000, 1, 0, 1920, 1080, 1920, 0]);
    assert_eq!(buffer_attribute_words(1, 1, 0, 1920, 1080, 2048), [1, 1, 0, 1920, 1080, 2048, 0]);
    assert!(submit_buffers_valid(1, 0x20000, 0x20004));
    assert!(!submit_buffers_valid(100, 0x20000, 0x20004));
    assert!(!submit_buffers_valid(1, 0x20004, 0x20004));
    assert_eq!(dcb_words(0x20000, 64), Some(16));
    assert_eq!(dcb_words(0x100, 64), None);
    assert_eq!(dcb_words(0x20000, 3), None);
    assert_eq!(thread_entry_rsp(0x1000, 0x20_0000), 0x20_1000 - 8);
}

#[test]
fn gpu_packet_builders() {
    assert_eq!(gnm_init_default_hw_state(0xFF), None);
    let v = gnm_init_default_hw_state(0x100).unwrap();
    assert_eq!(v.len(), 256);
    assert_eq!(&v[0..4], &[0xc0001200, 0x00000000, 0xc0017600, 0x00000216]);
    assert_eq!(v[125], 0x000000ff);
    assert_eq!(&v[126..130], &[0xC0001000, 0, 0xC0001000, 0]);
    assert_eq!(v[255], 0);
    assert_eq!(wait_flip_done_packet(), vec![0xC0051000, 0, 0, 0, 0, 0, 0]);
}

#[test]
fn rand_sequence() {
    let (s1, v1) = rand_next(RAND_SEED);
    assert_eq!(s1, 12345u64.wrapping_mul(1103515245).wrapping_add(12345));
    assert_eq!(v1, (s1 >> 16) & 0x7FFF_FFFF);
    let (_, v2) = rand_next(s1);
    assert!(v2 <= 0x7FFF_FFFF);
}

#[test]
fn phys_mappings() {
    let mut m = PhysMappings::new();
    m.register_phys_mapping(0x1000, 0x9000, 0x1000);
    m.register_phys_mapping(0x1800, 0x20000, 0x1000);
    assert_eq!(m.phys_to_virt(0x1800), Some(0x9800));
    assert_eq!(m.phys_to_virt(0x2100), Some(0x20900));
    assert_eq!(m.phys_to_virt(0x5000), None);
}

#[test]
fn trap_resume_decisions() {
    assert_eq!(classify_sigill(0x0F, 0x0B, true), SigillTrap::StubCall);
    assert_eq!(classify_sigill(0x0F, 0x0B, false), SigillTrap::Syscall);
    assert_eq!(classify_sigill(0x0F, 0x05, true), SigillTrap::Foreign);
    // A stub's `ret` is simulated.
    assert_eq!(
        sigill_resume(0x5000, 0x7FF0, 0x10_0000_2000, true, false, 7),
        ResumeRegs { rip: 0x10_0000_2000, rsp: 0x7FF8, rax: 7, xmm0: None }
    );
    assert_eq!(
        sigill_resume(0x5000, 0x7FF0, 0x10_0000_2000, true, true, 0x3F80_0000),
        ResumeRegs { rip: 0x10_0000_2000, rsp: 0x7FF8, rax: 0, xmm0: Some(0x3F80_0000) }
    );
    // A patched `syscall` goes on past the `ud2`.
    assert_eq!(
        sigill_resume(0x5000, 0x7FF0, 0, false, false, 9),
        ResumeRegs { rip: 0x5002, rsp: 0x7FF0, rax: 9, xmm0: None }
    );
}

#[test]
fn exports_without_work_have_fixed_answers() {
    let kind = export_kind("sceSomethingNobodyImplements");
    assert_eq!(kind, ExportKind::Unhandled);
    assert_eq!(fixed_export_result(kind), Some(0));
    assert_eq!(fixed_export_result(ExportKind::Return(5)), Some(5));
    assert_eq!(fixed_export_result(ExportKind::Malloc), None);
}

#[test]
fn guard_protocol() {
    // A fresh guard: the caller initialises, and the guard is set.
    assert_eq!(cxa_guard_acquire(0), (1, 1));
    // A second acquire returns 0 and leaves the guard.
    assert_eq!(cxa_guard_acquire(1), (1, 0));
    // A release sets the first byte; an acquire after it returns 0.
    let released = cxa_guard_release(0);
    assert_eq!(released, 1);
    assert_eq!(cxa_guard_acquire(released), (released, 0));
    assert_eq!(cxa_guard_release(0x0123_4567_89AB_CD00), 0x0123_4567_89AB_CD01);
    assert_eq!(early_answer(ExportKind::GuardRelease, 0, 0, 0), Some(0));
}

#[test]
fn export_answers_from_arguments() {
    assert_eq!(early_answer(ExportKind::Memcmp, 1, 2, 0), Some(0));
    assert_eq!(early_answer(ExportKind::Memcmp, 0, 2, 4), Some(1));
    assert_eq!(early_answer(ExportKind::Memcmp, 1, 2, 4), None);
    assert_eq!(early_answer(ExportKind::Strcmp, 0, 0, 0), Some(0));
    assert_eq!(early_answer(ExportKind::Strcmp, 0, 8, 0), Some(1));
    assert_eq!(early_answer(ExportKind::GuardAcquire, 0, 0, 0), Some(0));
    assert_eq!(early_answer(ExportKind::Memcpy, 0x100, 0, 4), Some(0x100));
    assert_eq!(early_answer(ExportKind::Strcpy, 0x100, 0, 0), Some(0x100));
    assert_eq!(early_answer(ExportKind::Vsnprintf, 0x100, 0, 0x200), Some(0));
    assert_eq!(early_answer(ExportKind::Strlen, 0x100, 0, 0), None);
    assert!(string_copy_goes_on(b'a', 0));
    assert!(!string_copy_goes_on(0, 0));
    assert!(!string_copy_goes_on(b'a', C_STRING_COPY_LIMIT));
    assert!(string_scan_goes_on(C_STRING_COPY_LIMIT));
    assert!(!string_scan_goes_on(C_STRING_COPY_LIMIT + 1));
    assert_eq!(gnm_init_answer(0x1000, 0x100), 0x100);
    assert_eq!(gnm_init_answer(0x1000, 0xFF), 0);
    assert_eq!(gnm_init_answer(0, 0x100), 0);
}
