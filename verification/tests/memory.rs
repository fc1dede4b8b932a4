use anotherps4::kernel::memory_syscalls::{
    map_status, sce_kernel_allocate_direct_memory, sce_kernel_query_memory_protection, unmap_status,
};
use anotherps4::kernel::OrbisError;
use anotherps4::memory::physical_memory::{PhysicalMemoryManager, PhysicalMemoryType};
use anotherps4::memory::virtual_memory::{
    MemoryManager, MemoryMapFlags, MemoryProt, VMAType, MAP_FIXED, MAP_PRIVATE, PROT_CPU_READ,
    PROT_CPU_RW, PROT_CPU_WRITE,
};
use anotherps4::types::{DEFAULT_MAPPING_BASE, PAGE_SIZE, USER_SIZE};

#[test]
fn physical_allocate_then_free_restores_the_areas() {
    let mut pm = PhysicalMemoryManager::new(1 << 30);
    assert_eq!(pm.total_size(), 1 << 30);
    let a = pm.allocate(0, 1 << 30, 3 * PAGE_SIZE, 0).expect("allocation");
    assert_eq!(a, 0);
    let b = pm.allocate(0, 1 << 30, PAGE_SIZE, 0).expect("allocation");
    assert_eq!(b, 3 * PAGE_SIZE);
    assert!(pm.free(a, 3 * PAGE_SIZE));
    // Freeing an area of the right size again succeeds again.
    assert!(pm.free(a, 3 * PAGE_SIZE));
    assert!(pm.free(b, PAGE_SIZE));
    let c = pm.allocate(0, 1 << 30, 4 * PAGE_SIZE, 0).expect("allocation");
    assert_eq!(c, 0);
}

#[test]
fn physical_allocation_respects_search_range_and_alignment() {
    let mut pm = PhysicalMemoryManager::new(1 << 30);
    let a = pm.allocate(PAGE_SIZE, 1 << 30, PAGE_SIZE, 0x10_0000).expect("allocation");
    assert_eq!(a, 0x10_0000);
    assert_eq!(pm.allocate(0, PAGE_SIZE, 2 * PAGE_SIZE, 0), None);
    let _ = PhysicalMemoryType::Allocated;
}

#[test]
fn direct_memory_syscall_statuses() {
    let mut mm = MemoryManager::new(DEFAULT_MAPPING_BASE, USER_SIZE);
    let mut out = 0u64;
    assert_eq!(sce_kernel_allocate_direct_memory(&mut mm, 0, 1 << 32, 0, 0, 0, &mut out), OrbisError::EINVAL);
    assert_eq!(sce_kernel_allocate_direct_memory(&mut mm, 0, 1 << 32, 100, 0, 0, &mut out), OrbisError::EINVAL);
    assert_eq!(sce_kernel_allocate_direct_memory(&mut mm, 0, 1 << 32, PAGE_SIZE, 0, 0, &mut out), OrbisError::OK);
    assert_eq!(out, 0);
    assert_eq!(sce_kernel_allocate_direct_memory(&mut mm, 0, 1 << 32, PAGE_SIZE, 0, 0, &mut out), OrbisError::OK);
    assert_eq!(out, PAGE_SIZE);
    assert_eq!(
        sce_kernel_allocate_direct_memory(&mut mm, 0, PAGE_SIZE, 2 * PAGE_SIZE, 0, 0, &mut out),
        OrbisError::ENOMEM
    );
}

#[test]
fn mapping_places_and_commits() {
    let mut mm = MemoryManager::new(DEFAULT_MAPPING_BASE, USER_SIZE);
    let flags = MemoryMapFlags::from_bits_truncate(MAP_PRIVATE);
    let (addr, size) = mm.map_target_for(0, 100, flags).expect("no overflow").expect("room");
    assert_eq!((addr, size), (DEFAULT_MAPPING_BASE, PAGE_SIZE));
    let prot = MemoryProt::from_bits_truncate(PROT_CPU_RW);
    assert_eq!(mm.commit_map(addr, size, prot, flags, VMAType::Flexible, String::from("heap")), addr);
    let (next, _) = mm.map_target_for(0, PAGE_SIZE, flags).unwrap().unwrap();
    assert_eq!(next, DEFAULT_MAPPING_BASE + PAGE_SIZE);
    let fixed = MemoryMapFlags::from_bits_truncate(MAP_FIXED);
    assert_eq!(mm.map_target_for(0x3_0000_0000, 1, fixed).unwrap(), Ok((0x3_0000_0000, PAGE_SIZE)));
    assert_eq!(mm.map_target_for(0, u64::MAX, flags), None);
    let vmas = mm.get_vmas();
    assert!(vmas.iter().any(|v| v.base == addr && v.size == size && v.name == "heap"));
    mm.commit_unmap(addr, size);
    let vmas = mm.get_vmas();
    assert!(vmas.iter().all(|v| !(v.base == addr && v.name == "heap")));
    assert_eq!(mm.available_flexible_size(), mm.total_flexible_size());
}

#[test]
fn memory_query_and_statuses() {
    let mm = MemoryManager::new(DEFAULT_MAPPING_BASE, USER_SIZE);
    let (mut s, mut e, mut p) = (0u64, 0u64, 0u32);
    assert_eq!(sce_kernel_query_memory_protection(&mm, 0x12345, &mut s, &mut e, &mut p), 0);
    assert_eq!((s, e, p), (0x10000, 0x14000, PROT_CPU_READ | PROT_CPU_WRITE));
    let mut out = 0u64;
    assert_eq!(map_status(Some(0x5000), &mut out), OrbisError::OK);
    assert_eq!(out, 0x5000);
    assert_eq!(map_status(None, &mut out), OrbisError::ENOMEM);
    assert_eq!(unmap_status(false), OrbisError::EINVAL);
    assert!(mm.is_valid_gpu_mapping(0x1000, 0x1000));
    assert!(mm.is_valid_gpu_mapping(0x20_0000_0000, 0x1000));
    assert!(mm.is_valid_gpu_mapping(0xFF_FFFF_F000, 0x1000));
    assert!(!mm.is_valid_gpu_mapping(0xFF_FFFF_F000, 0x1001));
    assert!(!mm.is_valid_gpu_mapping(0x100_0000_0000, 1));
    assert_eq!(mm.protect_memory(MemoryProt::from_bits_truncate(PROT_CPU_RW)), (true, true, false));
}

#[test]
fn mapping_over_a_range_leaves_one_area_there() {
    let mut mm = MemoryManager::new(DEFAULT_MAPPING_BASE, USER_SIZE);
    let flags = MemoryMapFlags::from_bits_truncate(MAP_PRIVATE);
    let prot = MemoryProt::from_bits_truncate(PROT_CPU_RW);
    let base = DEFAULT_MAPPING_BASE;
    mm.commit_map(base, 4 * PAGE_SIZE, prot, flags, VMAType::Flexible, String::from("a"));
    mm.commit_map(base + PAGE_SIZE, 2 * PAGE_SIZE, prot, flags, VMAType::Flexible, String::from("b"));
    let vmas = mm.get_vmas();
    let over: Vec<_> = vmas
        .iter()
        .filter(|v| v.base < base + 3 * PAGE_SIZE && v.base + v.size > base + PAGE_SIZE)
        .collect();
    assert_eq!(over.len(), 1);
    assert_eq!((over[0].base, over[0].size, over[0].name.as_str()), (base + PAGE_SIZE, 2 * PAGE_SIZE, "b"));
    assert!(vmas.iter().any(|v| v.base == base && v.size == PAGE_SIZE && v.name == "a"));
    assert!(vmas.iter().any(|v| v.base == base + 3 * PAGE_SIZE && v.size == PAGE_SIZE && v.name == "a"));
}
