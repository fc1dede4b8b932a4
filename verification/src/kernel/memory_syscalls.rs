//! Kernel memory calls: direct memory allocation and mapping results.
use vstd::prelude::*;
use crate::kernel::OrbisError;
use crate::memory::physical_memory::{AllocSearch, mark, carve, PhysicalMemoryType};
use crate::memory::virtual_memory::{MemoryManager, PROT_CPU_READ, PROT_CPU_WRITE};
use crate::types::{PAddr, VAddr, PAGE_SIZE, align_down, is_aligned, align_up_spec, round_down, lemma_page_size_pow2};

verus! {

/// A direct memory length the kernel accepts: non-zero and a whole number of pages.
pub open spec fn valid_direct_length(len: u64) -> bool {
    len != 0 && len % PAGE_SIZE == 0
}

/// `sceKernelAllocateDirectMemory`: finds a free region of direct memory and marks it
/// allocated (without mapping it). `EINVAL` for a length that is zero or not a whole number of
/// pages, `ENOMEM` when no free region fits.
pub fn sce_kernel_allocate_direct_memory(
    memory: &mut MemoryManager,
    search_start: PAddr,
    search_end: PAddr,
    len: u64,
    alignment: u64,
    memory_type: i32,
    phys_addr_out: &mut PAddr,
) -> (r: i32)
    requires
        old(memory).wf(),
        valid_direct_length(len) ==> !old(memory).direct_allocation_overflows(
            search_start,
            search_end,
            len,
            alignment,
        ),
    ensures
        final(memory).wf(),
        !valid_direct_length(len) ==> r == OrbisError::EINVAL && *final(memory) == *old(memory)
            && *final(phys_addr_out) == *old(phys_addr_out),
        valid_direct_length(len) ==> align_up_spec(len, PAGE_SIZE) == len && match old(memory).phys().search(
            search_start,
            search_end,
            len,
            alignment,
        ) {
            AllocSearch::Hit(addr) => r == OrbisError::OK && *final(phys_addr_out) == addr
                && final(memory).phys().areas() == mark(
                carve(old(memory).phys().areas(), addr as int, len as int),
                addr as int,
                PhysicalMemoryType::Allocated,
            ) && final(memory).vmas() == old(memory).vmas(),
            _ => r == OrbisError::ENOMEM && *final(phys_addr_out) == *old(phys_addr_out)
                && final(memory).phys().areas() == old(memory).phys().areas()
                && final(memory).vmas() == old(memory).vmas(),
        },
{
    proof {
        lemma_page_size_pow2();
    }
    if len == 0 || !is_aligned(len, PAGE_SIZE) {
        return OrbisError::EINVAL;
    }
    proof {
        assert(len + (PAGE_SIZE - 1) <= u64::MAX);
        crate::types::lemma_mask_rounds_down((len + (PAGE_SIZE - 1)) as u64, PAGE_SIZE);
        assert(((len + (PAGE_SIZE - 1)) / PAGE_SIZE as int) * PAGE_SIZE == len) by (nonlinear_arith)
            requires
                len % PAGE_SIZE == 0,
                PAGE_SIZE == 16384,
        ;
    }
    match memory.allocate_direct_memory(search_start, search_end, len, alignment, memory_type) {
        Some(addr) => {
            *phys_addr_out = addr;
            OrbisError::OK
        },
        None => OrbisError::ENOMEM,
    }
}

/// The status a mapping call reports: `OK`, with the mapped address written out, or `ENOMEM`
/// when the mapping failed.
pub fn map_status(mapped: Option<VAddr>, addr: &mut VAddr) -> (r: i32)
    ensures
        mapped matches Some(a) ==> r == OrbisError::OK && *final(addr) == a,
        mapped is None ==> r == OrbisError::ENOMEM && *final(addr) == *old(addr),
{
    match mapped {
        Some(a) => {
            *addr = a;
            OrbisError::OK
        },
        None => OrbisError::ENOMEM,
    }
}

/// The status an unmapping call reports: `OK`, or `EINVAL` when the unmapping failed.
pub fn unmap_status(unmapped: bool) -> (r: i32)
    ensures
        r == (if unmapped {
            OrbisError::OK
        } else {
            OrbisError::EINVAL
        }),
{
    if unmapped {
        OrbisError::OK
    } else {
        OrbisError::EINVAL
    }
}

/// `sceKernelQueryMemoryProtection`: reports the page around `addr` as readable and writable.
pub fn sce_kernel_query_memory_protection(
    _memory: &MemoryManager,
    addr: VAddr,
    start_out: &mut VAddr,
    end_out: &mut VAddr,
    prot_out: &mut u32,
) -> (r: i32)
    requires
        round_down(addr as int, PAGE_SIZE as int) + PAGE_SIZE <= u64::MAX,
    ensures
        r == OrbisError::OK,
        *final(start_out) == round_down(addr as int, PAGE_SIZE as int),
        *final(end_out) == *final(start_out) + PAGE_SIZE,
        *final(prot_out) == (PROT_CPU_READ | PROT_CPU_WRITE),
{
    proof {
        lemma_page_size_pow2();
    }
    *start_out = align_down(addr, PAGE_SIZE);
    *end_out = *start_out + PAGE_SIZE;
    *prot_out = PROT_CPU_READ | PROT_CPU_WRITE;
    OrbisError::OK
}

} // verus!
