//! Virtual memory area (VMA) bookkeeping: what is mapped where, with which protection.
//!
//! The areas are kept ordered by base address, each starting no earlier than the previous
//! one ends. Mapping at an address first carves the range out of the areas it overlaps, then
//! records the new area under its base address, replacing an area recorded there.
use vstd::prelude::*;
use crate::types::{VAddr, PAddr, PAGE_SIZE, MAX_GPU_ADDRESS, align_up, align_up_spec};
use crate::memory::physical_memory::{PhysicalMemoryManager, AllocSearch, effective_alignment};

verus! {

/// Memory protection flags (CPU and GPU).
#[derive(Clone, Copy, Debug, PartialEq, Eq, Structural)]
pub struct MemoryProt {
    pub bits: u32,
}

pub const PROT_NONE: u32 = 0;
pub const PROT_CPU_READ: u32 = 1;
pub const PROT_CPU_WRITE: u32 = 2;
pub const PROT_CPU_RW: u32 = 3;
pub const PROT_CPU_EXEC: u32 = 4;
pub const PROT_GPU_READ: u32 = 16;
pub const PROT_GPU_WRITE: u32 = 32;
pub const PROT_GPU_RW: u32 = 48;

/// All defined protection bits.
pub const PROT_ALL: u32 = 0x37;

impl MemoryProt {
    /// Protection from raw bits, dropping undefined ones.
    pub fn from_bits_truncate(bits: u32) -> (r: Self)
        ensures
            r.bits == bits & PROT_ALL,
    {
        MemoryProt { bits: bits & PROT_ALL }
    }

    /// The raw bits.
    pub fn bits(&self) -> (r: u32)
        ensures
            r == self.bits,
    {
        self.bits
    }

    /// Whether all the bits of `other` are set.
    pub fn contains(&self, other: u32) -> (r: bool)
        ensures
            r == ((self.bits & other) == other),
    {
        (self.bits & other) == other
    }
}

/// Flags of mapping operations.
#[derive(Clone, Copy, Debug, PartialEq, Eq, Structural)]
pub struct MemoryMapFlags {
    pub bits: u32,
}

pub const MAP_NONE: u32 = 0;
pub const MAP_SHARED: u32 = 1;
pub const MAP_PRIVATE: u32 = 2;
pub const MAP_FIXED: u32 = 0x10;
pub const MAP_NO_OVERWRITE: u32 = 0x80;
pub const MAP_VOID: u32 = 0x100;
pub const MAP_STACK: u32 = 0x400;
pub const MAP_NO_SYNC: u32 = 0x800;
pub const MAP_ANONYMOUS: u32 = 0x1000;
pub const MAP_NO_CORE: u32 = 0x20000;
pub const MAP_NO_COALESCE: u32 = 0x400000;

/// All defined mapping flag bits.
pub const MAP_ALL: u32 = 0x421993;

impl MemoryMapFlags {
    /// Flags from raw bits, dropping undefined ones.
    pub fn from_bits_truncate(bits: u32) -> (r: Self)
        ensures
            r.bits == bits & MAP_ALL,
    {
        MemoryMapFlags { bits: bits & MAP_ALL }
    }

    /// The raw bits.
    pub fn bits(&self) -> (r: u32)
        ensures
            r == self.bits,
    {
        self.bits
    }

    /// Whether all the bits of `other` are set.
    pub fn contains(&self, other: u32) -> (r: bool)
        ensures
            r == ((self.bits & other) == other),
    {
        (self.bits & other) == other
    }
}

/// Type of a virtual memory area.
#[derive(Clone, Copy, Debug, PartialEq, Eq, Structural)]
pub enum VMAType {
    /// Unmapped, available.
    Free,
    /// Reserved but not committed.
    Reserved,
    /// Backed by direct physical memory.
    Direct,
    /// Backed by flexible memory.
    Flexible,
    /// Pool memory.
    Pooled,
    /// Reserved for a pool.
    PoolReserved,
    /// Thread stack.
    Stack,
    /// Thread control block and other thread data.
    ThreadData,
    /// Executable code.
    Code,
    /// Memory-mapped file.
    File,
}

/// A contiguous region of virtual memory with uniform properties.
#[derive(Debug)]
pub struct VirtualMemoryArea {
    /// Base virtual address.
    pub base: VAddr,
    /// Size in bytes.
    pub size: u64,
    /// Type of mapping.
    pub vma_type: VMAType,
    /// Memory protection.
    pub prot: MemoryProt,
    /// Name, for debugging.
    pub name: String,
    /// Whether this area must not be merged with its neighbours.
    pub disallow_merge: bool,
}

impl Clone for VirtualMemoryArea {
    fn clone(&self) -> (r: Self)
        ensures
            r == *self,
    {
        VirtualMemoryArea {
            base: self.base,
            size: self.size,
            vma_type: self.vma_type,
            prot: self.prot,
            name: self.name.clone(),
            disallow_merge: self.disallow_merge,
        }
    }
}

/// `v` and the range `[addr, addr + size)` share an address, as the overlap test computes it.
pub open spec fn vma_overlaps(v: VirtualMemoryArea, addr: int, size: int) -> bool {
    addr < v.base + v.size && addr + size > v.base
}

/// `a` is immediately followed by `b` and has the same properties.
pub open spec fn vma_mergeable(a: VirtualMemoryArea, b: VirtualMemoryArea) -> bool {
    !a.disallow_merge && !b.disallow_merge && a.base + a.size == b.base && a.prot == b.prot
        && a.vma_type == b.vma_type && a.name@ == b.name@
}

impl VirtualMemoryArea {
    /// Whether the area contains `[addr, addr + size)`.
    pub fn contains(&self, addr: VAddr, size: u64) -> (r: bool)
        requires
            addr + size <= u64::MAX,
            self.base + self.size <= u64::MAX,
        ensures
            r == (addr >= self.base && addr + size <= self.base + self.size),
    {
        addr >= self.base && (addr + size) <= (self.base + self.size)
    }

    /// Whether the area overlaps `[addr, addr + size)`.
    pub fn overlaps(&self, addr: VAddr, size: u64) -> (r: bool)
        requires
            addr + size <= u64::MAX,
            self.base + self.size <= u64::MAX,
        ensures
            r == vma_overlaps(*self, addr as int, size as int),
    {
        addr < (self.base + self.size) && (addr + size) > self.base
    }

    /// Whether the area is free.
    pub fn is_free(&self) -> (r: bool)
        ensures
            r == (self.vma_type == VMAType::Free),
    {
        self.vma_type == VMAType::Free
    }

    /// Whether the area is actively mapped.
    pub fn is_mapped(&self) -> (r: bool)
        ensures
            r == !(self.vma_type == VMAType::Free || self.vma_type == VMAType::Reserved
                || self.vma_type == VMAType::PoolReserved),
    {
        match self.vma_type {
            VMAType::Free | VMAType::Reserved | VMAType::PoolReserved => false,
            _ => true,
        }
    }

    /// Whether `next` directly follows this area with the same properties.
    pub fn can_merge_with(&self, next: &VirtualMemoryArea) -> (r: bool)
        requires
            self.base + self.size <= u64::MAX,
        ensures
            r == vma_mergeable(*self, *next),
    {
        if self.disallow_merge || next.disallow_merge {
            return false;
        }
        if self.base + self.size != next.base {
            return false;
        }
        if self.prot != next.prot || self.vma_type != next.vma_type {
            return false;
        }
        if self.name != next.name {
            return false;
        }
        true
    }
}


// ============================================================================
// The area table
// ============================================================================

/// Every area ends within the 64-bit address space.
pub open spec fn vmas_bounded(s: Seq<VirtualMemoryArea>) -> bool {
    forall|i: int| 0 <= i < s.len() ==> #[trigger] s[i].base + s[i].size <= u64::MAX
}

/// What remains of `v` once `[addr, addr + size)` is carved out: `v` itself when they do not
/// overlap, else its parts before and after the range.
pub open spec fn vma_pieces(v: VirtualMemoryArea, addr: int, size: int) -> Seq<VirtualMemoryArea> {
    if !vma_overlaps(v, addr, size) {
        seq![v]
    } else {
        let end = addr + size;
        let before = if v.base < addr {
            seq![VirtualMemoryArea { base: v.base, size: (addr - v.base) as u64, ..v }]
        } else {
            Seq::empty()
        };
        let after = if v.base + v.size > end {
            seq![VirtualMemoryArea { base: end as u64, size: (v.base + v.size - end) as u64, ..v }]
        } else {
            Seq::empty()
        };
        before + after
    }
}

/// The area table with `[addr, addr + size)` carved out of every area it overlaps.
pub open spec fn carve_vmas(s: Seq<VirtualMemoryArea>, addr: int, size: int) -> Seq<VirtualMemoryArea>
    decreases s.len(),
{
    if s.len() == 0 {
        s
    } else {
        carve_vmas(s.drop_last(), addr, size) + vma_pieces(s.last(), addr, size)
    }
}

/// The areas of `s` whose base is below `k`, in order.
pub open spec fn vmas_below(s: Seq<VirtualMemoryArea>, k: int) -> Seq<VirtualMemoryArea>
    decreases s.len(),
{
    if s.len() == 0 {
        s
    } else if s.last().base < k {
        vmas_below(s.drop_last(), k).push(s.last())
    } else {
        vmas_below(s.drop_last(), k)
    }
}

/// The areas of `s` whose base is above `k`, in order.
pub open spec fn vmas_above(s: Seq<VirtualMemoryArea>, k: int) -> Seq<VirtualMemoryArea>
    decreases s.len(),
{
    if s.len() == 0 {
        s
    } else if s.last().base > k {
        vmas_above(s.drop_last(), k).push(s.last())
    } else {
        vmas_above(s.drop_last(), k)
    }
}

/// The area table with `v` recorded under its base, in address order, replacing an area
/// recorded there.
pub open spec fn insert_vma(s: Seq<VirtualMemoryArea>, v: VirtualMemoryArea) -> Seq<VirtualMemoryArea> {
    vmas_below(s, v.base as int) + seq![v] + vmas_above(s, v.base as int)
}

/// Carving keeps every area within the 64-bit address space.
pub proof fn lemma_carve_bounded(s: Seq<VirtualMemoryArea>, addr: int, size: int)
    requires
        vmas_bounded(s),
        0 <= addr,
        0 <= size,
        addr + size <= u64::MAX,
    ensures
        vmas_bounded(carve_vmas(s, addr, size)),
    decreases s.len(),
{
    if s.len() > 0 {
        assert(s.last() == s[s.len() - 1]);
        assert(vmas_bounded(s.drop_last())) by {
            assert forall|i: int| 0 <= i < s.drop_last().len() implies #[trigger] s.drop_last()[i].base
                + s.drop_last()[i].size <= u64::MAX by {
                assert(s[i].base + s[i].size <= u64::MAX);
            }
        }
        lemma_carve_bounded(s.drop_last(), addr, size);
        let c = carve_vmas(s.drop_last(), addr, size);
        let p = vma_pieces(s.last(), addr, size);
        assert forall|i: int| 0 <= i < (c + p).len() implies #[trigger] (c + p)[i].base + (c
            + p)[i].size <= u64::MAX by {
            if i < c.len() {
                assert(c[i].base + c[i].size <= u64::MAX);
            }
        }
    }
}

/// The areas below or above a key are areas of the table.
pub proof fn lemma_below_above_bounded(s: Seq<VirtualMemoryArea>, k: int)
    requires
        vmas_bounded(s),
    ensures
        vmas_bounded(vmas_below(s, k)),
        vmas_bounded(vmas_above(s, k)),
    decreases s.len(),
{
    if s.len() > 0 {
        assert(s.last() == s[s.len() - 1]);
        assert(vmas_bounded(s.drop_last())) by {
            assert forall|i: int| 0 <= i < s.drop_last().len() implies #[trigger] s.drop_last()[i].base
                + s.drop_last()[i].size <= u64::MAX by {
                assert(s[i].base + s[i].size <= u64::MAX);
            }
        }
        lemma_below_above_bounded(s.drop_last(), k);
    }
}

/// Recording an area that ends within the address space keeps every area within it.
pub proof fn lemma_insert_bounded(s: Seq<VirtualMemoryArea>, v: VirtualMemoryArea)
    requires
        vmas_bounded(s),
        v.base + v.size <= u64::MAX,
    ensures
        vmas_bounded(insert_vma(s, v)),
{
    lemma_below_above_bounded(s, v.base as int);
    let b = vmas_below(s, v.base as int);
    let a = vmas_above(s, v.base as int);
    let r = insert_vma(s, v);
    assert forall|i: int| 0 <= i < r.len() implies #[trigger] r[i].base + r[i].size <= u64::MAX by {
        if i < b.len() {
            assert(r[i] == b[i]);
        } else if i > b.len() {
            assert(r[i] == a[i - b.len() - 1]);
        }
    }
}

/// No area of `s` shares an address with `[addr, addr + size)`.
pub open spec fn clear_of(s: Seq<VirtualMemoryArea>, addr: int, size: int) -> bool {
    forall|i: int| 0 <= i < s.len() ==> !vma_overlaps(#[trigger] s[i], addr, size)
}

proof fn lemma_carve_clears(s: Seq<VirtualMemoryArea>, addr: int, size: int)
    requires
        0 <= addr,
        0 < size,
        addr + size <= u64::MAX,
    ensures
        clear_of(carve_vmas(s, addr, size), addr, size),
    decreases s.len(),
{
    if s.len() > 0 {
        lemma_carve_clears(s.drop_last(), addr, size);
        let c = carve_vmas(s.drop_last(), addr, size);
        let p = vma_pieces(s.last(), addr, size);
        assert forall|i: int| 0 <= i < (c + p).len() implies !vma_overlaps(
            #[trigger] (c + p)[i],
            addr,
            size,
        ) by {
            if i < c.len() {
                assert((c + p)[i] == c[i]);
            } else {
                assert((c + p)[i] == p[i - c.len()]);
                let x = s.last();
                if vma_overlaps(x, addr, size) {
                    if x.base < addr {
                        assert(p[0].base + p[0].size == addr);
                    }
                }
            }
        }
    }
}

proof fn lemma_below_above_clear(s: Seq<VirtualMemoryArea>, k: int, addr: int, size: int)
    requires
        clear_of(s, addr, size),
    ensures
        clear_of(vmas_below(s, k), addr, size),
        clear_of(vmas_above(s, k), addr, size),
    decreases s.len(),
{
    if s.len() > 0 {
        assert(s.last() == s[s.len() - 1]);
        assert(clear_of(s.drop_last(), addr, size)) by {
            assert forall|i: int| 0 <= i < s.drop_last().len() implies !vma_overlaps(
                #[trigger] s.drop_last()[i],
                addr,
                size,
            ) by {
                assert(s.drop_last()[i] == s[i]);
            }
        }
        lemma_below_above_clear(s.drop_last(), k, addr, size);
    }
}

/// Recording an area over a range carved out of the table leaves it the only area there:
/// after a mapping or an unmapping of a non-empty range, the new area is in the table and no
/// other area shares an address with its range.
pub proof fn law_recorded_area_owns_its_range(s: Seq<VirtualMemoryArea>, v: VirtualMemoryArea)
    requires
        v.size > 0,
        v.base + v.size <= u64::MAX,
    ensures
        ({
            let r = insert_vma(carve_vmas(s, v.base as int, v.size as int), v);
            &&& r.contains(v)
            &&& forall|i: int|
                0 <= i < r.len() && vma_overlaps(#[trigger] r[i], v.base as int, v.size as int)
                    ==> r[i] == v
        }),
{
    let addr = v.base as int;
    let size = v.size as int;
    let c = carve_vmas(s, addr, size);
    lemma_carve_clears(s, addr, size);
    lemma_below_above_clear(c, addr, addr, size);
    let b = vmas_below(c, addr);
    let a = vmas_above(c, addr);
    let r = insert_vma(c, v);
    assert(r[b.len() as int] == v);
    assert forall|i: int|
        0 <= i < r.len() && vma_overlaps(#[trigger] r[i], addr, size) implies r[i] == v by {
        if i < b.len() {
            assert(r[i] == b[i]);
        } else if i > b.len() {
            assert(r[i] == a[i - b.len() - 1]);
        }
    }
}

/// The pieces of an area, cloned.
fn pieces_of(v: &VirtualMemoryArea, addr: u64, size: u64, out: &mut Vec<VirtualMemoryArea>)
    requires
        addr + size <= u64::MAX,
        v.base + v.size <= u64::MAX,
    ensures
        final(out)@ == old(out)@ + vma_pieces(*v, addr as int, size as int),
{
    let end = addr + size;
    if !v.overlaps(addr, size) {
        out.push(v.clone());
        return;
    }
    let ghost before = out@;
    if v.base < addr {
        out.push(VirtualMemoryArea {
            base: v.base,
            size: addr - v.base,
            vma_type: v.vma_type,
            prot: v.prot,
            name: v.name.clone(),
            disallow_merge: v.disallow_merge,
        });
    }
    if v.base + v.size > end {
        out.push(VirtualMemoryArea {
            base: end,
            size: v.base + v.size - end,
            vma_type: v.vma_type,
            prot: v.prot,
            name: v.name.clone(),
            disallow_merge: v.disallow_merge,
        });
    }
    assert(out@ =~= before + vma_pieces(*v, addr as int, size as int));
}

/// The area table with `[addr, addr + size)` carved out.
fn carve_vmas_exec(s: &Vec<VirtualMemoryArea>, addr: u64, size: u64) -> (r: Vec<VirtualMemoryArea>)
    requires
        vmas_bounded(s@),
        addr + size <= u64::MAX,
    ensures
        r@ == carve_vmas(s@, addr as int, size as int),
{
    let mut out: Vec<VirtualMemoryArea> = Vec::new();
    let mut i: usize = 0;
    while i < s.len()
        invariant
            i <= s@.len(),
            vmas_bounded(s@),
            addr + size <= u64::MAX,
            out@ == carve_vmas(s@.take(i as int), addr as int, size as int),
        decreases s.len() - i,
    {
        assert(s@.take(i + 1).drop_last() =~= s@.take(i as int));
        assert(s@.take(i + 1).last() == s@[i as int]);
        assert(s@[i as int].base + s@[i as int].size <= u64::MAX);
        pieces_of(&s[i], addr, size, &mut out);
        i = i + 1;
    }
    assert(s@.take(s@.len() as int) =~= s@);
    out
}

/// The area table with `v` recorded under its base.
fn insert_vma_exec(s: Vec<VirtualMemoryArea>, v: VirtualMemoryArea) -> (r: Vec<VirtualMemoryArea>)
    ensures
        r@ == insert_vma(s@, v),
{
    let mut below: Vec<VirtualMemoryArea> = Vec::new();
    let mut above: Vec<VirtualMemoryArea> = Vec::new();
    let mut i: usize = 0;
    let key = v.base;
    while i < s.len()
        invariant
            i <= s@.len(),
            below@ == vmas_below(s@.take(i as int), key as int),
            above@ == vmas_above(s@.take(i as int), key as int),
        decreases s.len() - i,
    {
        assert(s@.take(i + 1).drop_last() =~= s@.take(i as int));
        assert(s@.take(i + 1).last() == s@[i as int]);
        if s[i].base < key {
            below.push(s[i].clone());
        } else if s[i].base > key {
            above.push(s[i].clone());
        }
        i = i + 1;
    }
    assert(s@.take(s@.len() as int) =~= s@);
    let ghost b = below@;
    below.push(v);
    let mut j: usize = 0;
    let ghost mid = below@;
    while j < above.len()
        invariant
            j <= above@.len(),
            below@ == mid + above@.take(j as int),
        decreases above.len() - j,
    {
        below.push(above[j].clone());
        j = j + 1;
        assert(below@ =~= mid + above@.take(j as int));
    }
    assert(above@.take(above@.len() as int) =~= above@);
    assert(below@ =~= insert_vma(s@, v));
    below
}

/// What the search for a free region finds, from index `i` on: the first free area with room
/// for `size` bytes at its base aligned up to `alignment`.
pub open spec fn free_region_search(s: Seq<VirtualMemoryArea>, i: int, size: u64, alignment: u64) -> AllocSearch
    decreases s.len() - i,
{
    if i < 0 || i >= s.len() {
        AllocSearch::Miss
    } else if s[i].vma_type != VMAType::Free {
        free_region_search(s, i + 1, size, alignment)
    } else if s[i].base + (alignment - 1) > u64::MAX {
        AllocSearch::Overflow
    } else if align_up_spec(s[i].base, alignment) + size > u64::MAX {
        AllocSearch::Overflow
    } else if align_up_spec(s[i].base, alignment) + size <= s[i].base + s[i].size {
        AllocSearch::Hit(align_up_spec(s[i].base, alignment))
    } else {
        free_region_search(s, i + 1, size, alignment)
    }
}

/// Searches the area table for a free region.
fn find_free_region_exec(s: &Vec<VirtualMemoryArea>, size: u64, alignment: u64) -> (r: AllocSearch)
    requires
        alignment >= 1,
        vmas_bounded(s@),
    ensures
        r == free_region_search(s@, 0, size, alignment),
{
    let mut i: usize = 0;
    while i < s.len()
        invariant
            alignment >= 1,
            vmas_bounded(s@),
            i <= s@.len(),
            free_region_search(s@, 0, size, alignment) == free_region_search(s@, i as int, size, alignment),
        decreases s.len() - i,
    {
        let v = &s[i];
        assert(v.base + v.size <= u64::MAX);
        if v.is_free() {
            if v.base > u64::MAX - (alignment - 1) {
                return AllocSearch::Overflow;
            }
            let ab = align_up(v.base, alignment);
            if ab > u64::MAX - size {
                return AllocSearch::Overflow;
            }
            if ab + size <= v.base + v.size {
                return AllocSearch::Hit(ab);
            }
        }
        i = i + 1;
    }
    AllocSearch::Miss
}


// ============================================================================
// The memory manager
// ============================================================================

/// Why a mapping could not be placed.
#[derive(Clone, Copy, Debug, PartialEq, Eq, Structural)]
pub enum MemoryError {
    /// No free virtual memory region is large enough.
    NoFreeRegion,
}

/// Usable direct memory: 5.5 GiB of the 8 GiB.
pub const TOTAL_DIRECT_SIZE: u64 = 5905580032;

/// Flexible memory: 448 MiB.
pub const TOTAL_FLEXIBLE_SIZE: u64 = 469762048;

/// The bookkeeping of guest memory: the virtual memory areas and the physical memory.
/// The host mappings themselves are made by the caller.
pub struct MemoryManager {
    /// Physical (direct) memory.
    physical: PhysicalMemoryManager,
    /// The virtual memory areas, ordered by base address.
    vma_map: Vec<VirtualMemoryArea>,
    /// Total direct memory size.
    total_direct_size: u64,
    /// Total flexible memory size.
    total_flexible_size: u64,
    /// Flexible memory in use.
    flexible_usage: u64,
}

/// An area of `size` bytes at `base`, free and unnamed.
pub open spec fn is_free_vma(v: VirtualMemoryArea, base: u64, size: u64) -> bool {
    &&& v.base == base
    &&& v.size == size
    &&& v.vma_type == VMAType::Free
    &&& v.prot.bits == PROT_NONE
    &&& v.name@ == Seq::<char>::empty()
    &&& !v.disallow_merge
}

impl MemoryManager {
    /// The virtual memory areas, in address order.
    pub closed spec fn vmas(&self) -> Seq<VirtualMemoryArea> {
        self.vma_map@
    }

    /// The physical memory manager.
    pub closed spec fn phys(&self) -> PhysicalMemoryManager {
        self.physical
    }

    /// Total flexible memory in use.
    pub closed spec fn flexible_used(&self) -> u64 {
        self.flexible_usage
    }

    /// Total flexible memory.
    pub closed spec fn flexible_total(&self) -> u64 {
        self.total_flexible_size
    }

    /// Total direct memory.
    pub closed spec fn direct_total(&self) -> u64 {
        self.total_direct_size
    }

    /// The manager's invariant.
    pub closed spec fn wf(&self) -> bool {
        &&& self.physical.wf()
        &&& vmas_bounded(self.vma_map@)
        &&& self.flexible_usage <= self.total_flexible_size
    }

    /// A manager whose user address space `[user_base, user_base + user_size)` is one free
    /// area, with 5.5 GiB of free direct memory and 448 MiB of flexible memory.
    pub fn new(user_base: VAddr, user_size: u64) -> (r: Self)
        requires
            user_base + user_size <= u64::MAX,
        ensures
            r.wf(),
            r.vmas().len() == 1,
            is_free_vma(r.vmas()[0], user_base, user_size),
            r.phys().total() == TOTAL_DIRECT_SIZE,
            r.phys().areas().len() == 1,
            r.direct_total() == TOTAL_DIRECT_SIZE,
            r.flexible_total() == TOTAL_FLEXIBLE_SIZE,
            r.flexible_used() == 0,
    {
        let physical = PhysicalMemoryManager::new(TOTAL_DIRECT_SIZE);
        let mut vma_map: Vec<VirtualMemoryArea> = Vec::new();
        vma_map.push(
            VirtualMemoryArea {
                base: user_base,
                size: user_size,
                vma_type: VMAType::Free,
                prot: MemoryProt { bits: PROT_NONE },
                name: String::new(),
                disallow_merge: false,
            },
        );
        MemoryManager {
            physical,
            vma_map,
            total_direct_size: TOTAL_DIRECT_SIZE,
            total_flexible_size: TOTAL_FLEXIBLE_SIZE,
            flexible_usage: 0,
        }
    }

    /// A copy of every virtual memory area, in address order.
    pub fn get_vmas(&self) -> (r: Vec<VirtualMemoryArea>)
        ensures
            r@ == self.vmas(),
    {
        let mut out: Vec<VirtualMemoryArea> = Vec::new();
        let mut i: usize = 0;
        while i < self.vma_map.len()
            invariant
                i <= self.vma_map@.len(),
                out@ == self.vma_map@.take(i as int),
            decreases self.vma_map.len() - i,
        {
            out.push(self.vma_map[i].clone());
            i = i + 1;
            assert(out@ =~= self.vma_map@.take(i as int));
        }
        assert(self.vma_map@.take(i as int) =~= self.vma_map@);
        out
    }

    /// Total direct memory size.
    pub fn total_direct_size(&self) -> (r: u64)
        ensures
            r == self.direct_total(),
    {
        self.total_direct_size
    }

    /// Total flexible memory size.
    pub fn total_flexible_size(&self) -> (r: u64)
        ensures
            r == self.flexible_total(),
    {
        self.total_flexible_size
    }

    /// Flexible memory still available.
    pub fn available_flexible_size(&self) -> (r: u64)
        requires
            self.wf(),
        ensures
            r == self.flexible_total() - self.flexible_used(),
    {
        self.total_flexible_size - self.flexible_usage
    }

    /// Allocating `size` bytes (rounded up to a page) of direct memory would overflow.
    pub open spec fn direct_allocation_overflows(
        &self,
        search_start: PAddr,
        search_end: PAddr,
        size: u64,
        alignment: u64,
    ) -> bool {
        ||| size + (PAGE_SIZE - 1) > u64::MAX
        ||| self.phys().search(search_start, search_end, align_up_spec(size, PAGE_SIZE), alignment) is Overflow
    }

    /// Allocates direct (physical) memory, the size rounded up to a page.
    pub fn allocate_direct_memory(
        &mut self,
        search_start: PAddr,
        search_end: PAddr,
        size: u64,
        alignment: u64,
        memory_type: i32,
    ) -> (r: Option<PAddr>)
        requires
            old(self).wf(),
            !old(self).direct_allocation_overflows(search_start, search_end, size, alignment),
        ensures
            final(self).wf(),
            final(self).vmas() == old(self).vmas(),
            final(self).flexible_used() == old(self).flexible_used(),
            final(self).flexible_total() == old(self).flexible_total(),
            final(self).direct_total() == old(self).direct_total(),
            final(self).phys().total() == old(self).phys().total(),
            ({
                let aligned = align_up_spec(size, PAGE_SIZE);
                match old(self).phys().search(search_start, search_end, aligned, alignment) {
                    AllocSearch::Hit(addr) => r == Some(addr) && final(self).phys().areas()
                        == crate::memory::physical_memory::mark(
                        crate::memory::physical_memory::carve(
                            old(self).phys().areas(),
                            addr as int,
                            aligned as int,
                        ),
                        addr as int,
                        crate::memory::physical_memory::PhysicalMemoryType::Allocated,
                    ),
                    _ => r is None && final(self).phys().areas() == old(self).phys().areas(),
                }
            }),
    {
        let aligned_size = align_up(size, PAGE_SIZE);
        self.physical.allocate(search_start, search_end, aligned_size, alignment)
    }

    /// Where a mapping of `size` bytes requested at `virtual_addr` goes, and its size rounded
    /// up to a page: at `virtual_addr` when fixed and non-zero, else at the first free region.
    pub open spec fn map_target(&self, virtual_addr: VAddr, size: u64, flags: MemoryMapFlags) -> Result<(VAddr, u64), MemoryError> {
        let aligned = align_up_spec(size, PAGE_SIZE);
        if virtual_addr == 0 || (flags.bits & MAP_FIXED) != MAP_FIXED {
            match free_region_search(self.vmas(), 0, aligned, PAGE_SIZE) {
                AllocSearch::Hit(a) => Ok((a, aligned)),
                _ => Err(MemoryError::NoFreeRegion),
            }
        } else {
            Ok((virtual_addr, aligned))
        }
    }

    /// Placing a mapping would overflow 64-bit address arithmetic.
    pub open spec fn map_target_overflows(&self, virtual_addr: VAddr, size: u64, flags: MemoryMapFlags) -> bool {
        ||| size + (PAGE_SIZE - 1) > u64::MAX
        ||| ((virtual_addr == 0 || (flags.bits & MAP_FIXED) != MAP_FIXED) && free_region_search(
            self.vmas(),
            0,
            align_up_spec(size, PAGE_SIZE),
            PAGE_SIZE,
        ) is Overflow)
    }

    /// Decides where a mapping goes (the first half of mapping memory; the caller then makes
    /// the host mapping and records it with `commit_map`).
    /// Where a mapping of `size` bytes goes: the fixed address it asks for, else the first free
    /// region that fits its page-aligned size; with that size. `None` when the size or the
    /// search leaves 64 bits.
    pub fn map_target_for(&self, virtual_addr: VAddr, size: u64, flags: MemoryMapFlags) -> (r: Option<Result<(VAddr, u64), MemoryError>>)
        requires
            self.wf(),
        ensures
            r is None <==> self.map_target_overflows(virtual_addr, size, flags),
            r matches Some(t) ==> t == self.map_target(virtual_addr, size, flags),
    {
        if size > u64::MAX - (PAGE_SIZE - 1) {
            return None;
        }
        let aligned_size = align_up(size, PAGE_SIZE);
        if virtual_addr == 0 || !flags.contains(MAP_FIXED) {
            match find_free_region_exec(&self.vma_map, aligned_size, PAGE_SIZE) {
                AllocSearch::Hit(a) => Some(Ok((a, aligned_size))),
                AllocSearch::Overflow => None,
                AllocSearch::Miss => Some(Err(MemoryError::NoFreeRegion)),
            }
        } else {
            Some(Ok((virtual_addr, aligned_size)))
        }
    }

    /// Whether a direct memory allocation would leave 64 bits (see
    /// `direct_allocation_overflows`).
    pub fn direct_allocation_overflows_check(
        &self,
        search_start: PAddr,
        search_end: PAddr,
        size: u64,
        alignment: u64,
    ) -> (r: bool)
        requires
            self.wf(),
        ensures
            r == self.direct_allocation_overflows(search_start, search_end, size, alignment),
    {
        if size > u64::MAX - (PAGE_SIZE - 1) {
            return true;
        }
        let aligned_size = align_up(size, PAGE_SIZE);
        self.physical.allocation_overflows(search_start, search_end, aligned_size, alignment)
    }

    pub fn commit_map(
        &mut self,
        addr: VAddr,
        size: u64,
        prot: MemoryProt,
        flags: MemoryMapFlags,
        vma_type: VMAType,
        name: String,
    ) -> (r: VAddr)
        requires
            old(self).wf(),
            addr + size <= u64::MAX,
        ensures
            r == addr,
            final(self).wf(),
            final(self).phys() == old(self).phys(),
            final(self).flexible_used() == old(self).flexible_used(),
            final(self).flexible_total() == old(self).flexible_total(),
            final(self).direct_total() == old(self).direct_total(),
            final(self).vmas() == insert_vma(
                carve_vmas(old(self).vmas(), addr as int, size as int),
                VirtualMemoryArea {
                    base: addr,
                    size,
                    vma_type,
                    prot,
                    name,
                    disallow_merge: (flags.bits & MAP_NO_COALESCE) == MAP_NO_COALESCE,
                },
            ),
    {
        let carved = carve_vmas_exec(&self.vma_map, addr, size);
        let v = VirtualMemoryArea {
            base: addr,
            size,
            vma_type,
            prot,
            name,
            disallow_merge: flags.contains(MAP_NO_COALESCE),
        };
        proof {
            lemma_carve_bounded(self.vma_map@, addr as int, size as int);
            lemma_insert_bounded(carved@, v);
        }
        self.vma_map = insert_vma_exec(carved, v);
        addr
    }

    /// Records an unmapping of `size` bytes (rounded up to a page) at `addr`: carves the range
    /// out and records a free area there.
    pub fn commit_unmap(&mut self, addr: VAddr, size: u64)
        requires
            old(self).wf(),
            size + (PAGE_SIZE - 1) <= u64::MAX,
            addr + align_up_spec(size, PAGE_SIZE) <= u64::MAX,
        ensures
            final(self).wf(),
            final(self).phys() == old(self).phys(),
            final(self).flexible_used() == old(self).flexible_used(),
            final(self).flexible_total() == old(self).flexible_total(),
            final(self).direct_total() == old(self).direct_total(),
            exists|v: VirtualMemoryArea|
                #[trigger] is_free_vma(v, addr, align_up_spec(size, PAGE_SIZE)) && final(self).vmas()
                    == insert_vma(
                    carve_vmas(old(self).vmas(), addr as int, align_up_spec(size, PAGE_SIZE) as int),
                    v,
                ),
    {
        let aligned_size = align_up(size, PAGE_SIZE);
        let carved = carve_vmas_exec(&self.vma_map, addr, aligned_size);
        let ghost c = carved@;
        let v = VirtualMemoryArea {
            base: addr,
            size: aligned_size,
            vma_type: VMAType::Free,
            prot: MemoryProt { bits: PROT_NONE },
            name: String::new(),
            disallow_merge: false,
        };
        let ghost gv = v;
        proof {
            lemma_carve_bounded(self.vma_map@, addr as int, aligned_size as int);
            lemma_insert_bounded(carved@, v);
        }
        self.vma_map = insert_vma_exec(carved, v);
        assert(is_free_vma(gv, addr, aligned_size) && self.vma_map@ == insert_vma(c, gv));
    }

    /// The host protection a guest protection asks for: (read, write, execute).
    pub fn protect_memory(&self, prot: MemoryProt) -> (r: (bool, bool, bool))
        ensures
            r == ((prot.bits & PROT_CPU_READ) == PROT_CPU_READ, (prot.bits & PROT_CPU_WRITE)
                == PROT_CPU_WRITE, (prot.bits & PROT_CPU_EXEC) == PROT_CPU_EXEC),
    {
        (prot.contains(PROT_CPU_READ), prot.contains(PROT_CPU_WRITE), prot.contains(PROT_CPU_EXEC))
    }

    /// Whether a GPU mapping is valid: the range `[virtual_addr, virtual_addr + size)` lies
    /// within the 40-bit GPU address space.
    pub fn is_valid_gpu_mapping(&self, virtual_addr: VAddr, size: u64) -> (r: bool)
        requires
            virtual_addr + size <= u64::MAX,
        ensures
            r == (virtual_addr + size <= MAX_GPU_ADDRESS),
    {
        virtual_addr + size <= MAX_GPU_ADDRESS
    }
}

} // verus!
