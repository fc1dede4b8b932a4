//! Physical (direct) memory allocation.
//!
//! The physical memory is a sequence of areas, ordered by base address, that tile the whole
//! range `[0, total_size)`: each area starts where the previous one ends.
use vstd::prelude::*;
use crate::types::{PAddr, PAGE_SIZE, align_up, align_up_spec};

verus! {

/// State of a physical memory area.
#[derive(Clone, Copy, Debug, PartialEq, Eq, Structural)]
pub enum PhysicalMemoryType {
    Free,
    Allocated,
    Mapped,
    Pooled,
    Committed,
    Flexible,
}

/// A contiguous region of physical memory.
#[derive(Clone, Copy, Debug)]
pub struct PhysicalMemoryArea {
    pub base: PAddr,
    pub size: u64,
    pub memory_type: i32,
    pub dma_type: PhysicalMemoryType,
}

/// `a` is immediately followed by `b`, with the same memory and DMA types.
pub open spec fn mergeable(a: PhysicalMemoryArea, b: PhysicalMemoryArea) -> bool {
    a.base + a.size == b.base && a.memory_type == b.memory_type && a.dma_type == b.dma_type
}

impl PhysicalMemoryArea {
    /// One past the last address of the area.
    pub fn end(&self) -> (r: PAddr)
        requires
            self.base + self.size <= u64::MAX,
        ensures
            r == self.base + self.size,
    {
        self.base + self.size
    }

    /// Whether `next` directly follows this area with the same types.
    pub fn can_merge_with(&self, next: &PhysicalMemoryArea) -> (r: bool)
        requires
            self.base + self.size <= u64::MAX,
        ensures
            r == mergeable(*self, *next),
    {
        self.base + self.size == next.base && self.memory_type == next.memory_type
            && self.dma_type == next.dma_type
    }
}

/// Each area of `s` starts where the previous one ends.
pub open spec fn contiguous(s: Seq<PhysicalMemoryArea>) -> bool {
    forall|i: int, j: int|
        #![trigger s[i], s[j]]
        0 <= i && j == i + 1 && j < s.len() ==> s[i].base + s[i].size == s[j].base
}

/// The areas of `s` tile `[lo, hi)`: in address order, without gap or overlap, none empty.
pub open spec fn tiles(s: Seq<PhysicalMemoryArea>, lo: int, hi: int) -> bool {
    if s.len() == 0 {
        lo == hi
    } else {
        &&& s[0].base == lo
        &&& contiguous(s)
        &&& s.last().base + s.last().size == hi
        &&& forall|i: int| 0 <= i < s.len() ==> #[trigger] s[i].size > 0
    }
}

/// The area table of a memory of `total` bytes: a tiling of `[0, total)`, or the single
/// empty area of an empty memory.
pub open spec fn areas_wf(s: Seq<PhysicalMemoryArea>, total: int) -> bool {
    if total == 0 {
        s.len() == 1 && s[0].base == 0 && s[0].size == 0
    } else {
        s.len() >= 1 && tiles(s, 0, total) && total <= u64::MAX
    }
}

/// The index of the area whose base is `addr`, searching from `j`.
pub open spec fn area_index(s: Seq<PhysicalMemoryArea>, addr: int, j: int) -> Option<int>
    decreases s.len() - j,
{
    if j < 0 || j >= s.len() {
        None
    } else if s[j].base == addr {
        Some(j)
    } else {
        area_index(s, addr, j + 1)
    }
}

/// The index of the first area, from `j` on, that contains `addr`.
pub open spec fn containing_index(s: Seq<PhysicalMemoryArea>, addr: int, j: int) -> Option<int>
    decreases s.len() - j,
{
    if j < 0 || j >= s.len() {
        None
    } else if s[j].base <= addr < s[j].base + s[j].size {
        Some(j)
    } else {
        containing_index(s, addr, j + 1)
    }
}

/// The pieces that replace area `a` when `[addr, addr + size)` is carved out of it: the part
/// before, the carved part and the part after, each keyed by its base. A carved part of size
/// zero shares its key with the part after, which replaces it.
pub open spec fn carve_pieces(a: PhysicalMemoryArea, addr: int, size: int) -> Seq<
    PhysicalMemoryArea,
> {
    let end = addr + size;
    let before = if addr > a.base {
        seq![PhysicalMemoryArea { base: a.base, size: (addr - a.base) as u64, ..a }]
    } else {
        Seq::empty()
    };
    let after = if end < a.base + a.size {
        seq![PhysicalMemoryArea { base: end as u64, size: (a.base + a.size - end) as u64, ..a }]
    } else {
        Seq::empty()
    };
    let mid = if after.len() > 0 && size == 0 {
        Seq::empty()
    } else {
        seq![PhysicalMemoryArea { base: addr as u64, size: size as u64, ..a }]
    };
    before + mid + after
}

/// The area table after carving `[addr, addr + size)` out of the area that contains `addr`
/// (unchanged when no area contains it).
pub open spec fn carve(s: Seq<PhysicalMemoryArea>, addr: int, size: int) -> Seq<
    PhysicalMemoryArea,
> {
    match containing_index(s, addr, 0) {
        Some(j) => s.take(j) + carve_pieces(s[j], addr, size) + s.skip(j + 1),
        None => s,
    }
}

/// The area table with the area whose base is `addr` set to state `t` (unchanged when
/// there is none).
pub open spec fn mark(s: Seq<PhysicalMemoryArea>, addr: int, t: PhysicalMemoryType) -> Seq<
    PhysicalMemoryArea,
> {
    match area_index(s, addr, 0) {
        Some(i) => s.update(i, PhysicalMemoryArea { dma_type: t, ..s[i] }),
        None => s,
    }
}

/// `a` and `b` merged into one area.
pub open spec fn merged(a: PhysicalMemoryArea, b: PhysicalMemoryArea) -> PhysicalMemoryArea {
    PhysicalMemoryArea { size: (a.size + b.size) as u64, ..a }
}

/// The area table with every run of mergeable neighbours merged, from the lowest address up.
pub open spec fn coalesce(s: Seq<PhysicalMemoryArea>) -> Seq<PhysicalMemoryArea>
    decreases s.len(),
{
    if s.len() == 0 {
        s
    } else {
        let c = coalesce(s.drop_last());
        let a = s.last();
        if c.len() > 0 && mergeable(c.last(), a) {
            c.drop_last().push(merged(c.last(), a))
        } else {
            c.push(a)
        }
    }
}

/// No two neighbours of `s` can be merged.
pub open spec fn coalesced(s: Seq<PhysicalMemoryArea>) -> bool {
    forall|i: int, j: int|
        #![trigger s[i], s[j]]
        0 <= i && j == i + 1 && j < s.len() ==> !mergeable(s[i], s[j])
}

/// The area whose base is `addr` exists and has exactly `size` bytes.
pub open spec fn freeable(s: Seq<PhysicalMemoryArea>, addr: int, size: u64) -> bool {
    area_index(s, addr, 0) matches Some(i) && s[i].size == size
}

/// What the first-fit search for a free area finds.
pub enum AllocSearch {
    /// The allocation goes at this address.
    Hit(u64),
    /// No free area fits.
    Miss,
    /// Aligning or ending an allocation overflows 64 bits.
    Overflow,
}

/// The first-fit search over the areas from index `i` on: the first free area in which
/// `size` bytes fit at its base (or `search_start`, whichever is higher) aligned up to
/// `alignment`, ending no later than `search_end`.
pub open spec fn alloc_search(
    s: Seq<PhysicalMemoryArea>,
    i: int,
    search_start: u64,
    search_end: u64,
    size: u64,
    alignment: u64,
) -> AllocSearch
    decreases s.len() - i,
{
    if i < 0 || i >= s.len() {
        AllocSearch::Miss
    } else if s[i].dma_type != PhysicalMemoryType::Free {
        alloc_search(s, i + 1, search_start, search_end, size, alignment)
    } else {
        let v = if s[i].base >= search_start {
            s[i].base
        } else {
            search_start
        };
        if v + (alignment - 1) > u64::MAX {
            AllocSearch::Overflow
        } else {
            let ab = align_up_spec(v, alignment);
            if ab + size > u64::MAX {
                AllocSearch::Overflow
            } else if ab >= s[i].base && ab + size <= s[i].base + s[i].size && ab + size
                <= search_end {
                AllocSearch::Hit(ab)
            } else {
                alloc_search(s, i + 1, search_start, search_end, size, alignment)
            }
        }
    }
}

/// The alignment an allocation uses: at least a page.
pub open spec fn effective_alignment(alignment: u64) -> u64 {
    if alignment >= PAGE_SIZE {
        alignment
    } else {
        PAGE_SIZE
    }
}


// ============================================================================
// Facts about tilings
// ============================================================================

/// In a tiling, an earlier area ends no later than a later one starts.
pub proof fn lemma_tiles_sorted(s: Seq<PhysicalMemoryArea>, lo: int, hi: int, j: int, k: int)
    requires
        tiles(s, lo, hi),
        0 <= j < k < s.len(),
    ensures
        s[j].base + s[j].size <= s[k].base,
        s[j].base < s[k].base,
    decreases k - j,
{
    assert(s[k - 1].base + s[k - 1].size == s[k].base);
    assert(s[k - 1].size > 0);
    if j < k - 1 {
        lemma_tiles_sorted(s, lo, hi, j, k - 1);
    }
}

/// Every area of a tiling lies within the tiled range.
pub proof fn lemma_tiles_bounds(s: Seq<PhysicalMemoryArea>, lo: int, hi: int, j: int)
    requires
        tiles(s, lo, hi),
        0 <= j < s.len(),
    ensures
        lo <= s[j].base,
        s[j].base + s[j].size <= hi,
{
    if j > 0 {
        lemma_tiles_sorted(s, lo, hi, 0, j);
    }
    if j < s.len() - 1 {
        lemma_tiles_sorted(s, lo, hi, j, s.len() - 1);
    }
}

/// In a tiling, the area covering an address is the one the search from the start finds.
pub proof fn lemma_containing_is(s: Seq<PhysicalMemoryArea>, lo: int, hi: int, addr: int, i: int)
    requires
        tiles(s, lo, hi),
        0 <= i < s.len(),
        s[i].base <= addr < s[i].base + s[i].size,
    ensures
        containing_index(s, addr, 0) == Some(i),
{
    assert forall|j: int| 0 <= j < i implies !(#[trigger] s[j].base <= addr < s[j].base + s[j].size) by {
        lemma_tiles_sorted(s, lo, hi, j, i);
    }
    lemma_containing_from(s, addr, 0, i);
}

/// Searching from `j` when no area in `[j, i)` matches and area `i` does finds `i`.
proof fn lemma_containing_from(s: Seq<PhysicalMemoryArea>, addr: int, j: int, i: int)
    requires
        0 <= j <= i < s.len(),
        s[i].base <= addr < s[i].base + s[i].size,
        forall|k: int| 0 <= k < i ==> !(#[trigger] s[k].base <= addr < s[k].base + s[k].size),
    ensures
        containing_index(s, addr, j) == Some(i),
    decreases i - j,
{
    if j < i {
        lemma_containing_from(s, addr, j + 1, i);
    }
}

/// In a tiling, no area contains an address at or past the end.
pub proof fn lemma_containing_none_past(s: Seq<PhysicalMemoryArea>, lo: int, hi: int, addr: int, j: int)
    requires
        tiles(s, lo, hi),
        addr >= hi,
        0 <= j,
    ensures
        containing_index(s, addr, j) is None,
    decreases s.len() - j,
{
    if j < s.len() {
        lemma_tiles_bounds(s, lo, hi, j);
        lemma_containing_none_past(s, lo, hi, addr, j + 1);
    }
}

/// In a tiling, the area with a given base is the only one with it.
pub proof fn lemma_area_index_is(s: Seq<PhysicalMemoryArea>, lo: int, hi: int, i: int)
    requires
        tiles(s, lo, hi),
        0 <= i < s.len(),
    ensures
        area_index(s, s[i].base as int, 0) == Some(i),
{
    assert forall|j: int| 0 <= j < i implies s[j].base != s[i].base by {
        lemma_tiles_sorted(s, lo, hi, j, i);
    }
    lemma_area_index_from(s, s[i].base as int, 0, i);
}

/// Searching from `j` when no area in `[j, i)` has base `addr` and area `i` does finds `i`.
proof fn lemma_area_index_from(s: Seq<PhysicalMemoryArea>, addr: int, j: int, i: int)
    requires
        0 <= j <= i < s.len(),
        s[i].base == addr,
        forall|k: int| 0 <= k < i ==> s[k].base != addr,
    ensures
        area_index(s, addr, j) == Some(i),
    decreases i - j,
{
    if j < i {
        lemma_area_index_from(s, addr, j + 1, i);
    }
}

/// A found area index holds an area with that base.
pub proof fn lemma_area_index_found(s: Seq<PhysicalMemoryArea>, addr: int, j: int)
    requires
        0 <= j,
    ensures
        area_index(s, addr, j) matches Some(i) ==> j <= i < s.len() && s[i].base == addr,
    decreases s.len() - j,
{
    if j < s.len() && s[j].base != addr {
        lemma_area_index_found(s, addr, j + 1);
    }
}

/// A found containing index holds an area containing the address.
pub proof fn lemma_containing_found(s: Seq<PhysicalMemoryArea>, addr: int, j: int)
    requires
        0 <= j,
    ensures
        containing_index(s, addr, j) matches Some(i) ==> j <= i < s.len() && s[i].base <= addr
            < s[i].base + s[i].size,
    decreases s.len() - j,
{
    if j < s.len() && !(s[j].base <= addr < s[j].base + s[j].size) {
        lemma_containing_found(s, addr, j + 1);
    }
}

/// Replacing one area of a tiling by a tiling of the same range keeps a tiling.
pub proof fn lemma_tiles_replace(
    s: Seq<PhysicalMemoryArea>,
    lo: int,
    hi: int,
    j: int,
    p: Seq<PhysicalMemoryArea>,
)
    requires
        tiles(s, lo, hi),
        0 <= j < s.len(),
        p.len() >= 1,
        tiles(p, s[j].base as int, s[j].base + s[j].size),
    ensures
        tiles(s.take(j) + p + s.skip(j + 1), lo, hi),
{
    let t = s.take(j) + p + s.skip(j + 1);
    let pl = p.len() as int;
    assert(t.len() == s.len() + pl - 1);
    assert forall|x: int| 0 <= x < t.len() implies t[x] == (if x < j {
        s[x]
    } else if x < j + pl {
        p[x - j]
    } else {
        s[x - pl + 1]
    }) by {}
    assert forall|x: int, y: int|
        0 <= x && y == x + 1 && y < t.len() implies #[trigger] t[x].base + t[x].size
        == #[trigger] t[y].base by {
        if y < j {
            assert(s[x].base + s[x].size == s[y].base);
        } else if y == j {
            assert(s[x].base + s[x].size == s[j].base);
        } else if y < j + pl {
            assert(p[x - j].base + p[x - j].size == p[y - j].base);
        } else if y == j + pl {
            assert(s[j].base + s[j].size == s[j + 1].base);
        } else {
            assert(s[x - pl + 1].base + s[x - pl + 1].size == s[y - pl + 1].base);
        }
    }
    assert forall|x: int| 0 <= x < t.len() implies #[trigger] t[x].size > 0 by {
        if x < j {
            assert(s[x].size > 0);
        } else if x < j + pl {
            assert(p[x - j].size > 0);
        } else {
            assert(s[x - pl + 1].size > 0);
        }
    }
    if j == 0 {
        assert(t[0] == p[0]);
    }
    if j == s.len() - 1 {
        assert(t.last() == p.last());
    } else {
        assert(t.last() == s.last());
    }
}

/// Changing the state of one area keeps a tiling.
pub proof fn lemma_tiles_mark(s: Seq<PhysicalMemoryArea>, lo: int, hi: int, addr: int, t: PhysicalMemoryType)
    requires
        tiles(s, lo, hi),
    ensures
        tiles(mark(s, addr, t), lo, hi),
        mark(s, addr, t).len() == s.len(),
{
    lemma_area_index_found(s, addr, 0);
    let m = mark(s, addr, t);
    assert forall|x: int| 0 <= x < s.len() implies #[trigger] m[x].base == s[x].base && m[x].size
        == s[x].size by {}
    assert forall|x: int, y: int|
        0 <= x && y == x + 1 && y < m.len() implies #[trigger] m[x].base + m[x].size
        == #[trigger] m[y].base by {
        assert(s[x].base + s[x].size == s[y].base);
    }
    assert forall|x: int| 0 <= x < m.len() implies #[trigger] m[x].size > 0 by {
        assert(s[x].size > 0);
    }
}

/// Removing the last area of a tiling tiles up to that area's base.
proof fn lemma_tiles_drop_last(s: Seq<PhysicalMemoryArea>, lo: int, hi: int)
    requires
        tiles(s, lo, hi),
        s.len() >= 1,
    ensures
        tiles(s.drop_last(), lo, s.last().base as int),
{
    let d = s.drop_last();
    if s.len() >= 2 {
        assert(s[s.len() - 2].base + s[s.len() - 2].size == s[s.len() - 1].base);
        assert forall|x: int, y: int|
            0 <= x && y == x + 1 && y < d.len() implies #[trigger] d[x].base + d[x].size
            == #[trigger] d[y].base by {
            assert(s[x].base + s[x].size == s[y].base);
        }
        assert forall|x: int| 0 <= x < d.len() implies #[trigger] d[x].size > 0 by {
            assert(s[x].size > 0);
        }
    }
}

/// A prefix of a tiling tiles up to where its last area ends.
pub proof fn lemma_tiles_take(s: Seq<PhysicalMemoryArea>, lo: int, hi: int, i: int)
    requires
        tiles(s, lo, hi),
        1 <= i <= s.len(),
    ensures
        tiles(s.take(i), lo, s[i - 1].base + s[i - 1].size),
{
    let t = s.take(i);
    assert forall|x: int, y: int|
        0 <= x && y == x + 1 && y < t.len() implies #[trigger] t[x].base + t[x].size
        == #[trigger] t[y].base by {
        assert(s[x].base + s[x].size == s[y].base);
    }
    assert forall|x: int| 0 <= x < t.len() implies #[trigger] t[x].size > 0 by {
        assert(s[x].size > 0);
    }
}

/// Coalescing a tiling keeps a tiling of the same range, with no mergeable neighbours left.
pub proof fn lemma_coalesce_tiles(s: Seq<PhysicalMemoryArea>, lo: int, hi: int)
    requires
        tiles(s, lo, hi),
        hi <= u64::MAX,
    ensures
        tiles(coalesce(s), lo, hi),
        coalesced(coalesce(s)),
    decreases s.len(),
{
    if s.len() > 0 {
        let a = s.last();
        lemma_tiles_drop_last(s, lo, hi);
        lemma_coalesce_tiles(s.drop_last(), lo, a.base as int);
        let c = coalesce(s.drop_last());
        assert(a.size > 0);
        if c.len() > 0 && mergeable(c.last(), a) {
            let m = merged(c.last(), a);
            let r = c.drop_last().push(m);
            assert(r == coalesce(s));
            assert forall|x: int, y: int|
                0 <= x && y == x + 1 && y < r.len() implies #[trigger] r[x].base + r[x].size
                == #[trigger] r[y].base by {
                assert(c[x].base + c[x].size == c[y].base);
            }
            assert forall|x: int| 0 <= x < r.len() implies #[trigger] r[x].size > 0 by {
                assert(c[x].size > 0);
            }
            assert forall|x: int, y: int|
                0 <= x && y == x + 1 && y < r.len() implies !mergeable(#[trigger] r[x], #[trigger] r[y]) by {
                assert(!mergeable(c[x], c[y]));
            }
        } else {
            let r = c.push(a);
            assert(r == coalesce(s));
            assert forall|x: int, y: int|
                0 <= x && y == x + 1 && y < r.len() implies #[trigger] r[x].base + r[x].size
                == #[trigger] r[y].base by {
                if y < c.len() {
                    assert(c[x].base + c[x].size == c[y].base);
                }
            }
            assert forall|x: int| 0 <= x < r.len() implies #[trigger] r[x].size > 0 by {
                if x < c.len() {
                    assert(c[x].size > 0);
                }
            }
            assert forall|x: int, y: int|
                0 <= x && y == x + 1 && y < r.len() implies !mergeable(#[trigger] r[x], #[trigger] r[y]) by {
                if y < c.len() {
                    assert(!mergeable(c[x], c[y]));
                }
            }
        }
    }
}


/// Carving a non-empty range, or an empty one strictly inside, out of an area yields pieces
/// that tile the area.
pub proof fn lemma_pieces_tile(a: PhysicalMemoryArea, addr: int, size: int)
    requires
        a.base <= addr,
        addr + size <= a.base + a.size,
        size >= 0,
        size > 0 || addr < a.base + a.size,
        a.base + a.size <= u64::MAX,
    ensures
        carve_pieces(a, addr, size).len() >= 1,
        tiles(carve_pieces(a, addr, size), a.base as int, a.base + a.size),
{
    let p = carve_pieces(a, addr, size);
    let end = addr + size;
    assert forall|x: int, y: int|
        0 <= x && y == x + 1 && y < p.len() implies #[trigger] p[x].base + p[x].size
        == #[trigger] p[y].base by {}
    assert forall|x: int| 0 <= x < p.len() implies #[trigger] p[x].size > 0 by {}
}

/// What a hit of the first-fit search tells about the chosen address.
pub proof fn lemma_search_hit(
    s: Seq<PhysicalMemoryArea>,
    j: int,
    st: u64,
    en: u64,
    size: u64,
    a: u64,
    addr: u64,
) -> (i: int)
    requires
        0 <= j,
        a >= 1,
        alloc_search(s, j, st, en, size, a) == AllocSearch::Hit(addr),
    ensures
        j <= i < s.len(),
        s[i].dma_type == PhysicalMemoryType::Free,
        s[i].base <= addr,
        addr + size <= s[i].base + s[i].size,
        addr + size <= en,
        addr == align_up_spec(if s[i].base >= st { s[i].base } else { st }, a),
        addr >= st,
    decreases s.len() - j,
{
    if j < s.len() {
        let v = if s[j].base >= st {
            s[j].base
        } else {
            st
        };
        if s[j].dma_type == PhysicalMemoryType::Free && v + (a - 1) <= u64::MAX
            && align_up_spec(v, a) + size <= u64::MAX && align_up_spec(v, a) >= s[j].base
            && align_up_spec(v, a) + size <= s[j].base + s[j].size && align_up_spec(v, a) + size
            <= en {
            assert(addr == align_up_spec(v, a));
            assert(align_up_spec(v, a) >= v) by {
                let m = (a - 1) as u64;
                let w = (v + m) as u64;
                assert(w & !m >= w - m) by (bit_vector);
            }
            j
        } else {
            lemma_search_hit(s, j + 1, st, en, size, a, addr)
        }
    } else {
        j
    }
}

/// Allocating at a hit of the first-fit search keeps a well-formed area table.
pub proof fn lemma_allocate_wf(
    s: Seq<PhysicalMemoryArea>,
    total: int,
    st: u64,
    en: u64,
    size: u64,
    a: u64,
    addr: u64,
)
    requires
        areas_wf(s, total),
        a >= 1,
        alloc_search(s, 0, st, en, size, a) == AllocSearch::Hit(addr),
    ensures
        areas_wf(mark(carve(s, addr as int, size as int), addr as int, PhysicalMemoryType::Allocated), total),
{
    let i = lemma_search_hit(s, 0, st, en, size, a, addr);
    if total == 0 {
        assert(containing_index(s, addr as int, 1) is None);
        assert(containing_index(s, addr as int, 0) is None);
        assert(carve(s, addr as int, size as int) == s);
        lemma_area_index_found(s, addr as int, 0);
    } else {
        let c = carve(s, addr as int, size as int);
        if size > 0 || addr < s[i].base + s[i].size {
            lemma_tiles_bounds(s, 0, total, i);
            lemma_containing_is(s, 0, total, addr as int, i);
            lemma_pieces_tile(s[i], addr as int, size as int);
            lemma_tiles_replace(s, 0, total, i, carve_pieces(s[i], addr as int, size as int));
        } else if i + 1 < s.len() {
            assert(s[i].base + s[i].size == s[i + 1].base);
            assert(s[i + 1].size > 0);
            lemma_containing_is(s, 0, total, addr as int, i + 1);
            assert(carve_pieces(s[i + 1], addr as int, size as int) =~= seq![s[i + 1]]);
            assert(c =~= s);
        } else {
            lemma_containing_none_past(s, 0, total, addr as int, 0);
            assert(c == s);
        }
        lemma_tiles_mark(c, 0, total, addr as int, PhysicalMemoryType::Allocated);
    }
}

/// Carving `[addr, addr + size)` out of the area that contains `addr` keeps a partition of the
/// memory: the carved range becomes an area of its own, with the parts of the old area before
/// and after it as areas too, all of the old area's types; every other area stays as it was;
/// and when no area contains `addr` nothing changes.
pub proof fn law_carve_partition(s: Seq<PhysicalMemoryArea>, total: int, addr: int, size: int)
    requires
        areas_wf(s, total),
        0 <= addr,
        size > 0,
        containing_index(s, addr, 0) matches Some(j) ==> addr + size <= s[j].base + s[j].size,
    ensures
        areas_wf(carve(s, addr, size), total),
        containing_index(s, addr, 0) is None ==> carve(s, addr, size) == s,
        containing_index(s, addr, 0) matches Some(j) ==> {
            let a = s[j];
            let c = carve(s, addr, size);
            &&& c == s.take(j) + carve_pieces(a, addr, size) + s.skip(j + 1)
            &&& c.contains(PhysicalMemoryArea { base: addr as u64, size: size as u64, ..a })
            &&& a.base < addr ==> c.contains(
                PhysicalMemoryArea { base: a.base, size: (addr - a.base) as u64, ..a },
            )
            &&& addr + size < a.base + a.size ==> c.contains(
                PhysicalMemoryArea {
                    base: (addr + size) as u64,
                    size: (a.base + a.size - (addr + size)) as u64,
                    ..a
                },
            )
        },
{
    lemma_containing_found(s, addr, 0);
    match containing_index(s, addr, 0) {
        Some(j) => {
            let a = s[j];
            if total == 0 {
                assert(s[j].size == 0);
            }
            lemma_tiles_bounds(s, 0, total, j);
            lemma_pieces_tile(a, addr, size);
            lemma_tiles_replace(s, 0, total, j, carve_pieces(a, addr, size));
            let p = carve_pieces(a, addr, size);
            let c = s.take(j) + p + s.skip(j + 1);
            assert forall|k: int| 0 <= k < p.len() implies c[j + k] == p[k] by {}
            let b: int = if a.base < addr { 1 } else { 0 };
            assert(p[b] == PhysicalMemoryArea { base: addr as u64, size: size as u64, ..a });
            assert(c[j + b] == p[b]);
            if a.base < addr {
                assert(c[j] == p[0]);
            }
            if addr + size < a.base + a.size {
                assert(c[j + b + 1] == p[b + 1]);
            }
        },
        None => {},
    }
}

/// Freeing keeps a well-formed area table.
pub proof fn lemma_free_wf(s: Seq<PhysicalMemoryArea>, total: int, addr: u64)
    requires
        areas_wf(s, total),
    ensures
        areas_wf(coalesce(mark(s, addr as int, PhysicalMemoryType::Free)), total),
{
    let m = mark(s, addr as int, PhysicalMemoryType::Free);
    lemma_area_index_found(s, addr as int, 0);
    if total == 0 {
        assert(m.len() == 1);
        assert(m.drop_last().len() == 0);
        assert(coalesce(m.drop_last()).len() == 0);
        assert(coalesce(m) == seq![m[0]]);
    } else {
        lemma_tiles_mark(s, 0, total, addr as int, PhysicalMemoryType::Free);
        lemma_coalesce_tiles(m, 0, total);
        assert(coalesce(m).len() >= 1);
    }
}


/// Coalescing a table with one more area takes one merge step.
proof fn lemma_coalesce_push(t: Seq<PhysicalMemoryArea>, x: PhysicalMemoryArea)
    ensures
        coalesce(t.push(x)) == ({
            let c = coalesce(t);
            if c.len() > 0 && mergeable(c.last(), x) {
                c.drop_last().push(merged(c.last(), x))
            } else {
                c.push(x)
            }
        }),
{
    assert(t.push(x).drop_last() =~= t);
}

/// A table with no mergeable neighbours is left as it is by coalescing.
proof fn lemma_coalesce_fixed(t: Seq<PhysicalMemoryArea>)
    requires
        coalesced(t),
    ensures
        coalesce(t) == t,
    decreases t.len(),
{
    if t.len() > 0 {
        let d = t.drop_last();
        assert forall|i: int, j: int| 0 <= i && j == i + 1 && j < d.len() implies !mergeable(
            #[trigger] d[i],
            #[trigger] d[j],
        ) by {
            assert(!mergeable(t[i], t[j]));
        }
        lemma_coalesce_fixed(d);
        if d.len() > 0 {
            assert(!mergeable(t[d.len() - 1], t[d.len() as int]));
        }
        assert(d.push(t.last()) =~= t);
    }
}

/// Once a prefix coalesces to `u`, areas that cannot merge with their neighbours are kept.
proof fn lemma_coalesce_extend(q: Seq<PhysicalMemoryArea>, u: Seq<PhysicalMemoryArea>, r: Seq<PhysicalMemoryArea>)
    requires
        coalesce(q) == u,
        coalesced(u + r),
    ensures
        coalesce(q + r) == u + r,
    decreases r.len(),
{
    if r.len() == 0 {
        assert(q + r =~= q);
        assert(u + r =~= u);
    } else {
        let ur = u + r;
        let ud = u + r.drop_last();
        assert forall|i: int, j: int| 0 <= i && j == i + 1 && j < ud.len() implies !mergeable(
            #[trigger] ud[i],
            #[trigger] ud[j],
        ) by {
            assert(ud[i] == ur[i] && ud[j] == ur[j]);
            assert(!mergeable(ur[i], ur[j]));
        }
        lemma_coalesce_extend(q, u, r.drop_last());
        assert((q + r) =~= (q + r.drop_last()).push(r.last()));
        lemma_coalesce_push(q + r.drop_last(), r.last());
        if ud.len() > 0 {
            assert(ud.last() == ur[ud.len() - 1]);
            assert(r.last() == ur[ud.len() as int]);
            assert(!mergeable(ur[ud.len() - 1], ur[ud.len() as int]));
        }
        assert(ud.push(r.last()) =~= ur);
    }
}

/// Allocation undone: in memory whose areas are fully merged, freeing what an allocation of a
/// non-empty size handed out (which `free` accepts) gives back the areas as they were.
#[verifier::spinoff_prover]
#[verifier::rlimit(50)]
pub proof fn law_free_undoes_allocate(
    p: PhysicalMemoryManager,
    search_start: u64,
    search_end: u64,
    size: u64,
    alignment: u64,
    addr: u64,
)
    requires
        p.wf(),
        coalesced(p.areas()),
        size > 0,
        p.search(search_start, search_end, size, alignment) == AllocSearch::Hit(addr),
    ensures
        ({
            let allocated = mark(
                carve(p.areas(), addr as int, size as int),
                addr as int,
                PhysicalMemoryType::Allocated,
            );
            &&& freeable(allocated, addr as int, size)
            &&& coalesce(mark(allocated, addr as int, PhysicalMemoryType::Free)) == p.areas()
        }),
{
    let s = p.areas@;
    let total = p.total_size as int;
    let a = effective_alignment(alignment);
    let i = lemma_search_hit(s, 0, search_start, search_end, size, a, addr);
    let ai = s[i];
    if total == 0 {
        assert(false);
    }
    lemma_tiles_bounds(s, 0, total, i);
    lemma_containing_is(s, 0, total, addr as int, i);
    let pc = carve_pieces(ai, addr as int, size as int);
    lemma_pieces_tile(ai, addr as int, size as int);
    lemma_tiles_replace(s, 0, total, i, pc);
    let c = s.take(i) + pc + s.skip(i + 1);
    assert(carve(s, addr as int, size as int) == c);
    let has_before = addr > ai.base;
    let k = if has_before {
        i + 1
    } else {
        i
    };
    assert(c[k].base == addr);
    lemma_area_index_is(c, 0, total, k);
    let s1 = mark(c, addr as int, PhysicalMemoryType::Allocated);
    assert(s1 == c.update(k, PhysicalMemoryArea { dma_type: PhysicalMemoryType::Allocated, ..c[k] }));
    lemma_tiles_mark(c, 0, total, addr as int, PhysicalMemoryType::Allocated);
    assert(s1[k].base == addr);
    lemma_area_index_is(s1, 0, total, k);
    assert(freeable(s1, addr as int, size));
    let s2 = mark(s1, addr as int, PhysicalMemoryType::Free);
    assert(s2 =~= c);
    // Coalescing the carved table merges the pieces back into the area they came from.
    let u0 = s.take(i);
    assert forall|x: int, y: int| 0 <= x && y == x + 1 && y < u0.len() implies !mergeable(
        #[trigger] u0[x],
        #[trigger] u0[y],
    ) by {
        assert(!mergeable(s[x], s[y]));
    }
    lemma_coalesce_fixed(u0);
    let end = addr + size;
    let mid = PhysicalMemoryArea { base: addr, size: size, ..ai };
    let bm = PhysicalMemoryArea { base: ai.base, size: (addr - ai.base + size) as u64, ..ai };
    if i > 0 {
        assert(!mergeable(s[i - 1], s[i]));
    }
    let q1 = if has_before {
        let b = PhysicalMemoryArea { base: ai.base, size: (addr - ai.base) as u64, ..ai };
        lemma_coalesce_push(u0, b);
        assert(coalesce(u0.push(b)) == u0.push(b));
        lemma_coalesce_push(u0.push(b), mid);
        assert(u0.push(b).drop_last() =~= u0);
        assert(coalesce(u0.push(b).push(mid)) == u0.push(bm));
        u0.push(b).push(mid)
    } else {
        lemma_coalesce_push(u0, mid);
        assert(mid == bm);
        u0.push(mid)
    };
    assert(coalesce(q1) == u0.push(bm));
    let q = if end < ai.base + ai.size {
        let af = PhysicalMemoryArea { base: end as u64, size: (ai.base + ai.size - end) as u64, ..ai };
        lemma_coalesce_push(q1, af);
        assert(u0.push(bm).drop_last() =~= u0);
        assert(merged(bm, af) == ai);
        q1.push(af)
    } else {
        assert(bm == ai);
        q1
    };
    assert(coalesce(q) == u0.push(ai));
    assert(q =~= s.take(i) + pc);
    assert(u0.push(ai) + s.skip(i + 1) =~= s);
    lemma_coalesce_extend(q, u0.push(ai), s.skip(i + 1));
    assert(c =~= q + s.skip(i + 1));
}


// ============================================================================
// The manager
// ============================================================================

/// Manages physical (direct) memory allocation.
pub struct PhysicalMemoryManager {
    /// The areas, ordered by base address.
    areas: Vec<PhysicalMemoryArea>,
    /// Total direct memory size.
    total_size: u64,
}

/// The state an exec search reports.
fn search_free(
    areas: &Vec<PhysicalMemoryArea>,
    search_start: u64,
    search_end: u64,
    size: u64,
    alignment: u64,
) -> (r: AllocSearch)
    requires
        alignment >= 1,
    ensures
        r == alloc_search(areas@, 0, search_start, search_end, size, alignment),
{
    let mut i: usize = 0;
    while i < areas.len()
        invariant
            alignment >= 1,
            i <= areas@.len(),
            alloc_search(areas@, 0, search_start, search_end, size, alignment) == alloc_search(
                areas@,
                i as int,
                search_start,
                search_end,
                size,
                alignment,
            ),
        decreases areas.len() - i,
    {
        let area = areas[i];
        if area.dma_type == PhysicalMemoryType::Free {
            let v = if area.base >= search_start {
                area.base
            } else {
                search_start
            };
            if v > u64::MAX - (alignment - 1) {
                return AllocSearch::Overflow;
            }
            let ab = align_up(v, alignment);
            if ab > u64::MAX - size {
                return AllocSearch::Overflow;
            }
            if ab >= area.base && (area.base as u128) + (area.size as u128) >= (ab as u128) + (
            size as u128) && ab + size <= search_end {
                return AllocSearch::Hit(ab);
            }
        }
        i = i + 1;
    }
    AllocSearch::Miss
}

impl PhysicalMemoryManager {
    /// The area table, in address order.
    pub closed spec fn areas(&self) -> Seq<PhysicalMemoryArea> {
        self.areas@
    }

    /// The total size managed.
    pub closed spec fn total(&self) -> u64 {
        self.total_size
    }

    /// The area table tiles `[0, total)`.
    pub closed spec fn wf(&self) -> bool {
        areas_wf(self.areas@, self.total_size as int)
    }

    /// A manager of `total_size` bytes, all of it one free area.
    pub fn new(total_size: u64) -> (r: Self)
        ensures
            r.wf(),
            r.total() == total_size,
            r.areas() == seq![
                PhysicalMemoryArea {
                    base: 0,
                    size: total_size,
                    memory_type: 0,
                    dma_type: PhysicalMemoryType::Free,
                },
            ],
    {
        let mut areas: Vec<PhysicalMemoryArea> = Vec::new();
        areas.push(
            PhysicalMemoryArea {
                base: 0,
                size: total_size,
                memory_type: 0,
                dma_type: PhysicalMemoryType::Free,
            },
        );
        let r = PhysicalMemoryManager { areas, total_size };
        proof {
            let s = r.areas@;
            assert(s.len() == 1);
            if total_size > 0 {
                assert forall|x: int, y: int|
                    0 <= x && y == x + 1 && y < s.len() implies #[trigger] s[x].base + s[x].size
                    == #[trigger] s[y].base by {}
            }
        }
        r
    }

    /// Total physical memory size.
    pub fn total_size(&self) -> (r: u64)
        ensures
            r == self.total(),
    {
        self.total_size
    }

    /// Where a first-fit allocation would go, or that it overflows.
    pub open spec fn search(
        &self,
        search_start: u64,
        search_end: u64,
        size: u64,
        alignment: u64,
    ) -> AllocSearch {
        alloc_search(self.areas(), 0, search_start, search_end, size, effective_alignment(alignment))
    }

    /// Whether an allocation with these arguments would overflow 64-bit address arithmetic.
    pub fn allocation_overflows(
        &self,
        search_start: u64,
        search_end: u64,
        size: u64,
        alignment: u64,
    ) -> (r: bool)
        ensures
            r == (self.search(search_start, search_end, size, alignment) is Overflow),
    {
        let a = if alignment >= PAGE_SIZE {
            alignment
        } else {
            PAGE_SIZE
        };
        match search_free(&self.areas, search_start, search_end, size, a) {
            AllocSearch::Overflow => true,
            _ => false,
        }
    }

    /// The index of the area with base `addr`.
    fn find_area(&self, addr: u64) -> (r: Option<usize>)
        ensures
            r matches Some(i) ==> area_index(self.areas@, addr as int, 0) == Some(i as int) && i
                < self.areas@.len(),
            r is None ==> area_index(self.areas@, addr as int, 0) is None,
    {
        let mut i: usize = 0;
        while i < self.areas.len()
            invariant
                i <= self.areas@.len(),
                area_index(self.areas@, addr as int, 0) == area_index(self.areas@, addr as int, i as int),
            decreases self.areas.len() - i,
        {
            if self.areas[i].base == addr {
                return Some(i);
            }
            i = i + 1;
        }
        None
    }

    /// Sets the state of the area with base `addr`, if there is one.
    fn mark_area(&mut self, addr: u64, t: PhysicalMemoryType)
        ensures
            final(self).areas@ == mark(old(self).areas@, addr as int, t),
            final(self).total_size == old(self).total_size,
    {
        match self.find_area(addr) {
            Some(i) => {
                let mut a = self.areas[i];
                a.dma_type = t;
                self.areas.set(i, a);
            },
            None => {},
        }
    }

    /// Carves `[addr, addr + size)` out of the area that contains `addr`.
    fn carve_area(&mut self, addr: u64, size: u64)
        requires
            containing_index(old(self).areas@, addr as int, 0) matches Some(j) ==> addr + size
                <= old(self).areas@[j].base + old(self).areas@[j].size,
            forall|i: int| 0 <= i < old(self).areas@.len() ==> #[trigger] old(self).areas@[i].base + old(self).areas@[i].size <= u64::MAX,
        ensures
            final(self).areas@ == carve(old(self).areas@, addr as int, size as int),
            final(self).total_size == old(self).total_size,
    {
        proof {
            lemma_containing_found(self.areas@, addr as int, 0);
        }
        let mut found: Option<usize> = None;
        let mut i: usize = 0;
        while i < self.areas.len()
            invariant_except_break
                found is None,
            invariant
                i <= self.areas@.len(),
                containing_index(self.areas@, addr as int, 0) == containing_index(
                    self.areas@,
                    addr as int,
                    i as int,
                ),
                forall|k: int| 0 <= k < self.areas@.len() ==> #[trigger] self.areas@[k].base + self.areas@[k].size <= u64::MAX,
            ensures
                found matches Some(j) ==> containing_index(self.areas@, addr as int, 0) == Some(
                    j as int,
                ) && j < self.areas@.len(),
                found is None ==> containing_index(self.areas@, addr as int, 0) is None,
            decreases self.areas.len() - i,
        {
            let a = self.areas[i];
            if a.base <= addr && addr < a.base + a.size {
                found = Some(i);
                break;
            }
            i = i + 1;
        }
        let j = match found {
            Some(j) => j,
            None => {
                return;
            },
        };
        let area = self.areas[j];
        let ghost old_s = self.areas@;
        let end = addr + size;
        let mut out: Vec<PhysicalMemoryArea> = Vec::new();
        let mut k: usize = 0;
        while k < j
            invariant
                k <= j < old_s.len(),
                self.areas@ == old_s,
                out@ == old_s.take(k as int),
            decreases j - k,
        {
            out.push(self.areas[k]);
            k = k + 1;
            assert(out@ =~= old_s.take(k as int));
        }
        let ghost prefix = out@;
        if addr > area.base {
            out.push(PhysicalMemoryArea { base: area.base, size: addr - area.base, ..area });
        }
        let has_after = end < area.base + area.size;
        if !(has_after && size == 0) {
            out.push(PhysicalMemoryArea { base: addr, size, ..area });
        }
        if has_after {
            out.push(PhysicalMemoryArea { base: end, size: area.base + area.size - end, ..area });
        }
        assert(out@ =~= prefix + carve_pieces(area, addr as int, size as int));
        let ghost mid = out@;
        assert(j < self.areas.len());
        let mut k: usize = j + 1;
        while k < self.areas.len()
            invariant
                j < k <= old_s.len(),
                self.areas@ == old_s,
                out@ == mid + old_s.subrange(j + 1, k as int),
            decreases self.areas.len() - k,
        {
            out.push(self.areas[k]);
            k = k + 1;
            assert(out@ =~= mid + old_s.subrange(j + 1, k as int));
        }
        assert(old_s.subrange(j + 1, old_s.len() as int) =~= old_s.skip(j + 1));
        self.areas = out;
    }

    /// Allocates `size` bytes of free physical memory at the first fit, aligned to
    /// `alignment` (at least a page), within `[search_start, search_end)`.
    pub fn allocate(
        &mut self,
        search_start: PAddr,
        search_end: PAddr,
        size: u64,
        alignment: u64,
    ) -> (r: Option<PAddr>)
        requires
            old(self).wf(),
            !(old(self).search(search_start, search_end, size, alignment) is Overflow),
        ensures
            final(self).wf(),
            final(self).total() == old(self).total(),
            match old(self).search(search_start, search_end, size, alignment) {
                AllocSearch::Hit(addr) => r == Some(addr) && final(self).areas() == mark(
                    carve(old(self).areas(), addr as int, size as int),
                    addr as int,
                    PhysicalMemoryType::Allocated,
                ),
                _ => r is None && final(self).areas() == old(self).areas(),
            },
    {
        let a = if alignment >= PAGE_SIZE {
            alignment
        } else {
            PAGE_SIZE
        };
        match search_free(&self.areas, search_start, search_end, size, a) {
            AllocSearch::Hit(addr) => {
                let ghost s = self.areas@;
                proof {
                    let i = lemma_search_hit(s, 0, search_start, search_end, size, a, addr);
                    lemma_allocate_wf(s, self.total_size as int, search_start, search_end, size, a, addr);
                    lemma_containing_found(s, addr as int, 0);
                    if self.total_size > 0 {
                        assert forall|k: int| 0 <= k < s.len() implies #[trigger] s[k].base + s[k].size <= u64::MAX by {
                            lemma_tiles_bounds(s, 0, self.total_size as int, k);
                        }
                        if size > 0 || addr < s[i].base + s[i].size {
                            lemma_containing_is(s, 0, self.total_size as int, addr as int, i);
                        } else if i + 1 < s.len() {
                            assert(s[i].base + s[i].size == s[i + 1].base);
                            lemma_containing_is(s, 0, self.total_size as int, addr as int, i + 1);
                        } else {
                            lemma_containing_none_past(s, 0, self.total_size as int, addr as int, 0);
                        }
                    } else {
                        assert(containing_index(s, addr as int, 1) is None);
                    }
                }
                self.carve_area(addr, size);
                self.mark_area(addr, PhysicalMemoryType::Allocated);
                Some(addr)
            },
            _ => None,
        }
    }

    /// Frees the area at `addr` if it has exactly `size` bytes, then merges every run of
    /// mergeable neighbouring areas. Returns whether it did.
    pub fn free(&mut self, addr: PAddr, size: u64) -> (r: bool)
        requires
            old(self).wf(),
        ensures
            final(self).wf(),
            final(self).total() == old(self).total(),
            r == freeable(old(self).areas(), addr as int, size),
            r ==> final(self).areas() == coalesce(
                mark(old(self).areas(), addr as int, PhysicalMemoryType::Free),
            ),
            !r ==> final(self).areas() == old(self).areas(),
    {
        match self.find_area(addr) {
            Some(i) => {
                if self.areas[i].size == size {
                    let ghost s = self.areas@;
                    self.mark_area(addr, PhysicalMemoryType::Free);
                    proof {
                        lemma_area_index_found(s, addr as int, 0);
                        lemma_free_wf(s, self.total_size as int, addr);
                        if self.total_size > 0 {
                            lemma_tiles_mark(s, 0, self.total_size as int, addr as int, PhysicalMemoryType::Free);
                        } else {
                            assert(self.areas@.len() == 1);
                        }
                    }
                    self.merge_adjacent();
                    true
                } else {
                    false
                }
            },
            None => false,
        }
    }

    /// Merges every run of mergeable neighbouring areas.
    fn merge_adjacent(&mut self)
        requires
            old(self).wf(),
        ensures
            final(self).areas@ == coalesce(old(self).areas@),
            final(self).total_size == old(self).total_size,
    {
        let ghost s = self.areas@;
        let ghost total = self.total_size as int;
        let mut out: Vec<PhysicalMemoryArea> = Vec::new();
        let mut i: usize = 0;
        while i < self.areas.len()
            invariant
                i <= s.len(),
                self.areas@ == s,
                areas_wf(s, total),
                out@ == coalesce(s.take(i as int)),
                total > 0 && i > 0 ==> tiles(out@, 0, s[i - 1].base + s[i - 1].size),
                total == 0 && i > 0 ==> out@.len() == 1 && out@[0] == s[0],
                i == 0 ==> out@.len() == 0,
            decreases self.areas.len() - i,
        {
            let a = self.areas[i];
            assert(s.take(i + 1).drop_last() =~= s.take(i as int));
            assert(s.take(i + 1).last() == a);
            proof {
                if total > 0 {
                    lemma_tiles_bounds(s, 0, total, i as int);
                    lemma_tiles_take(s, 0, total, i + 1);
                    lemma_coalesce_tiles(s.take(i + 1), 0, a.base + a.size);
                    if i > 0 {
                        assert(s[i - 1].base + s[i - 1].size == s[i as int].base);
                        lemma_tiles_bounds(out@, 0, a.base as int, out@.len() - 1);
                    }
                }
            }
            let n = out.len();
            if n > 0 && out[n - 1].can_merge_with(&a) {
                let last = out[n - 1];
                out.set(n - 1, PhysicalMemoryArea { size: last.size + a.size, ..last });
                assert(out@ =~= coalesce(s.take(i + 1)));
            } else {
                out.push(a);
                assert(out@ =~= coalesce(s.take(i + 1)));
            }
            i = i + 1;
        }
        assert(s.take(s.len() as int) =~= s);
        self.areas = out;
    }
}

} // verus!
