//! Stubs for unresolved imports: a region of fixed-size slots, handed out one per name, so that
//! each stub has an address of its own by which the function called can be told in logs. Each
//! slot holds `xor eax, eax; ret`, padded with `nop`s: a stub returns 0 (`ORBIS_OK`) to its
//! caller and does nothing else.
use vstd::prelude::*;

verus! {

/// Size of each stub slot in bytes: `xor eax, eax; ret` is 3 bytes, padded to 16 for alignment.
pub const STUB_SIZE: usize = 16;

/// Maximum number of stubs.
pub const MAX_STUBS: usize = 4096;

/// Total size of the stub region.
pub const STUB_REGION_SIZE: usize = 65536;

/// The byte at offset `j` of every slot: `xor eax, eax` (31 C0), `ret` (C3), then `nop`s (90).
pub open spec fn slot_byte(j: int) -> u8 {
    if j == 0 {
        0x31u8
    } else if j == 1 {
        0xC0u8
    } else if j == 2 {
        0xC3u8
    } else {
        0x90u8
    }
}

/// Fills a stub region: every slot gets `xor eax, eax; ret` followed by `nop`s, so that a call
/// of any stub returns 0.
pub fn fill_stub_slots(region: &mut [u8])
    requires
        old(region)@.len() == STUB_REGION_SIZE,
    ensures
        final(region)@.len() == STUB_REGION_SIZE,
        forall|i: int|
            0 <= i < STUB_REGION_SIZE ==> #[trigger] final(region)@[i] == slot_byte(
                i % (STUB_SIZE as int),
            ),
{
    let mut i: usize = 0;
    while i < STUB_REGION_SIZE
        invariant
            i <= STUB_REGION_SIZE,
            region@.len() == STUB_REGION_SIZE,
            forall|k: int| 0 <= k < i ==> #[trigger] region@[k] == slot_byte(k % (STUB_SIZE as int)),
        decreases STUB_REGION_SIZE - i,
    {
        let j = i % STUB_SIZE;
        let b: u8 = if j == 0 {
            0x31
        } else if j == 1 {
            0xC0
        } else if j == 2 {
            0xC3
        } else {
            0x90
        };
        region[i] = b;
        i = i + 1;
    }
}

/// The stub slots handed out so far, from a region at `base`.
pub struct StubAllocator {
    base: u64,
    used: usize,
    names: Vec<String>,
}

impl StubAllocator {
    /// The region's start.
    pub closed spec fn base(&self) -> u64 {
        self.base
    }

    /// The names of the stubs handed out, in slot order.
    pub closed spec fn names(&self) -> Seq<String> {
        self.names@
    }

    /// One name per used slot, no more slots than the region holds, and the region is not at
    /// address 0 (so that no stub's address is 0, the address that reports failure) and fits
    /// the address space.
    pub closed spec fn wf(&self) -> bool {
        &&& self.used == self.names@.len()
        &&& self.used <= MAX_STUBS
        &&& self.base != 0
        &&& self.base + STUB_REGION_SIZE <= u64::MAX
    }

    /// An allocator over the (already filled) region at `base`.
    pub fn new(base: u64) -> (r: Self)
        requires
            base != 0,
            base + STUB_REGION_SIZE <= u64::MAX,
        ensures
            r.wf(),
            r.base() == base,
            r.names() == Seq::<String>::empty(),
    {
        StubAllocator { base, used: 0, names: Vec::new() }
    }

    /// The next free slot's address, recorded under `name`; `None` when all slots are used.
    pub fn next_stub(&mut self, name: String) -> (r: Option<u64>)
        requires
            old(self).wf(),
        ensures
            final(self).wf(),
            final(self).base() == old(self).base(),
            old(self).names().len() >= MAX_STUBS ==> r is None && final(self).names() == old(
                self,
            ).names(),
            old(self).names().len() < MAX_STUBS ==> r == Some(
                (old(self).base() + old(self).names().len() * STUB_SIZE) as u64,
            ) && final(self).names() == old(self).names().push(name),
    {
        if self.used >= MAX_STUBS {
            return None;
        }
        let addr = self.base + (self.used * STUB_SIZE) as u64;
        self.used = self.used + 1;
        self.names.push(name);
        Some(addr)
    }
}

/// What an allocator holds, as values: its region's start and the names of the stubs handed
/// out, in slot order.
pub open spec fn stub_state(a: Option<StubAllocator>) -> Option<(u64, Seq<Seq<char>>)> {
    match a {
        Some(x) => Some((x.base(), x.names().map_values(|s: String| s@))),
        None => None,
    }
}

/// Allocating a stub for `name` in state `st`: the address handed out (0 when there is no
/// allocator or no free slot) and the state after.
pub open spec fn alloc_spec(st: Option<(u64, Seq<Seq<char>>)>, name: Seq<char>) -> (u64, Option<
    (u64, Seq<Seq<char>>),
>) {
    match st {
        None => (0, None),
        Some((b, ns)) => if ns.len() < MAX_STUBS {
            ((b + ns.len() * STUB_SIZE) as u64, Some((b, ns.push(name))))
        } else {
            (0, st)
        },
    }
}

/// Allocates a stub for `name`: the address of a stub that returns 0 when called, or 0 when there
/// is no allocator or no free slot.
pub fn allocate_stub(alloc: &mut Option<StubAllocator>, name: String) -> (r: u64)
    requires
        *old(alloc) matches Some(a) ==> a.wf(),
    ensures
        *final(alloc) matches Some(a) ==> a.wf(),
        match *old(alloc) {
            None => r == 0 && *final(alloc) is None,
            Some(a) => *final(alloc) matches Some(b) && b.base() == a.base() && if a.names().len()
                < MAX_STUBS {
                r == a.base() + a.names().len() * STUB_SIZE && b.names() == a.names().push(name)
            } else {
                r == 0 && b.names() == a.names()
            },
        },
        (r, stub_state(*final(alloc))) == alloc_spec(stub_state(*old(alloc)), name@),
        r != 0 <==> (*old(alloc) matches Some(a) && a.names().len() < MAX_STUBS),
{
    proof {
        let st = *alloc;
        if st is Some {
            let a = st.unwrap();
            let nm = name;
            assert(a.names().push(nm).map_values(|s: String| s@) =~= a.names().map_values(
                |s: String| s@,
            ).push(nm@));
        }
    }
    match alloc {
        Some(a) => match a.next_stub(name) {
            Some(addr) => addr,
            None => 0,
        },
        None => 0,
    }
}

/// The name of the stub in slot `idx`, or `UnknownStub`.
pub fn get_stub_name(alloc: &Option<StubAllocator>, idx: usize) -> (r: String)
    ensures
        match *alloc {
            Some(a) => if idx < a.names().len() {
                r@ == a.names()[idx as int]@
            } else {
                r@ == "UnknownStub"@
            },
            None => r@ == "UnknownStub"@,
        },
{
    match alloc {
        Some(a) => {
            if idx < a.names.len() {
                a.names[idx].clone()
            } else {
                String::from_str("UnknownStub")
            }
        },
        None => String::from_str("UnknownStub"),
    }
}

/// The number of stubs handed out.
pub fn stub_count(alloc: &Option<StubAllocator>) -> (r: usize)
    requires
        alloc matches Some(a) ==> a.wf(),
    ensures
        match *alloc {
            Some(a) => r == a.names().len(),
            None => r == 0,
        },
{
    match alloc {
        Some(a) => a.used,
        None => 0,
    }
}

/// Whether `addr` lies in a slot that has been handed out.
pub fn is_stub(alloc: &Option<StubAllocator>, addr: u64) -> (r: bool)
    requires
        alloc matches Some(a) ==> a.wf(),
    ensures
        match *alloc {
            Some(a) => r == (a.base() <= addr < a.base() + a.names().len() * STUB_SIZE),
            None => !r,
        },
{
    match alloc {
        Some(a) => addr >= a.base && addr < a.base + (a.used * STUB_SIZE) as u64,
        None => false,
    }
}

/// The slot `addr` lies in, if it lies in a slot that has been handed out.
pub fn get_stub_index(alloc: &Option<StubAllocator>, addr: u64) -> (r: Option<usize>)
    requires
        alloc matches Some(a) ==> a.wf(),
    ensures
        match *alloc {
            Some(a) => if a.base() <= addr < a.base() + a.names().len() * STUB_SIZE {
                r == Some(((addr - a.base()) / (STUB_SIZE as int)) as usize)
            } else {
                r is None
            },
            None => r is None,
        },
{
    match alloc {
        Some(a) => {
            if addr >= a.base && addr < a.base + (a.used * STUB_SIZE) as u64 {
                Some(((addr - a.base) as usize) / STUB_SIZE)
            } else {
                None
            }
        },
        None => None,
    }
}

/// A stub handed out is found again: its address lies in a used slot, and that slot is the
/// one under which its name was recorded.
pub proof fn law_stub_round_trip(base: u64, used: nat)
    requires
        used < MAX_STUBS,
        base + STUB_REGION_SIZE <= u64::MAX,
    ensures
        ({
            let addr = base + used * STUB_SIZE;
            &&& base <= addr < base + (used + 1) * STUB_SIZE
            &&& (addr - base) / (STUB_SIZE as int) == used
        }),
{
    assert((used * STUB_SIZE) / (STUB_SIZE as int) == used) by (nonlinear_arith);
}

} // verus!
