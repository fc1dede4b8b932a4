//! The dynamic linker: the loaded modules, their relocations against the library's own exports,
//! and thread-local storage.
pub mod module;
pub mod relocation;
pub mod tls;

use vstd::prelude::*;
use crate::hle::stubs::{StubAllocator, stub_state};
use crate::linker::module::{Module, ParsedRelocation, RelocationView, built_module, next_tls_index};
use crate::linker::relocation::{apply_relocation, apply_spec};
use crate::loader::elf::Elf;
use crate::loader::symbols::{SymbolRecord, SymbolResolver};
use crate::text::str_eq;

verus! {

/// The relocations still to apply, each with its module's base, module by module.
pub open spec fn pending_of(mods: Seq<Module>) -> Seq<(u64, RelocationView)>
    decreases mods.len(),
{
    if mods.len() == 0 {
        Seq::empty()
    } else {
        pending_of(mods.drop_last()) + mods.last().relocations@.map_values(
            |p: ParsedRelocation| (mods.last().base_virtual_addr, p@),
        )
    }
}

/// Applying `items` in order from stub state `st`: the writes made and the stub state after.
pub open spec fn relocate_fold(
    items: Seq<(u64, RelocationView)>,
    e: Seq<(String, SymbolRecord)>,
    st: Option<(u64, Seq<Seq<char>>)>,
) -> (Seq<(u64, u64)>, Option<(u64, Seq<Seq<char>>)>)
    decreases items.len(),
{
    if items.len() == 0 {
        (Seq::empty(), st)
    } else {
        let prev = relocate_fold(items.drop_last(), e, st);
        let step = apply_spec(items.last().1, items.last().0, e, prev.1);
        (
            match step.0 {
                Some(w) => prev.0.push(w),
                None => prev.0,
            },
            step.1,
        )
    }
}

/// Relocation `k` patches an address within 64 bits.
pub open spec fn target_fits(items: Seq<(u64, RelocationView)>, k: int) -> bool {
    items[k].0 + items[k].1.offset <= u64::MAX
}

/// Every relocation patches an address within 64 bits.
pub open spec fn offsets_fit(items: Seq<(u64, RelocationView)>) -> bool {
    forall|k: int| 0 <= k < items.len() ==> #[trigger] target_fits(items, k)
}

/// The lowest address a `DT_INIT` function or an init array entry must lie above.
pub const MIN_INIT_ADDR: u64 = 0x1000;

/// The most init array entries read.
pub const MAX_INIT_ARRAY_ENTRIES: u64 = 10001;

/// The init functions found in the words of an init array from index `i` on: reading stops
/// past `size` bytes (when the size is known), at the first zero (when it is not), at the end
/// of `words` or after 10001 entries; zeros are skipped and entries at or below 0x1000 are not
/// functions.
pub open spec fn init_scan(words: Seq<u64>, size: u64, i: nat) -> Seq<u64>
    decreases MAX_INIT_ARRAY_ENTRIES - i,
{
    if i >= MAX_INIT_ARRAY_ENTRIES || (size > 0 && i * 8 >= size) || i >= words.len() {
        Seq::empty()
    } else if words[i as int] == 0 && size == 0 {
        Seq::empty()
    } else if words[i as int] > MIN_INIT_ADDR {
        seq![words[i as int]] + init_scan(words, size, i + 1)
    } else {
        init_scan(words, size, i + 1)
    }
}

/// The init functions listed in an init array of `size` bytes (0: zero-terminated), whose
/// entries are `words`.
pub fn init_array_funcs(words: &[u64], size: u64) -> (r: Vec<u64>)
    ensures
        r@ == init_scan(words@, size, 0),
{
    let mut out: Vec<u64> = Vec::new();
    let mut i: usize = 0;
    while i < words.len()
        invariant
            i <= words@.len(),
            i <= MAX_INIT_ARRAY_ENTRIES,
            out@ + init_scan(words@, size, i as nat) == init_scan(words@, size, 0),
        decreases words.len() - i,
    {
        if i as u64 >= MAX_INIT_ARRAY_ENTRIES || (size > 0 && (i as u64) * 8 >= size) {
            proof {
                assert(out@ + Seq::<u64>::empty() =~= out@);
            }
            return out;
        }
        let p = words[i];
        if p == 0 && size == 0 {
            proof {
                assert(out@ + Seq::<u64>::empty() =~= out@);
            }
            return out;
        }
        if p > MIN_INIT_ADDR {
            let ghost before = out@;
            out.push(p);
            proof {
                assert(before + (seq![p] + init_scan(words@, size, (i + 1) as nat)) =~= out@
                    + init_scan(words@, size, (i + 1) as nat));
            }
        }
        i = i + 1;
    }
    proof {
        assert(out@ + Seq::<u64>::empty() =~= out@);
    }
    out
}

/// The name of the main executable, whose assertion is patched out.
pub open spec fn is_eboot(name: Seq<char>) -> bool {
    name == "eboot.bin"@
}

/// Offset, in the main executable, of an `int 0x41` assertion trap.
pub const EBOOT_ASSERT_OFFSET: u64 = 0x20CD6A;

/// Whether the two bytes at the assertion offset of a just-loaded module are to be replaced by
/// `nop nop`: the module is the main executable and they hold `int 0x41` (CD 41).
pub fn patches_eboot_assert(name: &str, b0: u8, b1: u8) -> (r: bool)
    ensures
        r == (is_eboot(name@) && b0 == 0xCD && b1 == 0x41),
{
    str_eq(name, "eboot.bin") && b0 == 0xCD && b1 == 0x41
}

/// The dynamic linker: loaded modules (index 0 is the main executable), the library's own
/// exports, and TLS bookkeeping.
pub struct Linker {
    modules: Vec<Module>,
    hle_symbols: SymbolResolver,
    dtv_generation_counter: u32,
    static_tls_size: usize,
    max_tls_index: u32,
}

/// The index of the first module, from `j` on, named `name`.
pub open spec fn module_index_from(ms: Seq<Module>, name: Seq<char>, j: int) -> Option<int>
    decreases ms.len() - j,
{
    if j < 0 || j >= ms.len() {
        None
    } else if ms[j].name@ == name {
        Some(j)
    } else {
        module_index_from(ms, name, j + 1)
    }
}

impl Linker {
    /// The loaded modules, in load order.
    pub closed spec fn modules(&self) -> Seq<Module> {
        self.modules@
    }

    /// The library's exports.
    pub closed spec fn hle(&self) -> SymbolResolver {
        self.hle_symbols
    }

    /// The highest TLS index handed out.
    pub closed spec fn max_tls(&self) -> u32 {
        self.max_tls_index
    }

    /// Create a new linker.
    pub fn new() -> (r: Self)
        ensures
            r.modules() == Seq::<Module>::empty(),
            r.hle().wf(),
            r.hle().entries() == Seq::<(String, SymbolRecord)>::empty(),
            r.max_tls() == 0,
    {
        Linker {
            modules: Vec::new(),
            hle_symbols: SymbolResolver::new(),
            dtv_generation_counter: 1,
            static_tls_size: 0,
            max_tls_index: 0,
        }
    }

    /// The library's exports, to register symbols in.
    pub fn hle_symbols_mut(&mut self) -> (r: &mut SymbolResolver)
        ensures
            *r == old(self).hle(),
            final(self).hle() == *final(r),
            final(self).modules() == old(self).modules(),
            final(self).max_tls() == old(self).max_tls(),
    {
        &mut self.hle_symbols
    }

    /// The library's exports.
    pub fn hle_symbols(&self) -> (r: &SymbolResolver)
        ensures
            *r == self.hle(),
    {
        &self.hle_symbols
    }

    /// The index of the loaded module named `name`, if it is loaded.
    pub fn find_module(&self, name: &str) -> (r: Option<u32>)
        ensures
            match r {
                Some(k) => exists|i: int|
                    0 <= i < self.modules().len() && self.modules()[i].name@ == name@ && k == i
                        as u32 && forall|j: int| 0 <= j < i ==> self.modules()[j].name@ != name@,
                None => forall|j: int|
                    0 <= j < self.modules().len() ==> self.modules()[j].name@ != name@,
            },
            r is Some <==> module_index_from(self.modules(), name@, 0) is Some,
            r matches Some(k) ==> k == (module_index_from(self.modules(), name@, 0)->0) as u32,
    {
        let mut i: usize = 0;
        while i < self.modules.len()
            invariant
                i <= self.modules@.len(),
                forall|j: int| 0 <= j < i ==> self.modules@[j].name@ != name@,
                module_index_from(self.modules@, name@, i as int) == module_index_from(
                    self.modules@,
                    name@,
                    0,
                ),
            decreases self.modules.len() - i,
        {
            if str_eq(self.modules[i].name.as_str(), name) {
                return Some(i as u32);
            }
            i = i + 1;
        }
        None
    }

    /// Adds a module whose image was placed at `base` (see `Module::from_parts`), taking the next
    /// TLS index when it has a TLS segment; returns its index, or `None` (adding nothing) when
    /// the module cannot be built. Loading is idempotent by name: when a module of that name is
    /// loaded already, its index is returned and nothing changes.
    pub fn load_parsed(
        &mut self,
        name: String,
        file: Vec<u8>,
        elf: Elf,
        base: u64,
        min_addr: u64,
        aligned_base_size: u64,
    ) -> (r: Option<u32>)
        ensures
            final(self).hle() == old(self).hle(),
            module_index_from(old(self).modules(), name@, 0) matches Some(i) ==> r == Some(i as u32)
                && final(self).modules() == old(self).modules()
                && final(self).max_tls() == old(self).max_tls(),
            module_index_from(old(self).modules(), name@, 0) is None ==> {
                &&& r is None <==> crate::linker::module::from_parts_fails(
                    &elf,
                    base,
                    min_addr,
                    old(self).max_tls(),
                )
                &&& r is None ==> final(self).modules() == old(self).modules()
                    && final(self).max_tls() == old(self).max_tls()
                &&& r matches Some(k) ==> {
                    &&& k == old(self).modules().len() as u32
                    &&& final(self).modules().len() == old(self).modules().len() + 1
                    &&& final(self).modules().drop_last() == old(self).modules()
                    &&& built_module(
                        final(self).modules().last(),
                        name,
                        file,
                        elf,
                        base,
                        min_addr,
                        aligned_base_size,
                        old(self).max_tls(),
                    )
                    &&& final(self).max_tls() == next_tls_index(&elf, old(self).max_tls())
                }
            },
    {
        if let Some(i) = self.find_module(name.as_str()) {
            return Some(i);
        }
        let index = self.modules.len() as u32;
        match Module::from_parts(name, file, elf, base, min_addr, aligned_base_size, &mut self.max_tls_index) {
            Some(m) => {
                self.modules.push(m);
                proof {
                    assert(self.modules@.drop_last() =~= old(self).modules@);
                }
                Some(index)
            },
            None => None,
        }
    }

    /// Get a loaded module by index.
    pub fn get_module(&self, index: u32) -> (r: Option<&Module>)
        ensures
            index < self.modules().len() ==> r == Some(&self.modules()[index as int]),
            index >= self.modules().len() ==> r is None,
    {
        if (index as usize) < self.modules.len() {
            Some(&self.modules[index as usize])
        } else {
            None
        }
    }

    /// The main module (index 0).
    pub fn main_module(&self) -> (r: Option<&Module>)
        ensures
            self.modules().len() > 0 ==> r == Some(&self.modules()[0]),
            self.modules().len() == 0 ==> r is None,
    {
        if self.modules.len() > 0 {
            Some(&self.modules[0])
        } else {
            None
        }
    }

    /// Applies every relocation of every module, module by module, in order: returns the writes
    /// to make (address and value), with stubs allocated for unresolved imports. `None`, with
    /// nothing allocated, when some relocation patches an address beyond 64 bits.
    pub fn relocate_all(&mut self, stubs: &mut Option<StubAllocator>) -> (r: Option<Vec<(u64, u64)>>)
        requires
            *old(stubs) matches Some(a) ==> a.wf(),
        ensures
            *final(stubs) matches Some(a) ==> a.wf(),
            final(self).modules() == old(self).modules(),
            final(self).hle() == old(self).hle(),
            final(self).max_tls() == old(self).max_tls(),
            r is None <==> !offsets_fit(pending_of(old(self).modules())),
            r is None ==> *final(stubs) == *old(stubs),
            r matches Some(w) ==> (w@, stub_state(*final(stubs))) == relocate_fold(
                pending_of(old(self).modules()),
                old(self).hle().entries(),
                stub_state(*old(stubs)),
            ),
    {
        // First make sure that no relocation patches an address past 64 bits.
        let mut i: usize = 0;
        while i < self.modules.len()
            invariant
                i <= self.modules@.len(),
                *stubs == *old(stubs),
                *old(stubs) matches Some(a) ==> a.wf(),
                offsets_fit(pending_of(self.modules@.take(i as int))),
            decreases self.modules.len() - i,
        {
            let base = self.modules[i].base_virtual_addr;
            let ghost prefix = pending_of(self.modules@.take(i as int));
            assert(self.modules@.take(i + 1).drop_last() =~= self.modules@.take(i as int));
            let mut j: usize = 0;
            while j < self.modules[i].relocations.len()
                invariant
                    i < self.modules@.len(),
                    base == self.modules@[i as int].base_virtual_addr,
                    j <= self.modules@[i as int].relocations@.len(),
                    offsets_fit(prefix),
                    prefix == pending_of(self.modules@.take(i as int)),
                    *stubs == *old(stubs),
                    *old(stubs) matches Some(a) ==> a.wf(),
                    forall|k: int|
                        0 <= k < j ==> base + #[trigger] self.modules@[i as int].relocations@[k].offset
                            <= u64::MAX,
                decreases self.modules@[i as int].relocations@.len() - j,
            {
                if self.modules[i].relocations[j].offset > u64::MAX - base {
                    proof {
                        let items = pending_of(self.modules@);
                        let k = prefix.len() + j;
                        lemma_pending_prefix(self.modules@, i as int);
                        let mine = self.modules@[i as int].relocations@.map_values(
                            |p: ParsedRelocation| (base, p@),
                        );
                        assert(mine[j as int] == (base, self.modules@[i as int].relocations@[j as int]@));
                        assert(items[k] == (base, self.modules@[i as int].relocations@[j as int]@));
                        assert(!target_fits(items, k));
                    }
                    return None;
                }
                j = j + 1;
            }
            proof {
                let ext = pending_of(self.modules@.take(i + 1));
                assert forall|k: int| 0 <= k < ext.len() implies #[trigger] target_fits(ext, k) by {
                    if k >= prefix.len() {
                        assert(self.modules@.take(i + 1).last() == self.modules@[i as int]);
                        assert(ext[k].1 == self.modules@[i as int].relocations@[k - prefix.len()]@);
                    } else {
                        assert(target_fits(prefix, k));
                    }
                }
            }
            i = i + 1;
        }
        assert(self.modules@.take(self.modules@.len() as int) =~= self.modules@);
        // Then apply them, in order.
        let mut writes: Vec<(u64, u64)> = Vec::new();
        let ghost e = self.hle_symbols.entries();
        let ghost st0 = stub_state(*stubs);
        let ghost all = pending_of(self.modules@);
        let mut i: usize = 0;
        while i < self.modules.len()
            invariant
                i <= self.modules@.len(),
                all == pending_of(self.modules@),
                offsets_fit(all),
                e == self.hle_symbols.entries(),
                *stubs matches Some(a) ==> a.wf(),
                (writes@, stub_state(*stubs)) == relocate_fold(
                    pending_of(self.modules@.take(i as int)),
                    e,
                    st0,
                ),
            decreases self.modules.len() - i,
        {
            let base = self.modules[i].base_virtual_addr;
            let ghost prefix = pending_of(self.modules@.take(i as int));
            let ghost mine = self.modules@[i as int].relocations@.map_values(
                |p: ParsedRelocation| (base, p@),
            );
            proof {
                assert(self.modules@.take(i + 1).drop_last() =~= self.modules@.take(i as int));
                lemma_pending_prefix(self.modules@, i as int);
            }
            let mut j: usize = 0;
            while j < self.modules[i].relocations.len()
                invariant
                    i < self.modules@.len(),
                    base == self.modules@[i as int].base_virtual_addr,
                    j <= self.modules@[i as int].relocations@.len(),
                    mine == self.modules@[i as int].relocations@.map_values(
                        |p: ParsedRelocation| (base, p@),
                    ),
                    all == pending_of(self.modules@),
                    offsets_fit(all),
                    prefix == pending_of(self.modules@.take(i as int)),
                    all.len() >= prefix.len() + mine.len(),
                    forall|k: int| 0 <= k < mine.len() ==> all[prefix.len() + k] == mine[k],
                    e == self.hle_symbols.entries(),
                    *stubs matches Some(a) ==> a.wf(),
                    (writes@, stub_state(*stubs)) == relocate_fold(
                        prefix + mine.take(j as int),
                        e,
                        st0,
                    ),
                decreases self.modules@[i as int].relocations@.len() - j,
            {
                proof {
                    assert(mine[j as int] == (base, self.modules@[i as int].relocations@[j as int]@));
                    assert(target_fits(all, prefix.len() + j));
                    assert((prefix + mine.take(j + 1)).drop_last() =~= prefix + mine.take(
                        j as int,
                    ));
                }
                let step = apply_relocation(
                    &self.modules[i].relocations[j],
                    base,
                    &self.hle_symbols,
                    self.modules.as_slice(),
                    stubs,
                );
                match step {
                    Some(w) => {
                        writes.push(w);
                    },
                    None => {},
                }
                j = j + 1;
            }
            proof {
                assert(mine.take(mine.len() as int) =~= mine);
            }
            i = i + 1;
        }
        assert(self.modules@.take(self.modules@.len() as int) =~= self.modules@);
        Some(writes)
    }

    /// The entry point of the main module: its base plus its ELF entry.
    pub fn entry_point(&self) -> (r: Option<u64>)
        requires
            self.modules().len() > 0 ==> self.modules()[0].base_virtual_addr
                + self.modules()[0].elf.header.entry <= u64::MAX,
        ensures
            self.modules().len() > 0 ==> r == Some(
                (self.modules()[0].base_virtual_addr + self.modules()[0].elf.header.entry) as u64,
            ),
            self.modules().len() == 0 ==> r is None,
    {
        match self.main_module() {
            Some(m) => Some(m.base_virtual_addr + m.elf.entry_point()),
            None => None,
        }
    }

    /// The number of loaded modules.
    pub fn module_count(&self) -> (r: usize)
        ensures
            r == self.modules().len(),
    {
        self.modules.len()
    }

    /// The `DT_INIT` functions of the loaded modules, in load order: those above 0x1000.
    pub fn get_dt_init_funcs(&self) -> (r: Vec<u64>)
        ensures
            r@ == init_funcs_of(self.modules()),
    {
        let mut funcs: Vec<u64> = Vec::new();
        let mut i: usize = 0;
        while i < self.modules.len()
            invariant
                i <= self.modules@.len(),
                funcs@ == init_funcs_of(self.modules@.take(i as int)),
            decreases self.modules.len() - i,
        {
            assert(self.modules@.take(i + 1).drop_last() =~= self.modules@.take(i as int));
            if self.modules[i].init_addr > MIN_INIT_ADDR {
                funcs.push(self.modules[i].init_addr);
            }
            i = i + 1;
        }
        assert(self.modules@.take(self.modules@.len() as int) =~= self.modules@);
        funcs
    }
}

/// The `DT_INIT` functions of `mods`, in order: those above 0x1000.
pub open spec fn init_funcs_of(mods: Seq<Module>) -> Seq<u64>
    decreases mods.len(),
{
    if mods.len() == 0 {
        Seq::empty()
    } else if mods.last().init_addr > MIN_INIT_ADDR {
        init_funcs_of(mods.drop_last()).push(mods.last().init_addr)
    } else {
        init_funcs_of(mods.drop_last())
    }
}

/// The pending relocations of the first `i` modules come first, then those of module `i`.
proof fn lemma_pending_prefix(mods: Seq<Module>, i: int)
    requires
        0 <= i < mods.len(),
    ensures
        ({
            let prefix = pending_of(mods.take(i));
            let mine = mods[i].relocations@.map_values(
                |p: ParsedRelocation| (mods[i].base_virtual_addr, p@),
            );
            &&& pending_of(mods).len() >= prefix.len() + mine.len()
            &&& forall|k: int| 0 <= k < mine.len() ==> pending_of(mods)[prefix.len() + k] == mine[k]
            &&& forall|k: int| 0 <= k < prefix.len() ==> pending_of(mods)[k] == prefix[k]
        }),
    decreases mods.len(),
{
    if i == mods.len() - 1 {
        assert(mods.drop_last() =~= mods.take(i));
    } else {
        assert(mods.drop_last().take(i) =~= mods.take(i));
        lemma_pending_prefix(mods.drop_last(), i);
    }
}

} // verus!
