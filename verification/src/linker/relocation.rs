//! x86-64 relocations: the value each relocation of a module stores, with symbols resolved
//! against the library's own exports and unresolved imports sent to stubs.
use vstd::prelude::*;
use crate::hle::stubs::{StubAllocator, allocate_stub, alloc_spec, stub_state};
use crate::linker::module::{Module, ParsedRelocation, RelocationView};
use crate::loader::elf::{
    R_X86_64_64,
    R_X86_64_GLOB_DAT,
    R_X86_64_JUMP_SLOT,
    R_X86_64_RELATIVE,
    R_X86_64_DTPMOD64,
};
use crate::loader::symbols::{
    SymbolResolver,
    known_nid,
    lookup_known_nid,
    nid_base,
    resolve_spec,
    split_nid_base,
};

verus! {

/// Addition modulo 2^64.
pub open spec fn wrap_add(a: u64, b: u64) -> u64 {
    if a + b > u64::MAX {
        (a + b - 0x1_0000_0000_0000_0000) as u64
    } else {
        (a + b) as u64
    }
}

/// Addition modulo 2^64.
pub fn wrapping_add(a: u64, b: u64) -> (r: u64)
    ensures
        r == wrap_add(a, b),
{
    if a > u64::MAX - b {
        a - (u64::MAX - b) - 1
    } else {
        a + b
    }
}

/// The relocation types that store a symbol's address.
pub open spec fn is_symbol_type(t: u32) -> bool {
    t == R_X86_64_64 || t == R_X86_64_GLOB_DAT || t == R_X86_64_JUMP_SLOT
}

/// The address the library's exports give a symbol name: by the base of its NID (the part
/// before `#`), else by the whole name.
pub open spec fn hle_lookup(e: Seq<(String, crate::loader::symbols::SymbolRecord)>, name: Seq<char>) -> Option<u64> {
    match resolve_spec(e, nid_base(name)) {
        Some(a) => Some(a),
        None => resolve_spec(e, name),
    }
}

/// The name a stub for an unresolved import is recorded under: the system function its NID
/// base stands for, when known, else the import's own name.
pub open spec fn stub_name_for(name: Seq<char>) -> Seq<char> {
    match known_nid(nid_base(nid_base(name))) {
        Some(k) => k,
        None => name,
    }
}

/// What applying relocation `r` of a module at `base` does, from stub state `st`: the address
/// patched and the value stored there (`None` for a type this linker does not handle), and the
/// stub state after.
pub open spec fn apply_spec(
    r: RelocationView,
    base: u64,
    e: Seq<(String, crate::loader::symbols::SymbolRecord)>,
    st: Option<(u64, Seq<Seq<char>>)>,
) -> (Option<(u64, u64)>, Option<(u64, Seq<Seq<char>>)>) {
    let target = (base + r.offset) as u64;
    let add = r.addend as u64;
    if r.rel_type == R_X86_64_RELATIVE {
        (Some((target, wrap_add(base, add))), st)
    } else if r.rel_type == R_X86_64_DTPMOD64 {
        (Some((target, 1u64)), st)
    } else if !is_symbol_type(r.rel_type) {
        (None, st)
    } else if r.symbol_name.len() == 0 {
        (Some((target, add)), st)
    } else {
        match hle_lookup(e, r.symbol_name) {
            Some(a) => (Some((target, wrap_add(a, add))), st),
            None => {
                let (v, st2) = alloc_spec(st, stub_name_for(r.symbol_name));
                (Some((target, wrap_add(v, add))), st2)
            },
        }
    }
}

/// The relocation of a module loaded at `base`: the address it patches and the value stored
/// there (`None` for a type this linker does not handle). A relative relocation stores the
/// base plus the addend; a symbol relocation the symbol's address plus the addend, where an
/// import the exports do not resolve gets a fresh stub (0 when none is left); a TLS module
/// relocation stores 1. Additions wrap.
pub fn apply_relocation(
    reloc: &ParsedRelocation,
    base: u64,
    hle_symbols: &SymbolResolver,
    _modules: &[Module],
    stubs: &mut Option<StubAllocator>,
) -> (r: Option<(u64, u64)>)
    requires
        base + reloc.offset <= u64::MAX,
        *old(stubs) matches Some(a) ==> a.wf(),
    ensures
        *final(stubs) matches Some(a) ==> a.wf(),
        (r, stub_state(*final(stubs))) == apply_spec(
            reloc@,
            base,
            hle_symbols.entries(),
            stub_state(*old(stubs)),
        ),
{
    let target = base + reloc.offset;
    let rel_type = reloc.rel_type;
    let add = reloc.addend as u64;
    if rel_type == R_X86_64_RELATIVE {
        Some((target, wrapping_add(base, add)))
    } else if rel_type == R_X86_64_DTPMOD64 {
        Some((target, 1))
    } else if rel_type == R_X86_64_64 || rel_type == R_X86_64_GLOB_DAT || rel_type
        == R_X86_64_JUMP_SLOT {
        let mut resolved: u64 = 0;
        if !reloc.symbol_name.as_str().is_empty() {
            let base_name = split_nid_base(reloc.symbol_name.as_str());
            match hle_symbols.resolve(base_name) {
                Some(a) => {
                    resolved = a;
                },
                None => match hle_symbols.resolve(reloc.symbol_name.as_str()) {
                    Some(a) => {
                        resolved = a;
                    },
                    None => {
                        let stub_name = match lookup_known_nid(base_name) {
                            Some(known) => String::from_str(known),
                            None => reloc.symbol_name.clone(),
                        };
                        resolved = allocate_stub(stubs, stub_name);
                    },
                },
            }
        }
        Some((target, wrapping_add(resolved, add)))
    } else {
        None
    }
}

/// The address a symbol relocation of `r` stores: nothing (0) for a relocation without a
/// symbol name; else the address the exports give the name, or a fresh stub's (from stub
/// state `st`) when they give none.
pub open spec fn symbol_address(
    r: RelocationView,
    e: Seq<(String, crate::loader::symbols::SymbolRecord)>,
    st: Option<(u64, Seq<Seq<char>>)>,
) -> u64 {
    if r.symbol_name.len() == 0 {
        0
    } else {
        match hle_lookup(e, r.symbol_name) {
            Some(a) => a,
            None => alloc_spec(st, stub_name_for(r.symbol_name)).0,
        }
    }
}

/// What each relocation type stores, for a module at `base` whose relocation `r` patches
/// `base + r.offset`:
/// - `R_X86_64_64` (1), `R_X86_64_GLOB_DAT` (6) and `R_X86_64_JUMP_SLOT` (7) store the symbol's
///   address plus the addend, all three alike; only a symbol the exports do not resolve takes
///   a stub, and nothing else changes the stubs;
/// - `R_X86_64_RELATIVE` (8) stores the base plus the addend;
/// - `R_X86_64_DTPMOD64` (16) stores the module's TLS module number, 1;
/// - every other type patches nothing.
/// Additions wrap modulo 2^64.
pub proof fn law_relocation_values(
    r: RelocationView,
    base: u64,
    e: Seq<(String, crate::loader::symbols::SymbolRecord)>,
    st: Option<(u64, Seq<Seq<char>>)>,
)
    requires
        base + r.offset <= u64::MAX,
    ensures
        r.rel_type == 1u32 || r.rel_type == 6u32 || r.rel_type == 7u32 ==> {
            &&& apply_spec(r, base, e, st).0 == Some(
                ((base + r.offset) as u64, wrap_add(symbol_address(r, e, st), r.addend as u64)),
            )
            &&& apply_spec(r, base, e, st) == apply_spec(
                RelocationView { rel_type: 1u32, ..r },
                base,
                e,
                st,
            )
            &&& (r.symbol_name.len() == 0 || hle_lookup(e, r.symbol_name) is Some) ==> apply_spec(
                r,
                base,
                e,
                st,
            ).1 == st
        },
        r.rel_type == 8u32 ==> apply_spec(r, base, e, st) == (
            Some(((base + r.offset) as u64, wrap_add(base, r.addend as u64))),
            st,
        ),
        r.rel_type == 16u32 ==> apply_spec(r, base, e, st) == (
            Some(((base + r.offset) as u64, 1u64)),
            st,
        ),
        !(r.rel_type == 1u32 || r.rel_type == 6u32 || r.rel_type == 7u32 || r.rel_type == 8u32
            || r.rel_type == 16u32) ==> apply_spec(r, base, e, st) == (
            None::<(u64, u64)>,
            st,
        ),
{
}

} // verus!
