//! The library registry: registering the exports this library implements, each behind a stub.
use vstd::prelude::*;
use crate::hle::stubs::{StubAllocator, allocate_stub, alloc_spec, stub_state};
use crate::loader::symbols::{
    RecordView,
    SymbolRecord,
    SymbolResolver,
    SymbolType,
    entries_view,
    insert_view,
};

verus! {

/// Registering a stub function, as values: a stub is allocated under `name` and its address
/// registered under `nid` as a function of `library`.
pub open spec fn register_stub_spec(
    v: Seq<(Seq<char>, RecordView)>,
    st: Option<(u64, Seq<Seq<char>>)>,
    nid: Seq<char>,
    name: Seq<char>,
    library: Seq<char>,
) -> (Seq<(Seq<char>, RecordView)>, Option<(u64, Seq<Seq<char>>)>) {
    let (addr, st2) = alloc_spec(st, name);
    (insert_view(v, nid, (name, addr, SymbolType::Function, library, Seq::empty())), st2)
}

/// Registering a stub for each of `names` (each its own NID), in order.
pub open spec fn register_names_spec(
    v: Seq<(Seq<char>, RecordView)>,
    st: Option<(u64, Seq<Seq<char>>)>,
    names: Seq<Seq<char>>,
    library: Seq<char>,
) -> (Seq<(Seq<char>, RecordView)>, Option<(u64, Seq<Seq<char>>)>)
    decreases names.len(),
{
    if names.len() == 0 {
        (v, st)
    } else {
        let p = register_names_spec(v, st, names.drop_last(), library);
        register_stub_spec(p.0, p.1, names.last(), names.last(), library)
    }
}

/// Registers a stub function: allocates a stub for it (one that returns 0 when called:
/// `xor eax, eax; ret`) and registers the stub's address under `nid` as a function of `library`.
pub fn register_stub(
    resolver: &mut SymbolResolver,
    stubs: &mut Option<StubAllocator>,
    nid: &str,
    name: &str,
    library: &str,
)
    requires
        old(resolver).wf(),
        *old(stubs) matches Some(a) ==> a.wf(),
    ensures
        final(resolver).wf(),
        *final(stubs) matches Some(a) ==> a.wf(),
        (entries_view(final(resolver).entries()), stub_state(*final(stubs))) == register_stub_spec(
            entries_view(old(resolver).entries()),
            stub_state(*old(stubs)),
            nid@,
            name@,
            library@,
        ),
{
    let addr = allocate_stub(stubs, String::from_str(name));
    resolver.add_symbol(
        String::from_str(nid),
        SymbolRecord {
            name: String::from_str(name),
            virtual_address: addr,
            sym_type: SymbolType::Function,
            library: String::from_str(library),
            module: String::new(),
        },
    );
}

/// Registers every library this emulator implements (the kernel library).
pub fn register_all_libraries(resolver: &mut SymbolResolver, stubs: &mut Option<StubAllocator>)
    requires
        old(resolver).wf(),
        *old(stubs) matches Some(a) ==> a.wf(),
    ensures
        final(resolver).wf(),
        *final(stubs) matches Some(a) ==> a.wf(),
        (entries_view(final(resolver).entries()), stub_state(*final(stubs))) == register_names_spec(
            entries_view(old(resolver).entries()),
            stub_state(*old(stubs)),
            crate::hle::libkernel::libkernel_names(),
            "libkernel"@,
        ),
{
    crate::hle::libkernel::register(resolver, stubs);
}

} // verus!
