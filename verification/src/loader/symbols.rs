//! Symbol resolution by NID (the obfuscated name id the guest's dynamic linker uses) or by
//! name, and the table of known NIDs of the system libraries.
use vstd::prelude::*;
use vstd::string::StrSliceExecFns;
use crate::text::str_eq;

verus! {

/// Type of a symbol.
#[derive(Debug, Clone, Copy, PartialEq, Eq, Hash, Structural)]
pub enum SymbolType {
    /// Unknown type.
    Unknown,
    /// Function symbol.
    Function,
    /// Object/data symbol.
    Object,
    /// TLS variable.
    Tls,
    /// No type.
    NoType,
}

/// A resolved symbol record.
#[derive(Debug)]
pub struct SymbolRecord {
    /// The symbol name or NID.
    pub name: String,
    /// The virtual address of the symbol.
    pub virtual_address: u64,
    /// The symbol type.
    pub sym_type: SymbolType,
    /// The library name this symbol belongs to.
    pub library: String,
    /// The module name this symbol belongs to.
    pub module: String,
}

impl Clone for SymbolRecord {
    fn clone(&self) -> (r: Self)
        ensures
            r == *self,
    {
        SymbolRecord {
            name: self.name.clone(),
            virtual_address: self.virtual_address,
            sym_type: self.sym_type,
            library: self.library.clone(),
            module: self.module.clone(),
        }
    }
}

/// The index of the first entry at or after `i` registered under `nid`, or -1.
pub open spec fn nid_index_from(e: Seq<(String, SymbolRecord)>, nid: Seq<char>, i: int) -> int
    decreases e.len() - i,
{
    if i < 0 || i >= e.len() {
        -1
    } else if e[i].0@ == nid {
        i
    } else {
        nid_index_from(e, nid, i + 1)
    }
}

/// The index of the first entry at or after `i` whose record is named `name`, or -1.
pub open spec fn name_index_from(e: Seq<(String, SymbolRecord)>, name: Seq<char>, i: int) -> int
    decreases e.len() - i,
{
    if i < 0 || i >= e.len() {
        -1
    } else if e[i].1.name@ == name {
        i
    } else {
        name_index_from(e, name, i + 1)
    }
}

/// The entries after registering `rec` under `nid`: an entry under the same NID is replaced,
/// else the entry is added.
pub open spec fn insert_spec(e: Seq<(String, SymbolRecord)>, nid: String, rec: SymbolRecord) -> Seq<
    (String, SymbolRecord),
> {
    let k = nid_index_from(e, nid@, 0);
    if k < 0 {
        e.push((nid, rec))
    } else {
        e.update(k, (nid, rec))
    }
}

/// The entries after registering each of `o`, in order.
pub open spec fn merge_spec(e: Seq<(String, SymbolRecord)>, o: Seq<(String, SymbolRecord)>) -> Seq<
    (String, SymbolRecord),
>
    decreases o.len(),
{
    if o.len() == 0 {
        e
    } else {
        insert_spec(merge_spec(e, o.drop_last()), o.last().0, o.last().1)
    }
}

/// What a name resolves to: the address of the entry registered under it as a NID, else of
/// the first entry whose record carries that name.
pub open spec fn resolve_spec(e: Seq<(String, SymbolRecord)>, name: Seq<char>) -> Option<u64> {
    let k = nid_index_from(e, name, 0);
    let j = name_index_from(e, name, 0);
    if k >= 0 {
        Some(e[k].1.virtual_address)
    } else if j >= 0 {
        Some(e[j].1.virtual_address)
    } else {
        None
    }
}

/// NIDs are distinct.
pub open spec fn nids_distinct(e: Seq<(String, SymbolRecord)>) -> bool {
    forall|i: int, j: int| 0 <= i < j < e.len() ==> e[i].0@ != e[j].0@
}

proof fn lemma_nid_index_range(e: Seq<(String, SymbolRecord)>, nid: Seq<char>, i: int)
    ensures
        nid_index_from(e, nid, i) == -1 || (i <= nid_index_from(e, nid, i) < e.len()
            && e[nid_index_from(e, nid, i)].0@ == nid),
        nid_index_from(e, nid, i) == -1 && 0 <= i ==> forall|j: int|
            i <= j < e.len() ==> e[j].0@ != nid,
    decreases e.len() - i,
{
    if 0 <= i < e.len() && e[i].0@ != nid {
        lemma_nid_index_range(e, nid, i + 1);
    }
}

proof fn lemma_insert_distinct(e: Seq<(String, SymbolRecord)>, nid: String, rec: SymbolRecord)
    requires
        nids_distinct(e),
    ensures
        nids_distinct(insert_spec(e, nid, rec)),
{
    lemma_nid_index_range(e, nid@, 0);
}

proof fn lemma_merge_distinct(e: Seq<(String, SymbolRecord)>, o: Seq<(String, SymbolRecord)>)
    requires
        nids_distinct(e),
    ensures
        nids_distinct(merge_spec(e, o)),
    decreases o.len(),
{
    if o.len() > 0 {
        lemma_merge_distinct(e, o.drop_last());
        lemma_insert_distinct(merge_spec(e, o.drop_last()), o.last().0, o.last().1);
    }
}

proof fn lemma_nid_index_is(a: Seq<(String, SymbolRecord)>, nid: Seq<char>, i: int, k: int)
    requires
        0 <= i <= k < a.len(),
        a[k].0@ == nid,
        forall|j: int| i <= j < k ==> (#[trigger] a[j]).0@ != nid,
    ensures
        nid_index_from(a, nid, i) == k,
    decreases k - i,
{
    if i < k {
        lemma_nid_index_is(a, nid, i + 1, k);
    }
}

proof fn lemma_nid_index_first(e: Seq<(String, SymbolRecord)>, nid: Seq<char>, i: int)
    requires
        0 <= i,
        nid_index_from(e, nid, i) >= 0,
    ensures
        forall|j: int| i <= j < nid_index_from(e, nid, i) ==> (#[trigger] e[j]).0@ != nid,
    decreases e.len() - i,
{
    if i < e.len() && e[i].0@ != nid {
        lemma_nid_index_first(e, nid, i + 1);
    }
}

/// A symbol just registered under a NID is what that NID finds and resolves to; the registry
/// grows by one exactly when no symbol was registered under that NID.
pub proof fn law_registered_symbol_resolves(
    e: Seq<(String, SymbolRecord)>,
    nid: String,
    rec: SymbolRecord,
)
    ensures
        ({
            let after = insert_spec(e, nid, rec);
            let k = nid_index_from(after, nid@, 0);
            &&& k >= 0 && after[k].1 == rec
            &&& resolve_spec(after, nid@) == Some(rec.virtual_address)
            &&& after.len() == e.len() + if nid_index_from(e, nid@, 0) < 0 {
                1int
            } else {
                0int
            }
        }),
{
    lemma_nid_index_range(e, nid@, 0);
    let k = nid_index_from(e, nid@, 0);
    let after = insert_spec(e, nid, rec);
    if k < 0 {
        assert forall|j: int| 0 <= j < e.len() implies (#[trigger] after[j]).0@ != nid@ by {
            assert(after[j] == e[j]);
        }
        lemma_nid_index_is(after, nid@, 0, e.len() as int);
    } else {
        lemma_nid_index_first(e, nid@, 0);
        assert forall|j: int| 0 <= j < k implies (#[trigger] after[j]).0@ != nid@ by {
            assert(after[j] == e[j]);
        }
        lemma_nid_index_is(after, nid@, 0, k);
    }
}

/// A symbol record as values: name, address, type, library, module.
pub type RecordView = (Seq<char>, u64, SymbolType, Seq<char>, Seq<char>);

/// A record as values.
pub open spec fn record_view(r: SymbolRecord) -> RecordView {
    (r.name@, r.virtual_address, r.sym_type, r.library@, r.module@)
}

/// Registered symbols as values: NID and record.
pub open spec fn entries_view(e: Seq<(String, SymbolRecord)>) -> Seq<(Seq<char>, RecordView)> {
    e.map_values(|p: (String, SymbolRecord)| (p.0@, record_view(p.1)))
}

/// The index of the first entry at or after `i` under `nid`, or -1.
pub open spec fn key_index_view(v: Seq<(Seq<char>, RecordView)>, nid: Seq<char>, i: int) -> int
    decreases v.len() - i,
{
    if i < 0 || i >= v.len() {
        -1
    } else if v[i].0 == nid {
        i
    } else {
        key_index_view(v, nid, i + 1)
    }
}

/// Registering `rec` under `nid`, as values: an entry under the same NID is replaced, else
/// the entry is added.
pub open spec fn insert_view(v: Seq<(Seq<char>, RecordView)>, nid: Seq<char>, rec: RecordView) -> Seq<
    (Seq<char>, RecordView),
> {
    let k = key_index_view(v, nid, 0);
    if k < 0 {
        v.push((nid, rec))
    } else {
        v.update(k, (nid, rec))
    }
}

proof fn lemma_index_views(e: Seq<(String, SymbolRecord)>, nid: Seq<char>, i: int)
    ensures
        nid_index_from(e, nid, i) == key_index_view(entries_view(e), nid, i),
    decreases e.len() - i,
{
    if 0 <= i < e.len() && e[i].0@ != nid {
        lemma_index_views(e, nid, i + 1);
    }
}

/// Registering a symbol, seen as values.
pub proof fn lemma_insert_view(e: Seq<(String, SymbolRecord)>, nid: String, rec: SymbolRecord)
    ensures
        entries_view(insert_spec(e, nid, rec)) == insert_view(entries_view(e), nid@, record_view(rec)),
{
    lemma_index_views(e, nid@, 0);
    lemma_nid_index_range(e, nid@, 0);
    let k = nid_index_from(e, nid@, 0);
    if k < 0 {
        assert(entries_view(e.push((nid, rec))) =~= entries_view(e).push((nid@, record_view(rec))));
    } else {
        assert(entries_view(e.update(k, (nid, rec))) =~= entries_view(e).update(
            k,
            (nid@, record_view(rec)),
        ));
    }
}

/// Resolves symbols by NID or name: the registry of exported symbols consulted while
/// relocating. Each NID occurs once.
#[derive(Debug)]
pub struct SymbolResolver {
    /// Symbols with the NID each is registered under, in registration order.
    symbols: Vec<(String, SymbolRecord)>,
}

impl SymbolResolver {
    /// The registered symbols: NID and record, in registration order.
    pub closed spec fn entries(&self) -> Seq<(String, SymbolRecord)> {
        self.symbols@
    }

    /// Each NID occurs once.
    pub closed spec fn wf(&self) -> bool {
        nids_distinct(self.symbols@)
    }

    /// Create a new empty resolver.
    pub fn new() -> (r: Self)
        ensures
            r.wf(),
            r.entries() == Seq::<(String, SymbolRecord)>::empty(),
    {
        SymbolResolver { symbols: Vec::new() }
    }

    /// The index of the symbol registered under `nid`.
    fn find_nid(&self, nid: &str) -> (r: Option<usize>)
        ensures
            match r {
                Some(k) => nid_index_from(self.entries(), nid@, 0) == k as int && k
                    < self.entries().len(),
                None => nid_index_from(self.entries(), nid@, 0) == -1,
            },
    {
        let mut i: usize = 0;
        while i < self.symbols.len()
            invariant
                i <= self.symbols@.len(),
                nid_index_from(self.symbols@, nid@, 0) == nid_index_from(
                    self.symbols@,
                    nid@,
                    i as int,
                ),
            decreases self.symbols.len() - i,
        {
            if str_eq(self.symbols[i].0.as_str(), nid) {
                return Some(i);
            }
            i = i + 1;
        }
        None
    }

    /// Registers a symbol under a NID, replacing a symbol registered under the same NID.
    pub fn add_symbol(&mut self, nid: String, record: SymbolRecord)
        requires
            old(self).wf(),
        ensures
            final(self).wf(),
            final(self).entries() == insert_spec(old(self).entries(), nid, record),
            entries_view(final(self).entries()) == insert_view(
                entries_view(old(self).entries()),
                nid@,
                record_view(record),
            ),
    {
        proof {
            lemma_insert_distinct(self.symbols@, nid, record);
            lemma_insert_view(self.symbols@, nid, record);
        }
        match self.find_nid(nid.as_str()) {
            Some(k) => {
                self.symbols.set(k, (nid, record));
            },
            None => {
                self.symbols.push((nid, record));
            },
        }
    }

    /// Looks up a symbol by NID.
    pub fn find_symbol(&self, nid: &str) -> (r: Option<&SymbolRecord>)
        ensures
            match r {
                Some(rec) => {
                    let k = nid_index_from(self.entries(), nid@, 0);
                    k >= 0 && *rec == self.entries()[k].1
                },
                None => nid_index_from(self.entries(), nid@, 0) == -1,
            },
    {
        match self.find_nid(nid) {
            Some(k) => Some(&self.symbols[k].1),
            None => None,
        }
    }

    /// Resolves a symbol by NID or, failing that, by record name, to its virtual address.
    pub fn resolve(&self, name: &str) -> (r: Option<u64>)
        ensures
            r == resolve_spec(self.entries(), name@),
    {
        match self.find_nid(name) {
            Some(k) => {
                return Some(self.symbols[k].1.virtual_address);
            },
            None => {},
        }
        let mut i: usize = 0;
        while i < self.symbols.len()
            invariant
                i <= self.symbols@.len(),
                nid_index_from(self.symbols@, name@, 0) == -1,
                name_index_from(self.symbols@, name@, 0) == name_index_from(
                    self.symbols@,
                    name@,
                    i as int,
                ),
            decreases self.symbols.len() - i,
        {
            if str_eq(self.symbols[i].1.name.as_str(), name) {
                return Some(self.symbols[i].1.virtual_address);
            }
            i = i + 1;
        }
        None
    }

    /// Number of registered symbols.
    pub fn len(&self) -> (r: usize)
        ensures
            r == self.entries().len(),
    {
        self.symbols.len()
    }

    /// Whether the resolver is empty.
    pub fn is_empty(&self) -> (r: bool)
        ensures
            r == (self.entries().len() == 0),
    {
        self.symbols.len() == 0
    }

    /// All symbols, in registration order.
    pub fn iter(&self) -> (r: &[(String, SymbolRecord)])
        ensures
            r@ == self.entries(),
    {
        self.symbols.as_slice()
    }

    /// Registers every symbol of another resolver, in its order (a symbol under a NID this
    /// resolver already has replaces it).
    pub fn merge(&mut self, other: &SymbolResolver)
        requires
            old(self).wf(),
        ensures
            final(self).wf(),
            final(self).entries() == merge_spec(old(self).entries(), other.entries()),
    {
        let mut i: usize = 0;
        while i < other.symbols.len()
            invariant
                i <= other.symbols@.len(),
                self.wf(),
                self.symbols@ == merge_spec(old(self).symbols@, other.symbols@.take(i as int)),
            decreases other.symbols.len() - i,
        {
            let nid = other.symbols[i].0.clone();
            let rec = other.symbols[i].1.clone();
            proof {
                assert(other.symbols@.take(i + 1).drop_last() =~= other.symbols@.take(i as int));
            }
            self.add_symbol(nid, rec);
            i = i + 1;
        }
        proof {
            assert(other.symbols@.take(other.symbols@.len() as int) =~= other.symbols@);
        }
    }
}

impl Default for SymbolResolver {
    fn default() -> (r: Self)
        ensures
            r.wf(),
            r.entries() == Seq::<(String, SymbolRecord)>::empty(),
    {
        Self::new()
    }
}

/// The NID of a symbol of a library and module. NIDs of the symbols this library implements
/// itself are their plain names.
pub fn encode_nid(name: &str, library: &str, module: &str) -> (r: String)
    ensures
        r@ == name@,
{
    String::from_str(name)
}

/// The index of the first `#` in `s` at or after `i`, or the length of `s`.
pub open spec fn hash_index_from(s: Seq<char>, i: int) -> int
    decreases s.len() - i,
{
    if i < 0 || i >= s.len() {
        s.len() as int
    } else if s[i] == '#' {
        i
    } else {
        hash_index_from(s, i + 1)
    }
}

/// The base of a NID: what precedes its first `#` (the library and module suffixes follow).
pub open spec fn nid_base(s: Seq<char>) -> Seq<char> {
    s.subrange(0, hash_index_from(s, 0))
}

proof fn lemma_hash_index_range(s: Seq<char>, i: int)
    requires
        0 <= i <= s.len(),
    ensures
        i <= hash_index_from(s, i) <= s.len(),
    decreases s.len() - i,
{
    if i < s.len() && s[i] != '#' {
        lemma_hash_index_range(s, i + 1);
    }
}

/// The base of a NID: the part before its first `#`.
pub fn split_nid_base(nid: &str) -> (r: &str)
    ensures
        r@ == nid_base(nid@),
{
    let n = nid.unicode_len();
    let mut i: usize = 0;
    while i < n && nid.get_char(i) != '#'
        invariant
            n == nid@.len(),
            i <= n,
            hash_index_from(nid@, 0) == hash_index_from(nid@, i as int),
        decreases n - i,
    {
        i = i + 1;
    }
    nid.substring_char(0, i)
}

/// The system-library function that a known NID base stands for (from the public database of
/// the guest's library NIDs).
pub open spec fn known_nid(base: Seq<char>) -> Option<Seq<char>> {
    if base == "bzQExy189ZI"@ {
        Some("_init_env"@)
    } else if base == "8G2LB+A3rzg"@ {
        Some("atexit"@)
    } else if base == "tsvEmnenz48"@ {
        Some("__cxa_atexit"@)
    } else if base == "3GPpjQdAMTw"@ {
        Some("__cxa_guard_acquire"@)
    } else if base == "9rAeANT2tyE"@ {
        Some("__cxa_guard_release"@)
    } else if base == "fJnpuVVBbKk"@ {
        Some("_Znwm"@)
    } else if base == "z+P+xCnWLBk"@ {
        Some("_ZdlPv"@)
    } else if base == "gQX+4GDQjpM"@ {
        Some("malloc"@)
    } else if base == "tIhsqj0qsFE"@ {
        Some("free"@)
    } else if base == "XKRegsFpEpk"@ {
        Some("catchReturnFromMain"@)
    } else if base == "uMei1W9uyNo"@ {
        Some("exit"@)
    } else if base == "Q3VBxCXhUHs"@ {
        Some("memcpy"@)
    } else if base == "8zTFvBIAIN8"@ {
        Some("memset"@)
    } else if base == "kiZSXIWd9vg"@ {
        Some("strcpy"@)
    } else if base == "j4ViWNHEgww"@ {
        Some("strlen"@)
    } else if base == "Ls4tzzhimqQ"@ {
        Some("strcat"@)
    } else if base == "Ovb2dSJOAuE"@ {
        Some("strcmp"@)
    } else if base == "DfivPArhucg"@ {
        Some("memcmp"@)
    } else if base == "cpCOXWMgha0"@ {
        Some("rand"@)
    } else if base == "ZtjspkJQ+vw"@ {
        Some("sinf"@)
    } else if base == "ZE6RNL+eLbk"@ {
        Some("tanf"@)
    } else if base == "GZWjF-YIFFk"@ {
        Some("asinf"@)
    } else if base == "QI-x0SL8jhw"@ {
        Some("acosf"@)
    } else if base == "EH-x713A99c"@ {
        Some("atan2f"@)
    } else if base == "hcuQgD53UxM"@ {
        Some("printf"@)
    } else if base == "YQ0navp+YIc"@ {
        Some("puts"@)
    } else if base == "xeYO4u7uyJ0"@ {
        Some("fopen"@)
    } else if base == "lbB+UlZqVG0"@ {
        Some("fread"@)
    } else if base == "uodLYyUip20"@ {
        Some("fclose"@)
    } else if base == "rQFVBXp-Cxg"@ {
        Some("fseek"@)
    } else if base == "Qazy8LmXTvw"@ {
        Some("ftell"@)
    } else if base == "MpxhMh8QFro"@ {
        Some("fwrite"@)
    } else if base == "KdP-nULpuGw"@ {
        Some("fgets"@)
    } else if base == "Q2V+iqvjgC0"@ {
        Some("vsnprintf"@)
    } else if base == "B+vc2AO2Zrc"@ {
        Some("sceKernelAllocateMainDirectMemory"@)
    } else if base == "pO96TwzOm5E"@ {
        Some("sceKernelGetDirectMemorySize"@)
    } else if base == "WslcK1FQcGI"@ {
        Some("sceKernelIsNeoMode"@)
    } else if base == "rTXw65xmLIA"@ {
        Some("sceKernelAllocateDirectMemory"@)
    } else if base == "L-Q3LEjIbgA"@ {
        Some("sceKernelMapDirectMemory"@)
    } else if base == "cQke9UuBQOk"@ {
        Some("sceKernelMunmap"@)
    } else if base == "MBuItvba6z8"@ {
        Some("sceKernelReleaseDirectMemory"@)
    } else if base == "2Of0f+3mhhE"@ {
        Some("scePthreadMutexDestroy"@)
    } else if base == "cmo1RIYva9o"@ {
        Some("scePthreadMutexInit"@)
    } else if base == "9UK1vLZQft4"@ {
        Some("scePthreadMutexLock"@)
    } else if base == "tn3VlD0hG60"@ {
        Some("scePthreadMutexUnlock"@)
    } else if base == "6UgtwV+0zb4"@ {
        Some("scePthreadCreate"@)
    } else if base == "D0OdFMjp46I"@ {
        Some("sceKernelCreateEqueue"@)
    } else if base == "jpFjmgAC5AE"@ {
        Some("sceKernelDeleteEqueue"@)
    } else if base == "Up36PTk687E"@ {
        Some("sceVideoOutOpen"@)
    } else if base == "CBiu4mCE1DA"@ {
        Some("sceVideoOutSetFlipRate"@)
    } else if base == "uquVH4-Du78"@ {
        Some("sceVideoOutClose"@)
    } else if base == "6kPnj51T62Y"@ {
        Some("sceVideoOutGetResolutionStatus"@)
    } else if base == "i6-sR91Wt-4"@ {
        Some("sceVideoOutSetBufferAttribute"@)
    } else if base == "w3BY+tAEiQY"@ {
        Some("sceVideoOutRegisterBuffers"@)
    } else if base == "b0xyllnVY-I"@ {
        Some("sceGnmAddEqEvent"@)
    } else if base == "PVT+fuoS9gU"@ {
        Some("sceGnmDeleteEqEvent"@)
    } else if base == "yb2cRhagD1I"@ {
        Some("sceGnmDrawInitDefaultHardwareState350"@)
    } else if base == "1qXLHIpROPE"@ {
        Some("sceGnmInsertWaitFlipDone"@)
    } else if base == "hv1luiJrqQM"@ {
        Some("scePadInit"@)
    } else if base == "xk0AcarP3V4"@ {
        Some("scePadOpen"@)
    } else if base == "6ncge5+l5Qs"@ {
        Some("scePadClose"@)
    } else if base == "YndgXqQVV7c"@ {
        Some("scePadReadState"@)
    } else if base == "j3YMu1MVNNo"@ {
        Some("sceUserServiceInitialize"@)
    } else if base == "bwFjS+bX9mA"@ {
        Some("sceUserServiceTerminate"@)
    } else if base == "CdWp0oHWGr0"@ {
        Some("sceUserServiceGetInitialUser"@)
    } else if base == "yH17Q6NWtVg"@ {
        Some("sceUserServiceGetEvent"@)
    } else if base == "fPhymKNvK-A"@ {
        Some("sceUserServiceGetLoginUserIdList"@)
    } else if base == "Vo5V8KAwCmk"@ {
        Some("sceSystemServiceHideSplashScreen"@)
    } else if base == "fZo48un7LK4"@ {
        Some("sceSystemServiceParamGetInt"@)
    } else if base == "656LMQSrg6U"@ {
        Some("sceSystemServiceReceiveEvent"@)
    } else if base == "rPo6tV8D9bM"@ {
        Some("sceSystemServiceGetStatus"@)
    } else if base == "g8cM39EUZ6o"@ {
        Some("sceSysmoduleLoadModule"@)
    } else if base == "uoUpLGNkygk"@ {
        Some("sceCommonDialogInitialize"@)
    } else if base == "TywrFKCoLGY"@ {
        Some("sceSaveDataInitialize3"@)
    } else if base == "yKDy8S5yLA0"@ {
        Some("sceSaveDataTerminate"@)
    } else if base == "KK3Bdg1RWK0"@ {
        Some("sceSaveDataDialogUpdateStatus"@)
    } else if base == "yEiJ-qqr6Cg"@ {
        Some("sceSaveDataDialogGetResult"@)
    } else if base == "A2CQ3kgSopQ"@ {
        Some("sceNpSetContentRestriction"@)
    } else if base == "Ec63y59l9tw"@ {
        Some("sceNpSetNpTitleId"@)
    } else if base == "GWnWQNXZH5M"@ {
        Some("sceNpScoreCreateNpTitleCtxA"@)
    } else if base == "q7U6tEAQf7c"@ {
        Some("sceNpTrophyCreateHandle"@)
    } else if base == "TJCAxto9SEU"@ {
        Some("sceNpTrophyRegisterContext"@)
    } else if base == "XbkjbobZlCY"@ {
        Some("sceNpTrophyCreateContext"@)
    } else if base == "73WQ4Jj0nJI"@ {
        Some("sceScreenShotSetOverlayImageWithOrigin"@)
    } else if base == "JfEPXVxhFqA"@ {
        Some("sceAudioOutInit"@)
    } else if base == "ekNvsT22rsY"@ {
        Some("sceAudioOutOpen"@)
    } else {
        None
    }
}

/// The published NID database entries this library knows: NID base `base` stands for the
/// system function `name`.
pub open spec fn nid_listed_as(base: Seq<char>, name: Seq<char>) -> bool {
    ||| base == "bzQExy189ZI"@ && name == "_init_env"@
    ||| base == "8G2LB+A3rzg"@ && name == "atexit"@
    ||| base == "tsvEmnenz48"@ && name == "__cxa_atexit"@
    ||| base == "3GPpjQdAMTw"@ && name == "__cxa_guard_acquire"@
    ||| base == "9rAeANT2tyE"@ && name == "__cxa_guard_release"@
    ||| base == "fJnpuVVBbKk"@ && name == "_Znwm"@
    ||| base == "z+P+xCnWLBk"@ && name == "_ZdlPv"@
    ||| base == "gQX+4GDQjpM"@ && name == "malloc"@
    ||| base == "tIhsqj0qsFE"@ && name == "free"@
    ||| base == "XKRegsFpEpk"@ && name == "catchReturnFromMain"@
    ||| base == "uMei1W9uyNo"@ && name == "exit"@
    ||| base == "Q3VBxCXhUHs"@ && name == "memcpy"@
    ||| base == "8zTFvBIAIN8"@ && name == "memset"@
    ||| base == "kiZSXIWd9vg"@ && name == "strcpy"@
    ||| base == "j4ViWNHEgww"@ && name == "strlen"@
    ||| base == "Ls4tzzhimqQ"@ && name == "strcat"@
    ||| base == "Ovb2dSJOAuE"@ && name == "strcmp"@
    ||| base == "DfivPArhucg"@ && name == "memcmp"@
    ||| base == "cpCOXWMgha0"@ && name == "rand"@
    ||| base == "ZtjspkJQ+vw"@ && name == "sinf"@
    ||| base == "ZE6RNL+eLbk"@ && name == "tanf"@
    ||| base == "GZWjF-YIFFk"@ && name == "asinf"@
    ||| base == "QI-x0SL8jhw"@ && name == "acosf"@
    ||| base == "EH-x713A99c"@ && name == "atan2f"@
    ||| base == "hcuQgD53UxM"@ && name == "printf"@
    ||| base == "YQ0navp+YIc"@ && name == "puts"@
    ||| base == "xeYO4u7uyJ0"@ && name == "fopen"@
    ||| base == "lbB+UlZqVG0"@ && name == "fread"@
    ||| base == "uodLYyUip20"@ && name == "fclose"@
    ||| base == "rQFVBXp-Cxg"@ && name == "fseek"@
    ||| base == "Qazy8LmXTvw"@ && name == "ftell"@
    ||| base == "MpxhMh8QFro"@ && name == "fwrite"@
    ||| base == "KdP-nULpuGw"@ && name == "fgets"@
    ||| base == "Q2V+iqvjgC0"@ && name == "vsnprintf"@
    ||| base == "B+vc2AO2Zrc"@ && name == "sceKernelAllocateMainDirectMemory"@
    ||| base == "pO96TwzOm5E"@ && name == "sceKernelGetDirectMemorySize"@
    ||| base == "WslcK1FQcGI"@ && name == "sceKernelIsNeoMode"@
    ||| base == "rTXw65xmLIA"@ && name == "sceKernelAllocateDirectMemory"@
    ||| base == "L-Q3LEjIbgA"@ && name == "sceKernelMapDirectMemory"@
    ||| base == "cQke9UuBQOk"@ && name == "sceKernelMunmap"@
    ||| base == "MBuItvba6z8"@ && name == "sceKernelReleaseDirectMemory"@
    ||| base == "2Of0f+3mhhE"@ && name == "scePthreadMutexDestroy"@
    ||| base == "cmo1RIYva9o"@ && name == "scePthreadMutexInit"@
    ||| base == "9UK1vLZQft4"@ && name == "scePthreadMutexLock"@
    ||| base == "tn3VlD0hG60"@ && name == "scePthreadMutexUnlock"@
    ||| base == "6UgtwV+0zb4"@ && name == "scePthreadCreate"@
    ||| base == "D0OdFMjp46I"@ && name == "sceKernelCreateEqueue"@
    ||| base == "jpFjmgAC5AE"@ && name == "sceKernelDeleteEqueue"@
    ||| base == "Up36PTk687E"@ && name == "sceVideoOutOpen"@
    ||| base == "CBiu4mCE1DA"@ && name == "sceVideoOutSetFlipRate"@
    ||| base == "uquVH4-Du78"@ && name == "sceVideoOutClose"@
    ||| base == "6kPnj51T62Y"@ && name == "sceVideoOutGetResolutionStatus"@
    ||| base == "i6-sR91Wt-4"@ && name == "sceVideoOutSetBufferAttribute"@
    ||| base == "w3BY+tAEiQY"@ && name == "sceVideoOutRegisterBuffers"@
    ||| base == "b0xyllnVY-I"@ && name == "sceGnmAddEqEvent"@
    ||| base == "PVT+fuoS9gU"@ && name == "sceGnmDeleteEqEvent"@
    ||| base == "yb2cRhagD1I"@ && name == "sceGnmDrawInitDefaultHardwareState350"@
    ||| base == "1qXLHIpROPE"@ && name == "sceGnmInsertWaitFlipDone"@
    ||| base == "hv1luiJrqQM"@ && name == "scePadInit"@
    ||| base == "xk0AcarP3V4"@ && name == "scePadOpen"@
    ||| base == "6ncge5+l5Qs"@ && name == "scePadClose"@
    ||| base == "YndgXqQVV7c"@ && name == "scePadReadState"@
    ||| base == "j3YMu1MVNNo"@ && name == "sceUserServiceInitialize"@
    ||| base == "bwFjS+bX9mA"@ && name == "sceUserServiceTerminate"@
    ||| base == "CdWp0oHWGr0"@ && name == "sceUserServiceGetInitialUser"@
    ||| base == "yH17Q6NWtVg"@ && name == "sceUserServiceGetEvent"@
    ||| base == "fPhymKNvK-A"@ && name == "sceUserServiceGetLoginUserIdList"@
    ||| base == "Vo5V8KAwCmk"@ && name == "sceSystemServiceHideSplashScreen"@
    ||| base == "fZo48un7LK4"@ && name == "sceSystemServiceParamGetInt"@
    ||| base == "656LMQSrg6U"@ && name == "sceSystemServiceReceiveEvent"@
    ||| base == "rPo6tV8D9bM"@ && name == "sceSystemServiceGetStatus"@
    ||| base == "g8cM39EUZ6o"@ && name == "sceSysmoduleLoadModule"@
    ||| base == "uoUpLGNkygk"@ && name == "sceCommonDialogInitialize"@
    ||| base == "TywrFKCoLGY"@ && name == "sceSaveDataInitialize3"@
    ||| base == "yKDy8S5yLA0"@ && name == "sceSaveDataTerminate"@
    ||| base == "KK3Bdg1RWK0"@ && name == "sceSaveDataDialogUpdateStatus"@
    ||| base == "yEiJ-qqr6Cg"@ && name == "sceSaveDataDialogGetResult"@
    ||| base == "A2CQ3kgSopQ"@ && name == "sceNpSetContentRestriction"@
    ||| base == "Ec63y59l9tw"@ && name == "sceNpSetNpTitleId"@
    ||| base == "GWnWQNXZH5M"@ && name == "sceNpScoreCreateNpTitleCtxA"@
    ||| base == "q7U6tEAQf7c"@ && name == "sceNpTrophyCreateHandle"@
    ||| base == "TJCAxto9SEU"@ && name == "sceNpTrophyRegisterContext"@
    ||| base == "XbkjbobZlCY"@ && name == "sceNpTrophyCreateContext"@
    ||| base == "73WQ4Jj0nJI"@ && name == "sceScreenShotSetOverlayImageWithOrigin"@
    ||| base == "JfEPXVxhFqA"@ && name == "sceAudioOutInit"@
    ||| base == "ekNvsT22rsY"@ && name == "sceAudioOutOpen"@
}

/// The NID bases the published database entries list.
pub open spec fn nid_listed(base: Seq<char>) -> bool {
    ||| base == "bzQExy189ZI"@
    ||| base == "8G2LB+A3rzg"@
    ||| base == "tsvEmnenz48"@
    ||| base == "3GPpjQdAMTw"@
    ||| base == "9rAeANT2tyE"@
    ||| base == "fJnpuVVBbKk"@
    ||| base == "z+P+xCnWLBk"@
    ||| base == "gQX+4GDQjpM"@
    ||| base == "tIhsqj0qsFE"@
    ||| base == "XKRegsFpEpk"@
    ||| base == "uMei1W9uyNo"@
    ||| base == "Q3VBxCXhUHs"@
    ||| base == "8zTFvBIAIN8"@
    ||| base == "kiZSXIWd9vg"@
    ||| base == "j4ViWNHEgww"@
    ||| base == "Ls4tzzhimqQ"@
    ||| base == "Ovb2dSJOAuE"@
    ||| base == "DfivPArhucg"@
    ||| base == "cpCOXWMgha0"@
    ||| base == "ZtjspkJQ+vw"@
    ||| base == "ZE6RNL+eLbk"@
    ||| base == "GZWjF-YIFFk"@
    ||| base == "QI-x0SL8jhw"@
    ||| base == "EH-x713A99c"@
    ||| base == "hcuQgD53UxM"@
    ||| base == "YQ0navp+YIc"@
    ||| base == "xeYO4u7uyJ0"@
    ||| base == "lbB+UlZqVG0"@
    ||| base == "uodLYyUip20"@
    ||| base == "rQFVBXp-Cxg"@
    ||| base == "Qazy8LmXTvw"@
    ||| base == "MpxhMh8QFro"@
    ||| base == "KdP-nULpuGw"@
    ||| base == "Q2V+iqvjgC0"@
    ||| base == "B+vc2AO2Zrc"@
    ||| base == "pO96TwzOm5E"@
    ||| base == "WslcK1FQcGI"@
    ||| base == "rTXw65xmLIA"@
    ||| base == "L-Q3LEjIbgA"@
    ||| base == "cQke9UuBQOk"@
    ||| base == "MBuItvba6z8"@
    ||| base == "2Of0f+3mhhE"@
    ||| base == "cmo1RIYva9o"@
    ||| base == "9UK1vLZQft4"@
    ||| base == "tn3VlD0hG60"@
    ||| base == "6UgtwV+0zb4"@
    ||| base == "D0OdFMjp46I"@
    ||| base == "jpFjmgAC5AE"@
    ||| base == "Up36PTk687E"@
    ||| base == "CBiu4mCE1DA"@
    ||| base == "uquVH4-Du78"@
    ||| base == "6kPnj51T62Y"@
    ||| base == "i6-sR91Wt-4"@
    ||| base == "w3BY+tAEiQY"@
    ||| base == "b0xyllnVY-I"@
    ||| base == "PVT+fuoS9gU"@
    ||| base == "yb2cRhagD1I"@
    ||| base == "1qXLHIpROPE"@
    ||| base == "hv1luiJrqQM"@
    ||| base == "xk0AcarP3V4"@
    ||| base == "6ncge5+l5Qs"@
    ||| base == "YndgXqQVV7c"@
    ||| base == "j3YMu1MVNNo"@
    ||| base == "bwFjS+bX9mA"@
    ||| base == "CdWp0oHWGr0"@
    ||| base == "yH17Q6NWtVg"@
    ||| base == "fPhymKNvK-A"@
    ||| base == "Vo5V8KAwCmk"@
    ||| base == "fZo48un7LK4"@
    ||| base == "656LMQSrg6U"@
    ||| base == "rPo6tV8D9bM"@
    ||| base == "g8cM39EUZ6o"@
    ||| base == "uoUpLGNkygk"@
    ||| base == "TywrFKCoLGY"@
    ||| base == "yKDy8S5yLA0"@
    ||| base == "KK3Bdg1RWK0"@
    ||| base == "yEiJ-qqr6Cg"@
    ||| base == "A2CQ3kgSopQ"@
    ||| base == "Ec63y59l9tw"@
    ||| base == "GWnWQNXZH5M"@
    ||| base == "q7U6tEAQf7c"@
    ||| base == "TJCAxto9SEU"@
    ||| base == "XbkjbobZlCY"@
    ||| base == "73WQ4Jj0nJI"@
    ||| base == "JfEPXVxhFqA"@
    ||| base == "ekNvsT22rsY"@
}

/// Looking up a NID gives the function the database lists for its base (the part before `#`),
/// and nothing exactly for a base the database does not list.
pub proof fn law_known_nids(nid: Seq<char>)
    ensures
        known_nid(nid_base(nid)) is None <==> !nid_listed(nid_base(nid)),
        known_nid(nid_base(nid)) matches Some(n) ==> nid_listed_as(nid_base(nid), n),
{
}

/// The function name a known NID base stands for.
fn lookup_base(base: &str) -> (r: Option<&'static str>)
    ensures
        match r {
            Some(s) => known_nid(base@) == Some(s@),
            None => known_nid(base@) is None,
        },
{
    if str_eq(base, "bzQExy189ZI") {
        Some("_init_env")
    } else if str_eq(base, "8G2LB+A3rzg") {
        Some("atexit")
    } else if str_eq(base, "tsvEmnenz48") {
        Some("__cxa_atexit")
    } else if str_eq(base, "3GPpjQdAMTw") {
        Some("__cxa_guard_acquire")
    } else if str_eq(base, "9rAeANT2tyE") {
        Some("__cxa_guard_release")
    } else if str_eq(base, "fJnpuVVBbKk") {
        Some("_Znwm")
    } else if str_eq(base, "z+P+xCnWLBk") {
        Some("_ZdlPv")
    } else if str_eq(base, "gQX+4GDQjpM") {
        Some("malloc")
    } else if str_eq(base, "tIhsqj0qsFE") {
        Some("free")
    } else if str_eq(base, "XKRegsFpEpk") {
        Some("catchReturnFromMain")
    } else if str_eq(base, "uMei1W9uyNo") {
        Some("exit")
    } else if str_eq(base, "Q3VBxCXhUHs") {
        Some("memcpy")
    } else if str_eq(base, "8zTFvBIAIN8") {
        Some("memset")
    } else if str_eq(base, "kiZSXIWd9vg") {
        Some("strcpy")
    } else if str_eq(base, "j4ViWNHEgww") {
        Some("strlen")
    } else if str_eq(base, "Ls4tzzhimqQ") {
        Some("strcat")
    } else if str_eq(base, "Ovb2dSJOAuE") {
        Some("strcmp")
    } else if str_eq(base, "DfivPArhucg") {
        Some("memcmp")
    } else if str_eq(base, "cpCOXWMgha0") {
        Some("rand")
    } else if str_eq(base, "ZtjspkJQ+vw") {
        Some("sinf")
    } else if str_eq(base, "ZE6RNL+eLbk") {
        Some("tanf")
    } else if str_eq(base, "GZWjF-YIFFk") {
        Some("asinf")
    } else if str_eq(base, "QI-x0SL8jhw") {
        Some("acosf")
    } else if str_eq(base, "EH-x713A99c") {
        Some("atan2f")
    } else if str_eq(base, "hcuQgD53UxM") {
        Some("printf")
    } else if str_eq(base, "YQ0navp+YIc") {
        Some("puts")
    } else if str_eq(base, "xeYO4u7uyJ0") {
        Some("fopen")
    } else if str_eq(base, "lbB+UlZqVG0") {
        Some("fread")
    } else if str_eq(base, "uodLYyUip20") {
        Some("fclose")
    } else if str_eq(base, "rQFVBXp-Cxg") {
        Some("fseek")
    } else if str_eq(base, "Qazy8LmXTvw") {
        Some("ftell")
    } else if str_eq(base, "MpxhMh8QFro") {
        Some("fwrite")
    } else if str_eq(base, "KdP-nULpuGw") {
        Some("fgets")
    } else if str_eq(base, "Q2V+iqvjgC0") {
        Some("vsnprintf")
    } else if str_eq(base, "B+vc2AO2Zrc") {
        Some("sceKernelAllocateMainDirectMemory")
    } else if str_eq(base, "pO96TwzOm5E") {
        Some("sceKernelGetDirectMemorySize")
    } else if str_eq(base, "WslcK1FQcGI") {
        Some("sceKernelIsNeoMode")
    } else if str_eq(base, "rTXw65xmLIA") {
        Some("sceKernelAllocateDirectMemory")
    } else if str_eq(base, "L-Q3LEjIbgA") {
        Some("sceKernelMapDirectMemory")
    } else if str_eq(base, "cQke9UuBQOk") {
        Some("sceKernelMunmap")
    } else if str_eq(base, "MBuItvba6z8") {
        Some("sceKernelReleaseDirectMemory")
    } else if str_eq(base, "2Of0f+3mhhE") {
        Some("scePthreadMutexDestroy")
    } else if str_eq(base, "cmo1RIYva9o") {
        Some("scePthreadMutexInit")
    } else if str_eq(base, "9UK1vLZQft4") {
        Some("scePthreadMutexLock")
    } else if str_eq(base, "tn3VlD0hG60") {
        Some("scePthreadMutexUnlock")
    } else if str_eq(base, "6UgtwV+0zb4") {
        Some("scePthreadCreate")
    } else if str_eq(base, "D0OdFMjp46I") {
        Some("sceKernelCreateEqueue")
    } else if str_eq(base, "jpFjmgAC5AE") {
        Some("sceKernelDeleteEqueue")
    } else if str_eq(base, "Up36PTk687E") {
        Some("sceVideoOutOpen")
    } else if str_eq(base, "CBiu4mCE1DA") {
        Some("sceVideoOutSetFlipRate")
    } else if str_eq(base, "uquVH4-Du78") {
        Some("sceVideoOutClose")
    } else if str_eq(base, "6kPnj51T62Y") {
        Some("sceVideoOutGetResolutionStatus")
    } else if str_eq(base, "i6-sR91Wt-4") {
        Some("sceVideoOutSetBufferAttribute")
    } else if str_eq(base, "w3BY+tAEiQY") {
        Some("sceVideoOutRegisterBuffers")
    } else if str_eq(base, "b0xyllnVY-I") {
        Some("sceGnmAddEqEvent")
    } else if str_eq(base, "PVT+fuoS9gU") {
        Some("sceGnmDeleteEqEvent")
    } else if str_eq(base, "yb2cRhagD1I") {
        Some("sceGnmDrawInitDefaultHardwareState350")
    } else if str_eq(base, "1qXLHIpROPE") {
        Some("sceGnmInsertWaitFlipDone")
    } else if str_eq(base, "hv1luiJrqQM") {
        Some("scePadInit")
    } else if str_eq(base, "xk0AcarP3V4") {
        Some("scePadOpen")
    } else if str_eq(base, "6ncge5+l5Qs") {
        Some("scePadClose")
    } else if str_eq(base, "YndgXqQVV7c") {
        Some("scePadReadState")
    } else if str_eq(base, "j3YMu1MVNNo") {
        Some("sceUserServiceInitialize")
    } else if str_eq(base, "bwFjS+bX9mA") {
        Some("sceUserServiceTerminate")
    } else if str_eq(base, "CdWp0oHWGr0") {
        Some("sceUserServiceGetInitialUser")
    } else if str_eq(base, "yH17Q6NWtVg") {
        Some("sceUserServiceGetEvent")
    } else if str_eq(base, "fPhymKNvK-A") {
        Some("sceUserServiceGetLoginUserIdList")
    } else if str_eq(base, "Vo5V8KAwCmk") {
        Some("sceSystemServiceHideSplashScreen")
    } else if str_eq(base, "fZo48un7LK4") {
        Some("sceSystemServiceParamGetInt")
    } else if str_eq(base, "656LMQSrg6U") {
        Some("sceSystemServiceReceiveEvent")
    } else if str_eq(base, "rPo6tV8D9bM") {
        Some("sceSystemServiceGetStatus")
    } else if str_eq(base, "g8cM39EUZ6o") {
        Some("sceSysmoduleLoadModule")
    } else if str_eq(base, "uoUpLGNkygk") {
        Some("sceCommonDialogInitialize")
    } else if str_eq(base, "TywrFKCoLGY") {
        Some("sceSaveDataInitialize3")
    } else if str_eq(base, "yKDy8S5yLA0") {
        Some("sceSaveDataTerminate")
    } else if str_eq(base, "KK3Bdg1RWK0") {
        Some("sceSaveDataDialogUpdateStatus")
    } else if str_eq(base, "yEiJ-qqr6Cg") {
        Some("sceSaveDataDialogGetResult")
    } else if str_eq(base, "A2CQ3kgSopQ") {
        Some("sceNpSetContentRestriction")
    } else if str_eq(base, "Ec63y59l9tw") {
        Some("sceNpSetNpTitleId")
    } else if str_eq(base, "GWnWQNXZH5M") {
        Some("sceNpScoreCreateNpTitleCtxA")
    } else if str_eq(base, "q7U6tEAQf7c") {
        Some("sceNpTrophyCreateHandle")
    } else if str_eq(base, "TJCAxto9SEU") {
        Some("sceNpTrophyRegisterContext")
    } else if str_eq(base, "XbkjbobZlCY") {
        Some("sceNpTrophyCreateContext")
    } else if str_eq(base, "73WQ4Jj0nJI") {
        Some("sceScreenShotSetOverlayImageWithOrigin")
    } else if str_eq(base, "JfEPXVxhFqA") {
        Some("sceAudioOutInit")
    } else if str_eq(base, "ekNvsT22rsY") {
        Some("sceAudioOutOpen")
    } else {
        None
    }
}

/// Looks up the system-library function a NID stands for; the NID's suffixes after `#` are
/// ignored.
pub fn lookup_known_nid(nid: &str) -> (r: Option<&'static str>)
    ensures
        match r {
            Some(s) => known_nid(nid_base(nid@)) == Some(s@),
            None => known_nid(nid_base(nid@)) is None,
        },
{
    let base = split_nid_base(nid);
    lookup_base(base)
}

} // verus!
