//! Loaded modules: the relocation tables of a module's dynamic data, the layout of its
//! segments in memory, and the addresses derived from its base.
use vstd::prelude::*;
use crate::loader::elf::{
    Elf,
    ElfRelocation,
    ElfSymbol,
    ProgramHeader,
    ProgramType,
    relocation_at,
    symbol_at,
    first_dynamic_value,
    first_index_of_type,
    headers_of_type,
    resolved_offset,
    resolve_checked,
};
use crate::loader::elf::sce_dynamic::{
    DT_SCE_SYMTAB,
    DT_SCE_SYMTABSZ,
    DT_SCE_STRTAB,
    DT_SCE_STRSZ,
    DT_SCE_RELA,
    DT_SCE_RELASZ,
    DT_SCE_JMPREL,
    DT_SCE_PLTRELSZ,
    DT_INIT,
    DT_INIT_ARRAY,
    DT_INIT_ARRAYSZ,
};
use crate::types::{PAGE_SIZE, align_up, align_up_spec};
use crate::text::{cstr_end, find_cstr_end, string_from_utf8_lossy, utf8_lossy};
use crate::bytes::{le, lemma_le_suffix};

verus! {

/// The size of a relocation and of a symbol table entry.
pub const ENTRY_SIZE: u64 = 24;

/// A relocation with its target symbol's name, binding and type.
#[derive(Debug)]
pub struct ParsedRelocation {
    pub offset: u64,
    pub rel_type: u32,
    pub addend: i64,
    pub symbol_name: String,
    pub symbol_binding: u8,
    pub symbol_type: u8,
    pub is_jmp_rel: bool,
}

/// A relocation as a value: the symbol name as text.
pub struct RelocationView {
    pub offset: u64,
    pub rel_type: u32,
    pub addend: i64,
    pub symbol_name: Seq<char>,
    pub symbol_binding: u8,
    pub symbol_type: u8,
    pub is_jmp_rel: bool,
}

impl View for ParsedRelocation {
    type V = RelocationView;

    open spec fn view(&self) -> RelocationView {
        RelocationView {
            offset: self.offset,
            rel_type: self.rel_type,
            addend: self.addend,
            symbol_name: self.symbol_name@,
            symbol_binding: self.symbol_binding,
            symbol_type: self.symbol_type,
            is_jmp_rel: self.is_jmp_rel,
        }
    }
}

impl Clone for ParsedRelocation {
    fn clone(&self) -> (r: Self)
        ensures
            r == *self,
    {
        ParsedRelocation {
            offset: self.offset,
            rel_type: self.rel_type,
            addend: self.addend,
            symbol_name: self.symbol_name.clone(),
            symbol_binding: self.symbol_binding,
            symbol_type: self.symbol_type,
            is_jmp_rel: self.is_jmp_rel,
        }
    }
}

/// Where the symbol and string tables lie in a module's dynamic data.
#[derive(Clone, Copy, Debug)]
pub struct RelocTables {
    pub symtab_off: u64,
    pub symtab_sz: u64,
    pub strtab_off: u64,
    pub strtab_sz: u64,
}

/// The views of a sequence of relocations.
pub open spec fn views(v: Seq<ParsedRelocation>) -> Seq<RelocationView> {
    v.map_values(|p: ParsedRelocation| p@)
}

/// Reading the string at `offset` of the string table runs past the data.
pub open spec fn string_fails(d: Seq<u8>, t: RelocTables, offset: u32) -> bool {
    offset < t.strtab_sz && t.strtab_off + offset > d.len()
}

/// The string at `offset` of the string table: empty past the table's size, else the
/// zero-terminated bytes there, decoded.
pub open spec fn string_in(d: Seq<u8>, t: RelocTables, offset: u32) -> Seq<char> {
    if offset >= t.strtab_sz {
        Seq::empty()
    } else {
        let s = t.strtab_off + offset;
        utf8_lossy(d.subrange(s, cstr_end(d, s)))
    }
}

/// The symbol index of a relocation.
pub open spec fn sym_index(rel: ElfRelocation) -> u64 {
    rel.info >> 32u64
}

/// A relocation names a symbol inside the symbol table.
pub open spec fn has_symbol(t: RelocTables, rel: ElfRelocation) -> bool {
    sym_index(rel) != 0 && sym_index(rel) * 24 < t.symtab_sz
}

/// Where a relocation's symbol lies.
pub open spec fn sym_pos(t: RelocTables, rel: ElfRelocation) -> int {
    t.symtab_off + sym_index(rel) * 24
}

/// Decoding the relocation at `at` reads past the data: the relocation itself, its symbol or
/// the symbol's name starts beyond the end.
pub open spec fn entry_fails(d: Seq<u8>, t: RelocTables, at: int) -> bool {
    ||| at > d.len()
    ||| {
        &&& d.len() - at >= 24
        &&& has_symbol(t, relocation_at(d.subrange(at, d.len() as int), 0))
        &&& {
            let sp = sym_pos(t, relocation_at(d.subrange(at, d.len() as int), 0));
            ||| sp > d.len()
            ||| (d.len() - sp >= 24 && string_fails(
                d,
                t,
                symbol_at(d.subrange(sp, d.len() as int), 0).name_offset,
            ))
        }
    }
}

/// The relocation at `at`, if a whole one lies there, with its symbol's name, binding and type
/// when it names a symbol that lies in the data (else an empty name and zeros).
pub open spec fn entry_view(d: Seq<u8>, t: RelocTables, at: int, jmp: bool) -> Option<
    RelocationView,
> {
    let rest = d.subrange(at, d.len() as int);
    if rest.len() < 24 {
        None
    } else {
        let rel = relocation_at(rest, 0);
        let sp = sym_pos(t, rel);
        let named = has_symbol(t, rel) && d.len() - sp >= 24;
        let sym = symbol_at(d.subrange(sp, d.len() as int), 0);
        Some(
            RelocationView {
                offset: rel.offset,
                rel_type: (rel.info & 0xFFFF_FFFF) as u32,
                addend: rel.addend,
                symbol_name: if named {
                    string_in(d, t, sym.name_offset)
                } else {
                    Seq::empty()
                },
                symbol_binding: if named {
                    sym.info >> 4u8
                } else {
                    0
                },
                symbol_type: if named {
                    sym.info & 0xF
                } else {
                    0
                },
                is_jmp_rel: jmp,
            },
        )
    }
}

/// The relocations of the first `count` entries of a table at `off`.
pub open spec fn table_views(d: Seq<u8>, t: RelocTables, off: u64, count: nat, jmp: bool) -> Seq<
    RelocationView,
>
    decreases count,
{
    if count == 0 {
        Seq::empty()
    } else {
        let prev = table_views(d, t, off, (count - 1) as nat, jmp);
        match entry_view(d, t, off + (count - 1) * 24, jmp) {
            Some(v) => prev.push(v),
            None => prev,
        }
    }
}

/// Entry `i` of the table at `off` reads past the data.
pub open spec fn entry_fails_at(d: Seq<u8>, t: RelocTables, off: u64, i: int) -> bool {
    entry_fails(d, t, off + i * 24)
}

/// Some entry of the first `count` of a table reads past the data.
pub open spec fn table_fails(d: Seq<u8>, t: RelocTables, off: u64, count: nat) -> bool {
    exists|i: int| 0 <= i < count && #[trigger] entry_fails_at(d, t, off, i)
}

/// The symbol and string tables named by a module's dynamic entries.
pub open spec fn reloc_tables(elf: &Elf) -> Option<RelocTables> {
    let e = elf.dynamic_entries@;
    match (
        first_dynamic_value(e, DT_SCE_SYMTAB),
        first_dynamic_value(e, DT_SCE_SYMTABSZ),
        first_dynamic_value(e, DT_SCE_STRTAB),
        first_dynamic_value(e, DT_SCE_STRSZ),
    ) {
        (Some(a), Some(b), Some(c), Some(s)) => Some(
            RelocTables { symtab_off: a, symtab_sz: b, strtab_off: c, strtab_sz: s },
        ),
        _ => None,
    }
}

/// A relocation table named by a pair of dynamic entries: its offset and entry count.
pub open spec fn table_of(elf: &Elf, off_tag: i64, size_tag: i64) -> Option<(u64, nat)> {
    let e = elf.dynamic_entries@;
    match (first_dynamic_value(e, off_tag), first_dynamic_value(e, size_tag)) {
        (Some(o), Some(s)) => Some((o, (s / 24) as nat)),
        _ => None,
    }
}

/// Reading the module's relocations runs past its dynamic data.
pub open spec fn relocations_fail(elf: &Elf) -> bool {
    let d = elf.dynlib_data@;
    match reloc_tables(elf) {
        None => false,
        Some(t) => {
            ||| (table_of(elf, DT_SCE_RELA, DT_SCE_RELASZ) matches Some((o, c)) && table_fails(
                d,
                t,
                o,
                c,
            ))
            ||| (table_of(elf, DT_SCE_JMPREL, DT_SCE_PLTRELSZ) matches Some((o, c))
                && table_fails(d, t, o, c))
        },
    }
}

/// The module's relocations: those of the standard table, then those of the PLT table. None
/// when the symbol or string table is not named.
pub open spec fn relocation_views(elf: &Elf) -> Seq<RelocationView> {
    let d = elf.dynlib_data@;
    match reloc_tables(elf) {
        None => Seq::empty(),
        Some(t) => {
            let standard = match table_of(elf, DT_SCE_RELA, DT_SCE_RELASZ) {
                Some((o, c)) => table_views(d, t, o, c, false),
                None => Seq::empty(),
            };
            let plt = match table_of(elf, DT_SCE_JMPREL, DT_SCE_PLTRELSZ) {
                Some((o, c)) => table_views(d, t, o, c, true),
                None => Seq::empty(),
            };
            standard + plt
        },
    }
}

/// A relocation entry's fields, as the 24 bytes of an `Elf64_Rela` at `at` hold them: the
/// offset in bytes 0..8, the type in the low half of the info word (bytes 8..16), and the
/// signed addend in bytes 16..24, all little-endian.
pub open spec fn rela_fields_at(v: RelocationView, d: Seq<u8>, at: int) -> bool {
    &&& v.offset == le(d, at, 8) as u64
    &&& v.rel_type == ((le(d, at + 8, 8) as u64) & 0xFFFF_FFFFu64) as u32
    &&& v.addend == (le(d, at + 16, 8) as u64) as i64
}

proof fn lemma_entry_fields(d: Seq<u8>, t: RelocTables, at: int, jmp: bool)
    requires
        0 <= at,
        at + 24 <= d.len(),
    ensures
        entry_view(d, t, at, jmp) matches Some(v) && rela_fields_at(v, d, at) && v.is_jmp_rel
            == jmp,
{
    lemma_le_suffix(d, at, 0, 8);
    lemma_le_suffix(d, at, 8, 8);
    lemma_le_suffix(d, at, 16, 8);
}

/// The relocations read from a table of `count` entries at `off` that lies within the data:
/// one per entry, in order, each with the offset, type and addend its `Elf64_Rela` entry holds.
pub proof fn law_relocation_entries(d: Seq<u8>, t: RelocTables, off: u64, count: nat, jmp: bool)
    requires
        off + count * 24 <= d.len(),
    ensures
        table_views(d, t, off, count, jmp).len() == count,
        forall|i: int|
            0 <= i < count ==> rela_fields_at(
                #[trigger] table_views(d, t, off, count, jmp)[i],
                d,
                off + i * 24,
            ) && table_views(d, t, off, count, jmp)[i].is_jmp_rel == jmp,
    decreases count,
{
    if count > 0 {
        let c1 = (count - 1) as nat;
        assert(off + c1 * 24 <= d.len()) by (nonlinear_arith)
            requires
                off + count * 24 <= d.len(),
                c1 + 1 == count,
        ;
        law_relocation_entries(d, t, off, c1, jmp);
        assert(off + c1 * 24 + 24 <= d.len()) by (nonlinear_arith)
            requires
                off + count * 24 <= d.len(),
                c1 + 1 == count,
        ;
        lemma_entry_fields(d, t, off + c1 * 24, jmp);
        let prev = table_views(d, t, off, c1, jmp);
        let all = table_views(d, t, off, count, jmp);
        assert forall|i: int|
            0 <= i < count implies rela_fields_at(#[trigger] all[i], d, off + i * 24)
            && all[i].is_jmp_rel == jmp by {
            if i < c1 {
                assert(all[i] == prev[i]);
            }
        }
    }
}

/// The standard relocations a module yields come first, one per entry of its `DT_SCE_RELA`
/// table, each with the offset, type and addend of its `Elf64_Rela` entry.
pub proof fn law_module_relocation_addends(elf: &Elf, i: int)
    requires
        reloc_tables(elf) is Some,
        table_of(elf, DT_SCE_RELA, DT_SCE_RELASZ) matches Some((o, c)) && o + c * 24
            <= elf.dynlib_data@.len() && 0 <= i < c,
    ensures
        table_of(elf, DT_SCE_RELA, DT_SCE_RELASZ) matches Some((o, c)) && rela_fields_at(
            relocation_views(elf)[i],
            elf.dynlib_data@,
            o + i * 24,
        ) && !relocation_views(elf)[i].is_jmp_rel,
{
    let d = elf.dynlib_data@;
    let t = reloc_tables(elf)->0;
    let (o, c) = table_of(elf, DT_SCE_RELA, DT_SCE_RELASZ)->0;
    law_relocation_entries(d, t, o, c, false);
    let standard = table_views(d, t, o, c, false);
    let plt = match table_of(elf, DT_SCE_JMPREL, DT_SCE_PLTRELSZ) {
        Some((o2, c2)) => table_views(d, t, o2, c2, true),
        None => Seq::empty(),
    };
    assert(relocation_views(elf) == standard + plt);
    assert((standard + plt)[i] == standard[i]);
}

/// The lowest start address of `segs`, folded from `u64::MAX`.
pub open spec fn min_vaddr(segs: Seq<ProgramHeader>) -> u64
    decreases segs.len(),
{
    if segs.len() == 0 {
        u64::MAX
    } else {
        let m = min_vaddr(segs.drop_last());
        if segs.last().vaddr < m {
            segs.last().vaddr
        } else {
            m
        }
    }
}

/// The highest end address of `segs`, folded from 0.
pub open spec fn max_end(segs: Seq<ProgramHeader>) -> int
    decreases segs.len(),
{
    if segs.len() == 0 {
        0
    } else {
        let m = max_end(segs.drop_last());
        let e = segs.last().vaddr + segs.last().memsz;
        if e > m {
            e
        } else {
            m
        }
    }
}

/// The end of segment `i` lies past 64 bits.
pub open spec fn end_overflows_at(segs: Seq<ProgramHeader>, i: int) -> bool {
    segs[i].vaddr + segs[i].memsz > u64::MAX
}

/// The extent of the loadable segments cannot be computed in 64 bits.
pub open spec fn layout_overflows(elf: &Elf) -> bool {
    let segs = headers_of_type(elf.program_headers@, ProgramType::Load);
    ||| exists|i: int| 0 <= i < segs.len() && #[trigger] end_overflows_at(segs, i)
    ||| (min_vaddr(segs) != u64::MAX && max_end(segs) - min_vaddr(segs) + (PAGE_SIZE - 1)
        > u64::MAX)
}

/// Where a module's loadable segments lie: their lowest address and the page-aligned size from
/// there to their highest end. `None` when there is none (or every one starts at the last
/// address).
pub open spec fn layout_spec(elf: &Elf) -> Option<(u64, u64)> {
    let segs = headers_of_type(elf.program_headers@, ProgramType::Load);
    let lo = min_vaddr(segs);
    if lo == u64::MAX {
        None
    } else {
        Some((lo, align_up_spec((max_end(segs) - lo) as u64, PAGE_SIZE)))
    }
}

/// A segment's copy into the module's memory: `size` bytes of the file from `src_offset` to
/// `dest`.
#[derive(Clone, Copy, Debug, PartialEq, Eq, Structural)]
pub struct SegmentCopy {
    pub dest: u64,
    pub src_offset: u64,
    pub size: u64,
}

/// Address `v` of the module image, placed at `base` when the image starts at `min`; `None`
/// when that leaves 64 bits.
pub open spec fn rebase(base: u64, min: u64, v: u64) -> Option<u64> {
    if base + v > u64::MAX || base + v < min {
        None
    } else {
        Some((base + v - min) as u64)
    }
}

/// The copy that program header `idx` asks for: outer `None` when its addresses leave 64 bits,
/// inner `None` when it is not loadable, is empty, or its bytes run past the file.
pub open spec fn copy_for(elf: &Elf, base: u64, min: u64, idx: int) -> Option<Option<SegmentCopy>> {
    let ph = elf.program_headers@[idx];
    if ph.phdr_type != ProgramType::Load {
        Some(None)
    } else {
        match rebase(base, min, ph.vaddr) {
            None => None,
            Some(dest) => match resolved_offset(
                elf.is_self,
                elf.self_segments@,
                elf.program_headers@,
                idx,
                ph,
                elf.elf_offset_spec() as int,
            ) {
                None => None,
                Some(o) => if o + ph.filesz > u64::MAX {
                    None
                } else if ph.filesz > 0 && o + ph.filesz <= elf.data@.len() {
                    Some(Some(SegmentCopy { dest, src_offset: o, size: ph.filesz }))
                } else {
                    Some(None)
                },
            },
        }
    }
}

/// The copies the first `n` program headers ask for, in table order.
pub open spec fn copies_upto(elf: &Elf, base: u64, min: u64, n: nat) -> Seq<SegmentCopy>
    decreases n,
{
    if n == 0 {
        Seq::empty()
    } else {
        let prev = copies_upto(elf, base, min, (n - 1) as nat);
        match copy_for(elf, base, min, n - 1) {
            Some(Some(c)) => prev.push(c),
            _ => prev,
        }
    }
}

/// Some program header's copy leaves 64 bits.
pub open spec fn copies_fail(elf: &Elf, base: u64, min: u64) -> bool {
    exists|i: int| 0 <= i < elf.program_headers@.len() && #[trigger] copy_for(elf, base, min, i) is None
}

/// `base + v - min`, when it stays within 64 bits.
fn rebase_checked(base: u64, min: u64, v: u64) -> (r: Option<u64>)
    ensures
        r == rebase(base, min, v),
{
    match base.checked_add(v) {
        Some(s) => if s < min {
            None
        } else {
            Some(s - min)
        },
        None => None,
    }
}

/// The address a program header of the image lands at, or 0 without one; outer `None` when it
/// leaves 64 bits.
pub open spec fn placed(base: u64, min: u64, ph: Option<ProgramHeader>) -> Option<u64> {
    match ph {
        Some(p) => rebase(base, min, p.vaddr),
        None => Some(0),
    }
}

/// The first program header of type `t`.
pub open spec fn first_of(elf: &Elf, t: ProgramType) -> Option<ProgramHeader> {
    match first_index_of_type(elf.program_headers@, t, 0) {
        Some(i) => Some(elf.program_headers@[i]),
        None => None,
    }
}

/// A dynamic address of the image, placed; 0 without the entry.
pub open spec fn placed_dynamic(elf: &Elf, base: u64, min: u64, tag: i64) -> Option<u64> {
    match first_dynamic_value(elf.dynamic_entries@, tag) {
        Some(a) => rebase(base, min, a),
        None => Some(0),
    }
}

/// Building the module from an image placed at `base` fails: an address leaves 64 bits, the
/// relocation tables run past the data, or the TLS index would pass `u32::MAX`.
pub open spec fn from_parts_fails(elf: &Elf, base: u64, min: u64, max_tls_index: u32) -> bool {
    ||| placed(base, min, first_of(elf, ProgramType::SceProcParam)) is None
    ||| placed(base, min, first_of(elf, ProgramType::GnuEhFrame)) is None
    ||| placed(base, min, first_of(elf, ProgramType::Tls)) is None
    ||| (first_of(elf, ProgramType::Tls) is Some && max_tls_index == u32::MAX)
    ||| relocations_fail(elf)
    ||| placed_dynamic(elf, base, min, DT_INIT_ARRAY) is None
    ||| placed_dynamic(elf, base, min, DT_INIT) is None
}

/// The string at `offset` of the string table; `None` when it starts past the data.
fn read_string(d: &[u8], t: RelocTables, offset: u32) -> (r: Option<String>)
    ensures
        r is None <==> string_fails(d@, t, offset),
        r matches Some(s) ==> s@ == string_in(d@, t, offset),
{
    if offset as u64 >= t.strtab_sz {
        return Some(String::new());
    }
    assert(d@.len() == d.len() && d.len() <= u64::MAX);
    let start = match t.strtab_off.checked_add(offset as u64) {
        Some(s) => s,
        None => {
            return None;
        },
    };
    if start > d.len() as u64 {
        return None;
    }
    let s = start as usize;
    let end = find_cstr_end(d, s);
    Some(string_from_utf8_lossy(&d[s..end]))
}

/// The relocation at `at`: outer `None` when it reads past the data, inner `None` when no
/// whole relocation lies there.
fn read_entry(d: &[u8], t: RelocTables, at: u64, jmp: bool) -> (r: Option<Option<ParsedRelocation>>)
    ensures
        r is None <==> entry_fails(d@, t, at as int),
        r matches Some(x) ==> match x {
            Some(p) => entry_view(d@, t, at as int, jmp) == Some(p@),
            None => entry_view(d@, t, at as int, jmp) is None,
        },
{
    if at > d.len() as u64 {
        return None;
    }
    let rest = &d[at as usize..d.len()];
    let rel = match ElfRelocation::from_bytes(rest) {
        Some(r) => r,
        None => {
            return Some(None);
        },
    };
    let mut name = String::new();
    let mut bind: u8 = 0;
    let mut typ: u8 = 0;
    let sym_idx = rel.symbol() as u64;
    let ghost rel_spec = relocation_at(d@.subrange(at as int, d@.len() as int), 0);
    assert(sym_idx == sym_index(rel_spec));
    if sym_idx != 0 && sym_idx * 24 < t.symtab_sz {
        let sp = match t.symtab_off.checked_add(sym_idx * 24) {
            Some(v) => v,
            None => {
                return None;
            },
        };
        if sp > d.len() as u64 {
            return None;
        }
        match ElfSymbol::from_bytes(&d[sp as usize..d.len()]) {
            Some(sym) => {
                name = match read_string(d, t, sym.name_offset) {
                    Some(s) => s,
                    None => {
                        return None;
                    },
                };
                bind = sym.binding();
                typ = sym.sym_type();
            },
            None => {},
        }
    }
    Some(
        Some(
            ParsedRelocation {
                offset: rel.offset,
                rel_type: rel.rel_type(),
                addend: rel.addend,
                symbol_name: name,
                symbol_binding: bind,
                symbol_type: typ,
                is_jmp_rel: jmp,
            },
        ),
    )
}

/// Appends the relocations of the first `count` entries of the table at `off`; false (with
/// `out` in an unspecified state) when an entry reads past the data.
fn read_table(
    d: &[u8],
    t: RelocTables,
    off: u64,
    count: u64,
    jmp: bool,
    out: &mut Vec<ParsedRelocation>,
) -> (r: bool)
    requires
        count <= u64::MAX / 24,
    ensures
        r == !table_fails(d@, t, off, count as nat),
        r ==> views(final(out)@) == views(old(out)@) + table_views(d@, t, off, count as nat, jmp),
{
    assert(d@.len() == d.len() && d.len() <= u64::MAX);
    let mut i: u64 = 0;
    while i < count
        invariant
            i <= count,
            count <= u64::MAX / 24,
            d@.len() <= u64::MAX,
            forall|j: int| 0 <= j < i ==> !#[trigger] entry_fails_at(d@, t, off, j),
            views(out@) == views(old(out)@) + table_views(d@, t, off, i as nat, jmp),
        decreases count - i,
    {
        let at = match off.checked_add(i * 24) {
            Some(a) => a,
            None => {
                assert(entry_fails_at(d@, t, off, i as int));
                return false;
            },
        };
        match read_entry(d, t, at, jmp) {
            None => {
                assert(entry_fails_at(d@, t, off, i as int));
                return false;
            },
            Some(Some(p)) => {
                let ghost before = out@;
                out.push(p);
                proof {
                    assert(views(out@) =~= views(before).push(p@));
                }
            },
            Some(None) => {},
        }
        proof {
            assert(views(out@) =~= views(old(out)@) + table_views(d@, t, off, (i + 1) as nat, jmp));
        }
        i = i + 1;
    }
    true
}

/// A loaded module.
#[derive(Debug)]
pub struct Module {
    /// Module name (file name without directory).
    pub name: String,
    /// Host path of the file, as bytes.
    pub file: Vec<u8>,
    /// Parsed ELF data.
    pub elf: Elf,
    /// Base virtual address where the module is loaded.
    pub base_virtual_addr: u64,
    /// Total aligned size in memory.
    pub aligned_base_size: u64,
    /// Address of the process parameters segment.
    pub proc_param_addr: u64,
    /// Address of the EH frame header.
    pub eh_frame_hdr_addr: u64,
    /// Size of the EH frame header.
    pub eh_frame_hdr_size: u32,
    /// All relocations to apply.
    pub relocations: Vec<ParsedRelocation>,
    /// TLS module index.
    pub tls_index: u32,
    /// TLS image virtual address.
    pub tls_image_addr: u64,
    /// TLS image size.
    pub tls_image_size: u32,
    /// TLS full block size (including uninitialized).
    pub tls_size: u32,
    /// TLS alignment.
    pub tls_align: u32,
    /// Lowest address of the LOAD segments.
    pub min_addr: u64,
    /// Address of the `.init_array` table.
    pub init_array_addr: u64,
    /// Size of the `.init_array` table in bytes.
    pub init_array_size: u64,
    /// Address of the `DT_INIT` function, if any.
    pub init_addr: u64,
}

/// `m` is the module that `from_parts` builds of `elf` placed at `base` (its lowest segment
/// address being `min_addr`), when the highest TLS index handed out before is `tls_before`:
/// each field placed by the segment or dynamic entry it comes from, the relocations those of
/// the ELF, and, with a TLS segment, the next TLS index.
pub open spec fn built_module(
    m: Module,
    name: String,
    file: Vec<u8>,
    elf: Elf,
    base: u64,
    min_addr: u64,
    aligned_base_size: u64,
    tls_before: u32,
) -> bool {
    &&& m.name == name
    &&& m.file == file
    &&& m.elf == elf
    &&& m.base_virtual_addr == base
    &&& m.aligned_base_size == aligned_base_size
    &&& m.min_addr == min_addr
    &&& Some(m.proc_param_addr) == placed(
        base,
        min_addr,
        first_of(&elf, ProgramType::SceProcParam),
    )
    &&& Some(m.eh_frame_hdr_addr) == placed(
        base,
        min_addr,
        first_of(&elf, ProgramType::GnuEhFrame),
    )
    &&& m.eh_frame_hdr_size == match first_of(&elf, ProgramType::GnuEhFrame) {
        Some(p) => p.filesz as u32,
        None => 0u32,
    }
    &&& views(m.relocations@) == relocation_views(&elf)
    &&& match first_of(&elf, ProgramType::Tls) {
        Some(p) => {
            &&& tls_before < u32::MAX
            &&& m.tls_index == tls_before + 1
            &&& Some(m.tls_image_addr) == rebase(base, min_addr, p.vaddr)
            &&& m.tls_image_size == p.filesz as u32
            &&& m.tls_size == p.memsz as u32
            &&& m.tls_align == p.align as u32
        },
        None => {
            &&& m.tls_index == 0 && m.tls_image_addr == 0 && m.tls_image_size == 0
            &&& m.tls_size == 0 && m.tls_align == 0
        },
    }
    &&& Some(m.init_array_addr) == placed_dynamic(&elf, base, min_addr, DT_INIT_ARRAY)
    &&& m.init_array_size == match first_dynamic_value(
        elf.dynamic_entries@,
        DT_INIT_ARRAYSZ,
    ) {
        Some(v) => v,
        None => 0u64,
    }
    &&& Some(m.init_addr) == placed_dynamic(&elf, base, min_addr, DT_INIT)
}

/// The highest TLS index handed out once a module of `elf` is built after `tls_before`: one more
/// when it has a TLS segment.
pub open spec fn next_tls_index(elf: &Elf, tls_before: u32) -> u32 {
    match first_of(elf, ProgramType::Tls) {
        Some(_) => (tls_before + 1) as u32,
        None => tls_before,
    }
}

impl Module {
    /// The relocations of a module's dynamic data, standard ones first, then the PLT ones;
    /// empty when its symbol or string table is not named. `None` when an entry would be read
    /// past the end of the data.
    pub fn parse_relocations(elf: &Elf) -> (r: Option<Vec<ParsedRelocation>>)
        ensures
            r is None <==> relocations_fail(elf),
            r matches Some(v) ==> views(v@) == relocation_views(elf),
    {
        let mut parsed: Vec<ParsedRelocation> = Vec::new();
        proof {
            assert(views(parsed@) =~= Seq::<RelocationView>::empty());
        }
        let symtab_off = match elf.dynamic_value(DT_SCE_SYMTAB) {
            Some(v) => v,
            None => {
                return Some(parsed);
            },
        };
        let symtab_sz = match elf.dynamic_value(DT_SCE_SYMTABSZ) {
            Some(v) => v,
            None => {
                return Some(parsed);
            },
        };
        let strtab_off = match elf.dynamic_value(DT_SCE_STRTAB) {
            Some(v) => v,
            None => {
                return Some(parsed);
            },
        };
        let strtab_sz = match elf.dynamic_value(DT_SCE_STRSZ) {
            Some(v) => v,
            None => {
                return Some(parsed);
            },
        };
        let t = RelocTables { symtab_off, symtab_sz, strtab_off, strtab_sz };
        let d = elf.dynlib_data.as_slice();
        let ghost std_part: Seq<RelocationView> = Seq::empty();
        match (elf.dynamic_value(DT_SCE_RELA), elf.dynamic_value(DT_SCE_RELASZ)) {
            (Some(off), Some(sz)) => {
                if !read_table(d, t, off, sz / 24, false, &mut parsed) {
                    return None;
                }
                proof {
                    std_part = table_views(d@, t, off, (sz / 24) as nat, false);
                }
            },
            _ => {},
        }
        assert(views(parsed@) =~= std_part);
        match (elf.dynamic_value(DT_SCE_JMPREL), elf.dynamic_value(DT_SCE_PLTRELSZ)) {
            (Some(off), Some(sz)) => {
                if !read_table(d, t, off, sz / 24, true, &mut parsed) {
                    return None;
                }
            },
            _ => {
                assert(views(parsed@) =~= std_part + Seq::<RelocationView>::empty());
            },
        }
        Some(parsed)
    }
    /// The extent of the loadable segments: their lowest address and the page-aligned size up
    /// to their highest end; `Some(None)` when there is none. `None` when the extent cannot be
    /// computed in 64 bits.
    pub fn try_layout(elf: &Elf) -> (r: Option<Option<(u64, u64)>>)
        ensures
            r is None <==> layout_overflows(elf),
            r matches Some(l) ==> l == layout_spec(elf),
    {
        let segs = elf.load_segments();
        let ghost s = segs@;
        let mut lo: u64 = u64::MAX;
        let mut hi: u64 = 0;
        let mut i: usize = 0;
        while i < segs.len()
            invariant
                i <= segs@.len(),
                s == segs@,
                s == headers_of_type(elf.program_headers@, ProgramType::Load),
                lo == min_vaddr(s.take(i as int)),
                hi == max_end(s.take(i as int)),
                lo != u64::MAX ==> hi >= lo,
                forall|j: int| 0 <= j < i ==> !#[trigger] end_overflows_at(s, j),
            decreases segs.len() - i,
        {
            let ph = segs[i];
            assert(s.take(i + 1).drop_last() =~= s.take(i as int));
            let end = match ph.vaddr.checked_add(ph.memsz) {
                Some(e) => e,
                None => {
                    assert(end_overflows_at(s, i as int));
                    return None;
                },
            };
            if ph.vaddr < lo {
                lo = ph.vaddr;
            }
            if end > hi {
                hi = end;
            }
            i = i + 1;
        }
        assert(s.take(i as int) =~= s);
        if lo == u64::MAX {
            return Some(None);
        }
        let span = hi - lo;
        if span > u64::MAX - (PAGE_SIZE - 1) {
            return None;
        }
        Some(Some((lo, align_up(span, PAGE_SIZE))))
    }

    /// The copies of the loadable segments into memory for an image placed at `base` (whose
    /// lowest segment address is `min`), in program header order; a segment that is empty or
    /// whose bytes run past the file is not copied. `None` when an address leaves 64 bits.
    pub fn segment_copies(elf: &Elf, base: u64, min: u64) -> (r: Option<Vec<SegmentCopy>>)
        ensures
            r is None <==> copies_fail(elf, base, min),
            r matches Some(v) ==> v@ == copies_upto(elf, base, min, elf.program_headers@.len()),
    {
        let phs = elf.program_headers.as_slice();
        let e = elf.elf_offset();
        let mut out: Vec<SegmentCopy> = Vec::new();
        let mut i: usize = 0;
        while i < phs.len()
            invariant
                i <= phs@.len(),
                phs@ == elf.program_headers@,
                e == elf.elf_offset_spec(),
                out@ == copies_upto(elf, base, min, i as nat),
                forall|j: int| 0 <= j < i ==> !(#[trigger] copy_for(elf, base, min, j) is None),
            decreases phs.len() - i,
        {
            let ph = phs[i];
            if ph.phdr_type == ProgramType::Load {
                let dest = match rebase_checked(base, min, ph.vaddr) {
                    Some(d) => d,
                    None => {
                        assert(copy_for(elf, base, min, i as int) is None);
                        return None;
                    },
                };
                let o = match resolve_checked(
                    elf.is_self,
                    elf.self_segments.as_slice(),
                    phs,
                    i,
                    &ph,
                    e,
                ) {
                    Some(o) => o,
                    None => {
                        assert(copy_for(elf, base, min, i as int) is None);
                        return None;
                    },
                };
                let end = match o.checked_add(ph.filesz) {
                    Some(x) => x,
                    None => {
                        assert(copy_for(elf, base, min, i as int) is None);
                        return None;
                    },
                };
                if ph.filesz > 0 && end <= elf.data.len() as u64 {
                    out.push(SegmentCopy { dest, src_offset: o, size: ph.filesz });
                }
            }
            i = i + 1;
        }
        Some(out)
    }

    /// Builds the module of an ELF whose image was placed at `base` (its lowest segment address
    /// being `min_addr`): the placed addresses of its process parameters, EH frame header, TLS
    /// image and init functions, its relocations, and, when it has a TLS segment, the next TLS
    /// index (taken from `max_tls_index`, which is advanced). `None` when one of these cannot
    /// be computed.
    pub fn from_parts(
        name: String,
        file: Vec<u8>,
        elf: Elf,
        base: u64,
        min_addr: u64,
        aligned_base_size: u64,
        max_tls_index: &mut u32,
    ) -> (r: Option<Module>)
        ensures
            r is None <==> from_parts_fails(&elf, base, min_addr, *old(max_tls_index)),
            r is None ==> *final(max_tls_index) == *old(max_tls_index),
            r matches Some(m) ==> built_module(
                m,
                name,
                file,
                elf,
                base,
                min_addr,
                aligned_base_size,
                *old(max_tls_index),
            ),
            r is Some ==> *final(max_tls_index) == next_tls_index(&elf, *old(max_tls_index)),
    {
        let proc_param_addr = match elf.proc_param_header() {
            Some(ph) => match rebase_checked(base, min_addr, ph.vaddr) {
                Some(a) => a,
                None => {
                    return None;
                },
            },
            None => 0,
        };
        let (eh_frame_hdr_addr, eh_frame_hdr_size) = match elf.eh_frame_header() {
            Some(ph) => match rebase_checked(base, min_addr, ph.vaddr) {
                Some(a) => (a, ph.filesz as u32),
                None => {
                    return None;
                },
            },
            None => (0, 0),
        };
        let tls = match elf.tls_header() {
            Some(ph) => {
                if *max_tls_index == u32::MAX {
                    return None;
                }
                match rebase_checked(base, min_addr, ph.vaddr) {
                    Some(a) => Some((a, ph.filesz as u32, ph.memsz as u32, ph.align as u32)),
                    None => {
                        return None;
                    },
                }
            },
            None => None,
        };
        let relocations = match Self::parse_relocations(&elf) {
            Some(v) => v,
            None => {
                return None;
            },
        };
        let init_array_addr = match elf.dynamic_value(DT_INIT_ARRAY) {
            Some(a) => match rebase_checked(base, min_addr, a) {
                Some(x) => x,
                None => {
                    return None;
                },
            },
            None => 0,
        };
        let init_array_size = match elf.dynamic_value(DT_INIT_ARRAYSZ) {
            Some(v) => v,
            None => 0,
        };
        let init_addr = match elf.dynamic_value(DT_INIT) {
            Some(a) => match rebase_checked(base, min_addr, a) {
                Some(x) => x,
                None => {
                    return None;
                },
            },
            None => 0,
        };
        let (tls_index, tls_image_addr, tls_image_size, tls_size, tls_align) = match tls {
            Some((a, isz, tsz, al)) => {
                *max_tls_index = *max_tls_index + 1;
                (*max_tls_index, a, isz, tsz, al)
            },
            None => (0, 0, 0, 0, 0),
        };
        Some(
            Module {
                name,
                file,
                elf,
                base_virtual_addr: base,
                aligned_base_size,
                proc_param_addr,
                eh_frame_hdr_addr,
                eh_frame_hdr_size,
                relocations,
                tls_index,
                tls_image_addr,
                tls_image_size,
                tls_size,
                tls_align,
                min_addr,
                init_array_addr,
                init_array_size,
                init_addr,
            },
        )
    }
}

} // verus!
