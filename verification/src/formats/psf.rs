//! PARAM.SFO (PSF) parsing: the key-value metadata of a game (title, title ID, version...).
//!
//! Layout: a 20-byte header (magic, version, key table offset, data table offset, entry
//! count), then 16-byte index entries (key offset, format, length, maximum length, data
//! offset), then the zero-terminated keys and the values.
use vstd::prelude::*;
use vstd::utf8::{valid_utf8, decode_utf8};
use crate::bytes::{le, read_u16_le, read_u32_le, read_i32_le};
use crate::loader::elf::copy_range;
use crate::text::{cstr_end, find_cstr_end, string_from_utf8, str_eq};

verus! {

/// PSF magic number: "\0PSF" read big-endian.
pub const PSF_MAGIC: u32 = 0x00505346;

/// PSF version 1.1 (the most common).
pub const PSF_VERSION_1_1: u32 = 0x0000_0101;

/// Data format of a PSF entry.
#[derive(Clone, Copy, Debug, PartialEq, Eq, Structural)]
pub enum PsfEntryFormat {
    /// Raw binary data (0x0004).
    Binary,
    /// UTF-8 zero-terminated string (0x0204).
    Text,
    /// Signed 32-bit integer (0x0404).
    Integer,
}

/// The entry format a raw format code denotes.
pub open spec fn format_of(value: u16) -> Option<PsfEntryFormat> {
    if value == 0x0004 {
        Some(PsfEntryFormat::Binary)
    } else if value == 0x0204 {
        Some(PsfEntryFormat::Text)
    } else if value == 0x0404 {
        Some(PsfEntryFormat::Integer)
    } else {
        None
    }
}

impl PsfEntryFormat {
    /// Decodes a raw format code.
    pub fn from_u16(value: u16) -> (r: Option<Self>)
        ensures
            r == format_of(value),
    {
        match value {
            0x0004 => Some(PsfEntryFormat::Binary),
            0x0204 => Some(PsfEntryFormat::Text),
            0x0404 => Some(PsfEntryFormat::Integer),
            _ => None,
        }
    }
}

/// Value of a PSF entry.
#[derive(Debug)]
pub enum PsfValue {
    /// Raw binary data.
    Binary(Vec<u8>),
    /// UTF-8 string (without its zero terminator).
    Text(String),
    /// 32-bit signed integer.
    Integer(i32),
}

impl PsfValue {
    /// The value as a string, if it is text.
    pub fn as_str(&self) -> (r: Option<&str>)
        ensures
            r is Some <==> self is Text,
            r matches Some(s) ==> s@ == self->Text_0@,
    {
        match self {
            PsfValue::Text(s) => Some(s.as_str()),
            _ => None,
        }
    }

    /// The value as an integer, if it is one.
    pub fn as_integer(&self) -> (r: Option<i32>)
        ensures
            r is Some <==> self is Integer,
            r matches Some(v) ==> v == self->Integer_0,
    {
        match self {
            PsfValue::Integer(v) => Some(*v),
            _ => None,
        }
    }

    /// The value as binary data, if it is binary.
    pub fn as_binary(&self) -> (r: Option<&[u8]>)
        ensures
            r is Some <==> self is Binary,
            r matches Some(b) ==> b@ == self->Binary_0@,
    {
        match self {
            PsfValue::Binary(b) => Some(b.as_slice()),
            _ => None,
        }
    }
}

/// A single entry of a PSF file.
#[derive(Debug)]
pub struct PsfEntry {
    /// The key name (e.g. "TITLE", "TITLE_ID").
    pub key: String,
    /// The entry value.
    pub value: PsfValue,
}

/// A parsed PSF (PARAM.SFO) file.
#[derive(Debug)]
pub struct Psf {
    /// PSF format version.
    pub version: u32,
    /// All entries, each key once.
    pub entries: Vec<PsfEntry>,
}

/// Errors that can occur when parsing a PSF file.
#[derive(Clone, Copy, Debug, PartialEq, Eq, Structural)]
pub enum PsfError {
    /// The data ended before a field that had to be read (an unexpected end of file).
    Io,
    /// Neither byte order of the first word is the PSF magic.
    InvalidMagic(u32),
    /// An entry's format code is unknown.
    UnknownFormat(u16),
    /// A key or a text value is not valid UTF-8.
    InvalidUtf8,
}

// ============================================================================
// What the bytes hold
// ============================================================================

/// `v` with its four bytes in reverse order.
pub open spec fn swap32(v: u32) -> u32 {
    (((v & 0xFF) << 24u32) | ((v & 0xFF00) << 8u32) | ((v >> 8u32) & 0xFF00) | (v >> 24u32)) as u32
}

/// The key table offset of the header.
pub open spec fn key_table_offset(d: Seq<u8>) -> int {
    le(d, 8, 4) as int
}

/// The data table offset of the header.
pub open spec fn data_table_offset(d: Seq<u8>) -> int {
    le(d, 12, 4) as int
}

/// The number of index entries.
pub open spec fn entry_count(d: Seq<u8>) -> int {
    le(d, 16, 4) as int
}

/// The error met reading the header or the index table, if any.
pub open spec fn psf_header_error(d: Seq<u8>) -> Option<PsfError> {
    if d.len() < 4 {
        Some(PsfError::Io)
    } else if le(d, 0, 4) != PSF_MAGIC && swap32(le(d, 0, 4) as u32) != PSF_MAGIC {
        Some(PsfError::InvalidMagic(le(d, 0, 4) as u32))
    } else if d.len() < 20 || d.len() < 20 + 16 * entry_count(d) {
        Some(PsfError::Io)
    } else {
        None
    }
}

/// Where index entry `i` starts.
pub open spec fn index_at(i: int) -> int {
    20 + 16 * i
}

/// Key offset of index entry `i`.
pub open spec fn key_offset(d: Seq<u8>, i: int) -> int {
    le(d, index_at(i), 2) as int
}

/// Format code of index entry `i`.
pub open spec fn format_code(d: Seq<u8>, i: int) -> u16 {
    le(d, index_at(i) + 2, 2) as u16
}

/// Value length of index entry `i`.
pub open spec fn param_len(d: Seq<u8>, i: int) -> int {
    le(d, index_at(i) + 4, 4) as int
}

/// Data offset of index entry `i`.
pub open spec fn data_offset(d: Seq<u8>, i: int) -> int {
    le(d, index_at(i) + 12, 4) as int
}

/// Where the key of entry `i` starts.
pub open spec fn key_start(d: Seq<u8>, i: int) -> int {
    key_table_offset(d) + key_offset(d, i)
}

/// Where the value of entry `i` starts.
pub open spec fn data_start(d: Seq<u8>, i: int) -> int {
    data_table_offset(d) + data_offset(d, i)
}

/// The key bytes of entry `i` (up to its zero terminator).
pub open spec fn key_bytes(d: Seq<u8>, i: int) -> Seq<u8> {
    d.subrange(key_start(d, i), cstr_end(d, key_start(d, i)))
}

/// The key of entry `i`.
pub open spec fn key_text(d: Seq<u8>, i: int) -> Seq<char> {
    decode_utf8(key_bytes(d, i))
}

/// The length of a text value without its terminator.
pub open spec fn text_len(len: int) -> int {
    if len > 0 {
        len - 1
    } else {
        0
    }
}

/// The bytes of a text value of entry `i`.
pub open spec fn text_bytes(d: Seq<u8>, i: int) -> Seq<u8> {
    if text_len(param_len(d, i)) == 0 {
        Seq::empty()
    } else {
        d.subrange(data_start(d, i), data_start(d, i) + text_len(param_len(d, i)))
    }
}

/// The bytes of a binary value of entry `i`.
pub open spec fn binary_bytes(d: Seq<u8>, i: int) -> Seq<u8> {
    if param_len(d, i) == 0 {
        Seq::empty()
    } else {
        d.subrange(data_start(d, i), data_start(d, i) + param_len(d, i))
    }
}

/// The error met reading entry `i`, if any.
pub open spec fn entry_error(d: Seq<u8>, i: int) -> Option<PsfError> {
    let ks = key_start(d, i);
    let ds = data_start(d, i);
    let len = param_len(d, i);
    if ks >= d.len() || cstr_end(d, ks) >= d.len() {
        Some(PsfError::Io)
    } else if !valid_utf8(key_bytes(d, i)) {
        Some(PsfError::InvalidUtf8)
    } else {
        match format_of(format_code(d, i)) {
            None => Some(PsfError::UnknownFormat(format_code(d, i))),
            Some(PsfEntryFormat::Binary) => if len > 0 && ds + len > d.len() {
                Some(PsfError::Io)
            } else {
                None
            },
            Some(PsfEntryFormat::Text) => if text_len(len) > 0 && ds + text_len(len) > d.len() {
                Some(PsfError::Io)
            } else if !valid_utf8(text_bytes(d, i)) {
                Some(PsfError::InvalidUtf8)
            } else {
                None
            },
            Some(PsfEntryFormat::Integer) => if ds + 4 > d.len() {
                Some(PsfError::Io)
            } else {
                None
            },
        }
    }
}

/// The first error among entries `j..count`, if any.
pub open spec fn first_entry_error(d: Seq<u8>, count: int, j: int) -> Option<PsfError>
    decreases count - j,
{
    if j < 0 || j >= count {
        None
    } else {
        match entry_error(d, j) {
            Some(e) => Some(e),
            None => first_entry_error(d, count, j + 1),
        }
    }
}

/// The error that parsing `d` reports, if any.
pub open spec fn psf_error(d: Seq<u8>) -> Option<PsfError> {
    match psf_header_error(d) {
        Some(e) => Some(e),
        None => first_entry_error(d, entry_count(d), 0),
    }
}

/// `v` is the value that entry `i` holds.
pub open spec fn value_matches(v: PsfValue, d: Seq<u8>, i: int) -> bool {
    match format_of(format_code(d, i)) {
        Some(PsfEntryFormat::Binary) => v matches PsfValue::Binary(b) && b@ == binary_bytes(d, i),
        Some(PsfEntryFormat::Text) => v matches PsfValue::Text(s) && s@ == decode_utf8(
            text_bytes(d, i),
        ),
        Some(PsfEntryFormat::Integer) => v matches PsfValue::Integer(x) && x == (le(
            d,
            data_start(d, i),
            4,
        ) as u32) as i32,
        None => false,
    }
}

/// The last of the first `n` entries whose key is `k`: the one whose value a later entry
/// with the same key has not replaced.
pub open spec fn last_entry_with_key(d: Seq<u8>, n: int, k: Seq<char>) -> Option<int>
    decreases n,
{
    if n <= 0 {
        None
    } else if key_text(d, n - 1) == k {
        Some(n - 1)
    } else {
        last_entry_with_key(d, n - 1, k)
    }
}

/// The index of the first entry of `es`, from `j` on, whose key is `k`.
pub open spec fn entry_index(es: Seq<PsfEntry>, k: Seq<char>, j: int) -> Option<int>
    decreases es.len() - j,
{
    if j < 0 || j >= es.len() {
        None
    } else if es[j].key@ == k {
        Some(j)
    } else {
        entry_index(es, k, j + 1)
    }
}

impl Psf {
    /// The value stored under key `k`.
    pub open spec fn lookup(&self, k: Seq<char>) -> Option<PsfValue> {
        match entry_index(self.entries@, k, 0) {
            Some(i) => Some(self.entries@[i].value),
            None => None,
        }
    }

    /// No key occurs twice.
    pub open spec fn keys_unique(&self) -> bool {
        forall|a: int, b: int|
            0 <= a < b < self.entries@.len() ==> #[trigger] self.entries@[a].key@
                != #[trigger] self.entries@[b].key@
    }

    /// This value is what parsing `d` yields.
    pub open spec fn parsed_from(&self, d: Seq<u8>) -> bool {
        &&& self.version == le(d, 4, 4)
        &&& self.keys_unique()
        &&& forall|k: Seq<char>|
            match #[trigger] last_entry_with_key(d, entry_count(d), k) {
                Some(i) => self.lookup(k) matches Some(v) && value_matches(v, d, i),
                None => self.lookup(k) is None,
            }
    }
}


// ============================================================================
// Entry table bookkeeping
// ============================================================================

/// The index found for a key holds that key, and no earlier entry does.
proof fn lemma_entry_index(es: Seq<PsfEntry>, k: Seq<char>, j: int)
    requires
        0 <= j,
    ensures
        entry_index(es, k, j) matches Some(i) ==> j <= i < es.len() && es[i].key@ == k,
        entry_index(es, k, j) is None ==> forall|i: int| j <= i < es.len() ==> es[i].key@ != k,
    decreases es.len() - j,
{
    if j < es.len() && es[j].key@ != k {
        lemma_entry_index(es, k, j + 1);
    }
}

/// Two entry tables with the same keys find the same index for every key.
proof fn lemma_entry_index_same_keys(a: Seq<PsfEntry>, b: Seq<PsfEntry>, k: Seq<char>, j: int)
    requires
        a.len() == b.len(),
        forall|i: int| 0 <= i < a.len() ==> a[i].key@ == b[i].key@,
    ensures
        entry_index(a, k, j) == entry_index(b, k, j),
    decreases a.len() - j,
{
    if 0 <= j < a.len() {
        lemma_entry_index_same_keys(a, b, k, j + 1);
    }
}

/// Appending an entry keeps the index of every key already present.
proof fn lemma_entry_index_push(es: Seq<PsfEntry>, e: PsfEntry, k: Seq<char>, j: int)
    requires
        0 <= j <= es.len(),
    ensures
        entry_index(es.push(e), k, j) == (match entry_index(es, k, j) {
            Some(i) => Some(i),
            None => if e.key@ == k {
                Some(es.len() as int)
            } else {
                None
            },
        }),
    decreases es.len() - j,
{
    if j < es.len() {
        assert(es.push(e)[j] == es[j]);
        lemma_entry_index_push(es, e, k, j + 1);
    } else {
        assert(es.push(e)[j] == e);
        reveal_with_fuel(entry_index, 2);
    }
}

/// Finds the entry holding key `key`.
fn find_key(entries: &Vec<PsfEntry>, key: &str) -> (r: Option<usize>)
    ensures
        r matches Some(j) ==> entry_index(entries@, key@, 0) == Some(j as int) && j
            < entries@.len(),
        r is None ==> entry_index(entries@, key@, 0) is None,
{
    proof {
        lemma_entry_index(entries@, key@, 0);
    }
    let mut i: usize = 0;
    while i < entries.len()
        invariant
            i <= entries@.len(),
            entry_index(entries@, key@, 0) == entry_index(entries@, key@, i as int),
        decreases entries.len() - i,
    {
        if str_eq(entries[i].key.as_str(), key) {
            return Some(i);
        }
        i = i + 1;
    }
    None
}

/// Stores `value` under `key`, replacing the value of an entry with the same key.
fn insert_entry(entries: &mut Vec<PsfEntry>, key: String, value: PsfValue)
    requires
        forall|a: int, b: int|
            0 <= a < b < old(entries)@.len() ==> #[trigger] old(entries)@[a].key@
                != #[trigger] old(entries)@[b].key@,
    ensures
        forall|a: int, b: int|
            0 <= a < b < final(entries)@.len() ==> #[trigger] final(entries)@[a].key@
                != #[trigger] final(entries)@[b].key@,
        forall|k: Seq<char>|
            #![trigger entry_index(final(entries)@, k, 0)]
            match entry_index(final(entries)@, k, 0) {
                Some(i) => if k == key@ {
                    final(entries)@[i].value == value
                } else {
                    entry_index(old(entries)@, k, 0) matches Some(j) && final(entries)@[i].value
                        == old(entries)@[j].value
                },
                None => k != key@ && entry_index(old(entries)@, k, 0) is None,
            },
{
    let ghost old_es = entries@;
    let ghost kv = key@;
    let found = find_key(entries, key.as_str());
    proof {
        lemma_entry_index(old_es, kv, 0);
    }
    match found {
        Some(j) => {
            assert(entry_index(old_es, kv, 0) == Some(j as int));
            assert(old_es[j as int].key@ == kv);
            entries[j] = PsfEntry { key, value };
            proof {
                assert forall|i: int| 0 <= i < entries@.len() implies entries@[i].key@
                    == old_es[i].key@ by {
                    if i == j {
                        assert(old_es[i].key@ == kv);
                    }
                }
                assert forall|k: Seq<char>| #![trigger entry_index(entries@, k, 0)]
                    entry_index(entries@, k, 0) == entry_index(old_es, k, 0) by {
                    lemma_entry_index_same_keys(entries@, old_es, k, 0);
                }
                assert forall|k: Seq<char>|
                    #![trigger entry_index(entries@, k, 0)]
                    match entry_index(entries@, k, 0) {
                        Some(i) => if k == kv {
                            entries@[i].value == value
                        } else {
                            entry_index(old_es, k, 0) matches Some(jj) && entries@[i].value
                                == old_es[jj].value
                        },
                        None => k != kv && entry_index(old_es, k, 0) is None,
                    } by {
                    lemma_entry_index(old_es, k, 0);
                }
            }
        },
        None => {
            let ghost e = PsfEntry { key, value };
            entries.push(PsfEntry { key, value });
            proof {
                assert forall|k: Seq<char>|
                    #![trigger entry_index(entries@, k, 0)]
                    match entry_index(entries@, k, 0) {
                        Some(i) => if k == kv {
                            entries@[i].value == value
                        } else {
                            entry_index(old_es, k, 0) matches Some(jj) && entries@[i].value
                                == old_es[jj].value
                        },
                        None => k != kv && entry_index(old_es, k, 0) is None,
                    } by {
                    lemma_entry_index_push(old_es, entries@.last(), k, 0);
                    assert(entries@ == old_es.push(entries@.last()));
                    lemma_entry_index(old_es, k, 0);
                }
            }
        },
    }
}


/// The last of the first `n + 1` entries with key `k` is entry `n` when its key is `k`, and
/// otherwise the last of the first `n`.
proof fn lemma_last_entry_step(d: Seq<u8>, n: int, k: Seq<char>)
    requires
        0 <= n,
    ensures
        last_entry_with_key(d, n + 1, k) == (if key_text(d, n) == k {
            Some(n)
        } else {
            last_entry_with_key(d, n, k)
        }),
{
}

/// Reads and decodes the value of entry `i`.
fn read_value(d: &[u8], fmt: PsfEntryFormat, ds: u64, len: u32, i: Ghost<int>) -> (r: Result<
    PsfValue,
    PsfError,
>)
    requires
        format_of(format_code(d@, i@)) == Some(fmt),
        ds == data_start(d@, i@),
        len == param_len(d@, i@),
        key_start(d@, i@) < d@.len(),
        cstr_end(d@, key_start(d@, i@)) < d@.len(),
        valid_utf8(key_bytes(d@, i@)),
    ensures
        match r {
            Ok(v) => entry_error(d@, i@) is None && value_matches(v, d@, i@),
            Err(e) => entry_error(d@, i@) == Some(e),
        },
{
    let n = d.len() as u64;
    match fmt {
        PsfEntryFormat::Binary => {
            if len > 0 && (ds > n || n - ds < len as u64) {
                return Err(PsfError::Io);
            }
            let buf = if len == 0 {
                Vec::new()
            } else {
                copy_range(d, ds as usize, (ds + len as u64) as usize)
            };
            assert(buf@ =~= binary_bytes(d@, i@));
            Ok(PsfValue::Binary(buf))
        },
        PsfEntryFormat::Text => {
            let str_len: u32 = if len > 0 {
                len - 1
            } else {
                0
            };
            if str_len > 0 && (ds > n || n - ds < str_len as u64) {
                return Err(PsfError::Io);
            }
            let buf = if str_len == 0 {
                Vec::new()
            } else {
                copy_range(d, ds as usize, (ds + str_len as u64) as usize)
            };
            assert(buf@ =~= text_bytes(d@, i@));
            match string_from_utf8(buf) {
                Some(text) => Ok(PsfValue::Text(text)),
                None => Err(PsfError::InvalidUtf8),
            }
        },
        PsfEntryFormat::Integer => {
            if ds > n || n - ds < 4 {
                return Err(PsfError::Io);
            }
            Ok(PsfValue::Integer(read_i32_le(d, ds as usize)))
        },
    }
}

impl Psf {
    /// Parses a PSF file from its bytes.
    pub fn parse(data: &[u8]) -> (r: Result<Psf, PsfError>)
        ensures
            match r {
                Ok(p) => psf_error(data@) is None && p.parsed_from(data@),
                Err(e) => psf_error(data@) == Some(e),
            },
    {
        let ghost d = data@;
        let n = data.len();
        if n < 4 {
            return Err(PsfError::Io);
        }
        let magic = read_u32_le(data, 0);
        let swapped = ((magic & 0xFF) << 24) | ((magic & 0xFF00) << 8) | ((magic >> 8) & 0xFF00) | (
        magic >> 24);
        if magic != PSF_MAGIC && swapped != PSF_MAGIC {
            return Err(PsfError::InvalidMagic(magic));
        }
        if n < 20 {
            return Err(PsfError::Io);
        }
        let version = read_u32_le(data, 4);
        let key_table = read_u32_le(data, 8);
        let data_table = read_u32_le(data, 12);
        let count = read_u32_le(data, 16);
        if (n as u64) < 20 + 16 * (count as u64) {
            return Err(PsfError::Io);
        }
        let mut entries: Vec<PsfEntry> = Vec::new();
        let mut i: u32 = 0;
        while i < count
            invariant
                d == data@,
                n == data@.len(),
                psf_header_error(d) is None,
                count == entry_count(d),
                key_table == key_table_offset(d),
                data_table == data_table_offset(d),
                version == le(d, 4, 4),
                i <= count,
                first_entry_error(d, count as int, 0) == first_entry_error(d, count as int, i as int),
                forall|a: int, b: int|
                    0 <= a < b < entries@.len() ==> #[trigger] entries@[a].key@
                        != #[trigger] entries@[b].key@,
                forall|k: Seq<char>|
                    match #[trigger] last_entry_with_key(d, i as int, k) {
                        Some(j) => entry_index(entries@, k, 0) matches Some(x) && value_matches(
                            entries@[x].value,
                            d,
                            j,
                        ),
                        None => entry_index(entries@, k, 0) is None,
                    },
            decreases count - i,
        {
            let o = 20 + 16 * (i as usize);
            let key_offset = read_u16_le(data, o);
            let param_fmt = read_u16_le(data, o + 2);
            let param_len = read_u32_le(data, o + 4);
            let data_offset = read_u32_le(data, o + 12);
            proof {
                crate::bytes::lemma_pow256_values();
                crate::bytes::lemma_le_bound(d, o + 2, 2);
            }
            // The key, up to its terminator.
            let ks = (key_table as u64) + (key_offset as u64);
            if ks >= n as u64 {
                return Err(PsfError::Io);
            }
            let end = find_cstr_end(data, ks as usize);
            if end >= n {
                return Err(PsfError::Io);
            }
            let key_bytes_vec = copy_range(data, ks as usize, end);
            let key = match string_from_utf8(key_bytes_vec) {
                Some(k) => k,
                None => {
                    return Err(PsfError::InvalidUtf8);
                },
            };
            // The value.
            let ds = (data_table as u64) + (data_offset as u64);
            let fmt = match PsfEntryFormat::from_u16(param_fmt) {
                Some(f) => f,
                None => {
                    return Err(PsfError::UnknownFormat(param_fmt));
                },
            };
            let value = match read_value(data, fmt, ds, param_len, Ghost(i as int)) {
                Ok(v) => v,
                Err(e) => {
                    return Err(e);
                },
            };
            let ghost kv = key@;
            assert(kv == key_text(d, i as int));
            let ghost old_es = entries@;
            insert_entry(&mut entries, key, value);
            proof {
                assert forall|k: Seq<char>|
                    match #[trigger] last_entry_with_key(d, i + 1, k) {
                        Some(j) => entry_index(entries@, k, 0) matches Some(x) && value_matches(
                            entries@[x].value,
                            d,
                            j,
                        ),
                        None => entry_index(entries@, k, 0) is None,
                    } by {
                    lemma_last_entry_step(d, i as int, k);
                    if k != kv {
                        assert(last_entry_with_key(d, i as int, k) == last_entry_with_key(
                            d,
                            i + 1,
                            k,
                        ));
                    }
                }
            }
            i = i + 1;
        }
        let psf = Psf { version, entries };
        proof {
            assert forall|k: Seq<char>|
                match #[trigger] last_entry_with_key(d, entry_count(d), k) {
                    Some(j) => psf.lookup(k) matches Some(v) && value_matches(v, d, j),
                    None => psf.lookup(k) is None,
                } by {
                assert(last_entry_with_key(d, i as int, k) == last_entry_with_key(
                    d,
                    entry_count(d),
                    k,
                ));
            }
        }
        Ok(psf)
    }
}


/// The text stored under `k`, if the entry is text.
pub open spec fn text_of(v: Option<PsfValue>) -> Option<Seq<char>> {
    match v {
        Some(PsfValue::Text(s)) => Some(s@),
        _ => None,
    }
}

/// The integer stored under `k`, if the entry is an integer.
pub open spec fn integer_of(v: Option<PsfValue>) -> Option<i32> {
    match v {
        Some(PsfValue::Integer(x)) => Some(x),
        _ => None,
    }
}

impl Psf {
    /// A string entry by key.
    pub fn get_string(&self, key: &str) -> (r: Option<&str>)
        ensures
            r matches Some(s) ==> text_of(self.lookup(key@)) == Some(s@),
            r is None ==> text_of(self.lookup(key@)) is None,
    {
        match find_key(&self.entries, key) {
            Some(j) => self.entries[j].value.as_str(),
            None => None,
        }
    }

    /// An integer entry by key.
    pub fn get_integer(&self, key: &str) -> (r: Option<i32>)
        ensures
            r == integer_of(self.lookup(key@)),
    {
        match find_key(&self.entries, key) {
            Some(j) => self.entries[j].value.as_integer(),
            None => None,
        }
    }

    /// The game title ("TITLE").
    pub fn title(&self) -> (r: Option<&str>)
        ensures
            r matches Some(s) ==> text_of(self.lookup("TITLE"@)) == Some(s@),
            r is None ==> text_of(self.lookup("TITLE"@)) is None,
    {
        self.get_string("TITLE")
    }

    /// The title ID, e.g. "CUSA00001" ("TITLE_ID").
    pub fn title_id(&self) -> (r: Option<&str>)
        ensures
            r matches Some(s) ==> text_of(self.lookup("TITLE_ID"@)) == Some(s@),
            r is None ==> text_of(self.lookup("TITLE_ID"@)) is None,
    {
        self.get_string("TITLE_ID")
    }

    /// The content ID ("CONTENT_ID").
    pub fn content_id(&self) -> (r: Option<&str>)
        ensures
            r matches Some(s) ==> text_of(self.lookup("CONTENT_ID"@)) == Some(s@),
            r is None ==> text_of(self.lookup("CONTENT_ID"@)) is None,
    {
        self.get_string("CONTENT_ID")
    }

    /// The application version string ("APP_VER").
    pub fn app_version(&self) -> (r: Option<&str>)
        ensures
            r matches Some(s) ==> text_of(self.lookup("APP_VER"@)) == Some(s@),
            r is None ==> text_of(self.lookup("APP_VER"@)) is None,
    {
        self.get_string("APP_VER")
    }

    /// The category, e.g. "gd" for game data ("CATEGORY").
    pub fn category(&self) -> (r: Option<&str>)
        ensures
            r matches Some(s) ==> text_of(self.lookup("CATEGORY"@)) == Some(s@),
            r is None ==> text_of(self.lookup("CATEGORY"@)) is None,
    {
        self.get_string("CATEGORY")
    }
}

} // verus!
