//! Little-endian decoding of fixed-width integers from byte buffers.
use vstd::prelude::*;

verus! {

/// The unsigned value of the `n` bytes of `d` starting at `o`, least significant first.
pub open spec fn le(d: Seq<u8>, o: int, n: nat) -> nat
    decreases n,
{
    if n == 0 {
        0
    } else {
        (d[o] as nat) + 256 * le(d, o + 1, (n - 1) as nat)
    }
}

/// `256` to the power `n`.
pub open spec fn pow256(n: nat) -> nat
    decreases n,
{
    if n == 0 {
        1
    } else {
        256 * pow256((n - 1) as nat)
    }
}

/// A little-endian value of `n` bytes is below `256^n`.
pub proof fn lemma_le_bound(d: Seq<u8>, o: int, n: nat)
    ensures
        le(d, o, n) < pow256(n),
    decreases n,
{
    if n > 0 {
        lemma_le_bound(d, o + 1, (n - 1) as nat);
    }
}

/// The powers of 256 up to eight bytes.
pub proof fn lemma_pow256_values()
    ensures
        pow256(1) == 0x100,
        pow256(2) == 0x1_0000,
        pow256(4) == 0x1_0000_0000,
        pow256(8) == 0x1_0000_0000_0000_0000,
{
    reveal_with_fuel(pow256, 9);
}

/// Reading from a suffix of a buffer reads the same bytes further along the whole buffer.
pub proof fn lemma_le_suffix(d: Seq<u8>, k: int, o: int, n: nat)
    requires
        0 <= k <= d.len(),
        0 <= o,
        k + o + n <= d.len(),
    ensures
        le(d.subrange(k, d.len() as int), o, n) == le(d, k + o, n),
    decreases n,
{
    if n > 0 {
        lemma_le_suffix(d, k, o + 1, (n - 1) as nat);
    }
}

/// Reads the `n`-byte little-endian unsigned integer at offset `o` of `d`.
pub fn read_le(d: &[u8], o: usize, n: usize) -> (r: u64)
    requires
        n <= 8,
        o + n <= d@.len(),
    ensures
        r == le(d@, o as int, n as nat),
{
    let mut v: u64 = 0;
    let mut k: usize = n;
    proof {
        lemma_pow256_values();
    }
    while k > 0
        invariant
            k <= n <= 8,
            o + n <= d.len(),
            v == le(d@, (o + k) as int, (n - k) as nat),
            v < pow256((n - k) as nat),
            pow256(8) == 0x1_0000_0000_0000_0000,
        decreases k,
    {
        k = k - 1;
        proof {
            lemma_le_bound(d@, (o + k + 1) as int, (n - k - 1) as nat);
            assert(pow256((n - k) as nat) == 256 * pow256((n - k - 1) as nat));
            lemma_pow256_mono((n - k) as nat, 8);
        }
        v = (d[o + k] as u64) + 256 * v;
    }
    v
}

/// Powers of 256 grow with the exponent.
pub proof fn lemma_pow256_mono(a: nat, b: nat)
    requires
        a <= b,
    ensures
        pow256(a) <= pow256(b),
    decreases b,
{
    if a < b {
        lemma_pow256_mono(a, (b - 1) as nat);
    }
}

/// Reads a little-endian `u16` at offset `o`.
pub fn read_u16_le(d: &[u8], o: usize) -> (r: u16)
    requires
        o + 2 <= d@.len(),
    ensures
        r == le(d@, o as int, 2),
{
    proof {
        lemma_le_bound(d@, o as int, 2);
        lemma_pow256_values();
    }
    read_le(d, o, 2) as u16
}

/// Reads a little-endian `u32` at offset `o`.
pub fn read_u32_le(d: &[u8], o: usize) -> (r: u32)
    requires
        o + 4 <= d@.len(),
    ensures
        r == le(d@, o as int, 4),
{
    proof {
        lemma_le_bound(d@, o as int, 4);
        lemma_pow256_values();
    }
    read_le(d, o, 4) as u32
}

/// Reads a little-endian `u64` at offset `o`.
pub fn read_u64_le(d: &[u8], o: usize) -> (r: u64)
    requires
        o + 8 <= d@.len(),
    ensures
        r == le(d@, o as int, 8),
{
    read_le(d, o, 8)
}

/// Reads a little-endian two's-complement `i64` at offset `o`.
pub fn read_i64_le(d: &[u8], o: usize) -> (r: i64)
    requires
        o + 8 <= d@.len(),
    ensures
        r == (le(d@, o as int, 8) as u64) as i64,
{
    read_le(d, o, 8) as i64
}

/// Reads a little-endian two's-complement `i32` at offset `o`.
pub fn read_i32_le(d: &[u8], o: usize) -> (r: i32)
    requires
        o + 4 <= d@.len(),
    ensures
        r == (le(d@, o as int, 4) as u32) as i32,
{
    read_u32_le(d, o) as i32
}

} // verus!
