//! Address arithmetic shared by the memory subsystems.
use vstd::prelude::*;
use vstd::arithmetic::power2::pow2;

verus! {

/// Virtual address in the guest address space.
pub type VAddr = u64;

/// Physical (direct memory) address.
pub type PAddr = u64;

/// Page size used by the guest kernel (16 KiB).
pub const PAGE_SIZE: u64 = 16384;

/// Page size mask.
pub const PAGE_MASK: u64 = 16383;

/// One past the highest GPU-addressable virtual address: the GPU addresses 40 bits.
pub const MAX_GPU_ADDRESS: VAddr = 0x100_0000_0000;

/// Default base address for memory mappings.
pub const DEFAULT_MAPPING_BASE: VAddr = 0x2_0000_0000;

/// Size of the system-managed virtual memory region (512 MiB).
pub const SYSTEM_MANAGED_SIZE: u64 = 536870912;

/// Size of the system-reserved virtual memory region (3232 MiB).
pub const SYSTEM_RESERVED_SIZE: u64 = 3388997632;

/// Size of the user virtual memory region (128 GiB).
pub const USER_SIZE: u64 = 137438953472;

/// Is `a` a power of two that fits in 64 bits?
pub open spec fn is_pow2(a: u64) -> bool {
    exists|n: nat| n < 64 && pow2(n) == a
}

/// The smallest multiple of `a` that is at least `v`.
pub open spec fn round_up(v: int, a: int) -> int {
    ((v + a - 1) / a) * a
}

/// The largest multiple of `a` that is at most `v`.
pub open spec fn round_down(v: int, a: int) -> int {
    (v / a) * a
}

/// Keeping the bits below a power of two is taking the remainder by it.
pub proof fn lemma_low_mask_is_mod(x: u64, a: u64)
    requires
        is_pow2(a),
    ensures
        a > 0,
        x & ((a - 1) as u64) == x % a,
{
    let n = choose|n: nat| n < 64 && pow2(n) == a;
    vstd::arithmetic::power2::lemma_pow2_pos(n);
    vstd::bits::lemma_u64_low_bits_mask_is_mod(x, n);
}

/// Clearing the bits below a power of two rounds down to a multiple of it.
pub proof fn lemma_mask_rounds_down(x: u64, a: u64)
    requires
        is_pow2(a),
    ensures
        x & !((a - 1) as u64) == round_down(x as int, a as int),
{
    lemma_low_mask_is_mod(x, a);
    let m = (a - 1) as u64;
    assert(x & !m == x - (x & m)) by (bit_vector);
    assert(x & m <= x) by (bit_vector);
    assert(x - x % a == (x / a) * a) by (nonlinear_arith)
        requires a != 0;
}

/// `value` aligned up by the bit-mask formula.
pub open spec fn align_up_spec(value: u64, alignment: u64) -> u64 {
    ((value + (alignment - 1)) as u64) & !((alignment - 1) as u64)
}

/// Aligns a value up to the given alignment (the bit-mask formula).
pub fn align_up(value: u64, alignment: u64) -> (r: u64)
    requires
        alignment >= 1,
        value + (alignment - 1) <= u64::MAX,
    ensures
        r == align_up_spec(value, alignment),
        is_pow2(alignment) ==> r == round_up(value as int, alignment as int),
{
    let mask = alignment - 1;
    let r = (value + mask) & !mask;
    proof {
        if is_pow2(alignment) {
            lemma_mask_rounds_down((value + mask) as u64, alignment);
        }
    }
    r
}

/// Aligns a value down to the given alignment (the bit-mask formula).
pub fn align_down(value: u64, alignment: u64) -> (r: u64)
    requires
        alignment >= 1,
    ensures
        r == value & !((alignment - 1) as u64),
        is_pow2(alignment) ==> r == round_down(value as int, alignment as int),
{
    let r = value & !(alignment - 1);
    proof {
        if is_pow2(alignment) {
            lemma_mask_rounds_down(value, alignment);
        }
    }
    r
}

/// Checks if a value is aligned to the given alignment (the bit-mask formula).
pub fn is_aligned(value: u64, alignment: u64) -> (r: bool)
    requires
        alignment >= 1,
    ensures
        r == ((value & ((alignment - 1) as u64)) == 0),
        is_pow2(alignment) ==> (r <==> value % alignment == 0),
{
    proof {
        if is_pow2(alignment) {
            lemma_low_mask_is_mod(value, alignment);
        }
    }
    (value & (alignment - 1)) == 0
}

/// The page size is a power of two.
pub proof fn lemma_page_size_pow2()
    ensures
        is_pow2(PAGE_SIZE),
{
    vstd::arithmetic::power2::lemma2_to64();
    assert(pow2(14) == PAGE_SIZE);
}

/// 1 KiB.
pub const KB: u64 = 1024;

/// 1 MiB.
pub const MB: u64 = 1048576;

/// 1 GiB.
pub const GB: u64 = 1073741824;

/// The largest power of two below which every integer is exact in a 64-bit float (2^53).
pub const F64_EXACT: u64 = 9007199254740992;

/// 2 to the power `p`.
pub open spec fn two_pow(p: nat) -> nat
    decreases p,
{
    if p == 0 {
        1
    } else {
        2 * two_pow((p - 1) as nat)
    }
}

/// `n / 2^p`, rounded to the nearest integer, ties to even.
pub open spec fn rne_div(n: nat, p: nat) -> nat {
    let d = two_pow(p);
    let q = n / d;
    let r = n % d;
    if p == 0 {
        n
    } else if r * 2 > d || (r * 2 == d && q % 2 == 1) {
        q + 1
    } else {
        q
    }
}

/// The least shift from `s` on that brings `b` below 2^53.
pub open spec fn f64_shift(b: nat, s: nat) -> nat
    decreases 64 - s,
{
    if s >= 64 || b / two_pow(s) < F64_EXACT {
        s
    } else {
        f64_shift(b, s + 1)
    }
}

/// The decimal digit `d` as a character.
pub open spec fn digit_char(d: nat) -> char {
    (d + 48) as char
}

/// The decimal notation of `n`.
pub open spec fn decimal(n: nat) -> Seq<char>
    decreases n,
{
    if n < 10 {
        seq![digit_char(n)]
    } else {
        decimal(n / 10).push(digit_char(n % 10))
    }
}

/// A number of hundredths `h` written with two decimals, then `unit`.
pub open spec fn with_unit(h: nat, unit: Seq<char>) -> Seq<char> {
    decimal(h / 100) + seq!['.'] + seq![digit_char((h % 100) / 10), digit_char(h % 10)] + unit
}

/// The hundredths of `b` bytes in GiB, as a 64-bit float holds the byte count (rounded to 53
/// significant bits, ties to even) and as two-decimal formatting rounds it (ties to even).
pub open spec fn gb_hundredths(b: nat) -> nat {
    let s = f64_shift(b, 0);
    rne_div(rne_div(b, s) * 100, (30 - s) as nat)
}

/// A byte count for humans: bytes below 1 KiB, else KiB, MiB or GiB with two decimals.
pub open spec fn format_size_spec(b: u64) -> Seq<char> {
    if b >= GB {
        with_unit(gb_hundredths(b as nat), seq![' ', 'G', 'B'])
    } else if b >= MB {
        with_unit(rne_div((b * 100) as nat, 20), seq![' ', 'M', 'B'])
    } else if b >= KB {
        with_unit(rne_div((b * 100) as nat, 10), seq![' ', 'K', 'B'])
    } else {
        decimal(b as nat) + seq![' ', 'B']
    }
}

proof fn lemma_two_pow_bound(p: nat)
    requires
        p <= 63,
    ensures
        1 <= two_pow(p) <= two_pow(63),
        two_pow(63) == 0x8000_0000_0000_0000,
    decreases 63 - p,
{
    if p < 63 {
        lemma_two_pow_bound(p + 1);
    }
    assert(two_pow(63) == 0x8000_0000_0000_0000) by {
        reveal_with_fuel(two_pow, 64);
    }
}

/// 2 to the power `p`.
fn two_pow_exec(p: u64) -> (r: u64)
    requires
        p < 64,
    ensures
        r == two_pow(p as nat),
        r >= 1,
{
    proof {
        lemma_two_pow_bound(p as nat);
    }
    let mut r: u64 = 1;
    let mut i: u64 = 0;
    while i < p
        invariant
            i <= p < 64,
            r == two_pow(i as nat),
        decreases p - i,
    {
        proof {
            lemma_two_pow_bound((i + 1) as nat);
        }
        r = r * 2;
        i = i + 1;
    }
    r
}

/// `n / 2^p`, rounded to the nearest integer, ties to even.
fn rne_div_exec(n: u64, p: u64) -> (r: u64)
    requires
        p < 64,
    ensures
        r == rne_div(n as nat, p as nat),
{
    if p == 0 {
        return n;
    }
    proof {
        lemma_two_pow_bound(p as nat);
        lemma_two_pow_bound((p - 1) as nat);
    }
    let d = two_pow_exec(p);
    let q = n / d;
    let rem = n % d;
    assert(q <= n / 2) by (nonlinear_arith)
        requires
            d >= 2,
            q == n / d,
    ;
    if rem * 2 > d || (rem * 2 == d && q % 2 == 1) {
        q + 1
    } else {
        q
    }
}

/// The decimal digit `d` as a one-character string.
fn digit_str(d: u64) -> (r: &'static str)
    requires
        d < 10,
    ensures
        r@ == seq![digit_char(d as nat)],
{
    proof {
        reveal_strlit("0");
        reveal_strlit("1");
        reveal_strlit("2");
        reveal_strlit("3");
        reveal_strlit("4");
        reveal_strlit("5");
        reveal_strlit("6");
        reveal_strlit("7");
        reveal_strlit("8");
        reveal_strlit("9");
    }
    if d == 0 {
        "0"
    } else if d == 1 {
        "1"
    } else if d == 2 {
        "2"
    } else if d == 3 {
        "3"
    } else if d == 4 {
        "4"
    } else if d == 5 {
        "5"
    } else if d == 6 {
        "6"
    } else if d == 7 {
        "7"
    } else if d == 8 {
        "8"
    } else {
        "9"
    }
}

/// Appends the decimal notation of `n`.
fn append_decimal(s: &mut String, n: u64)
    ensures
        final(s)@ == old(s)@ + decimal(n as nat),
    decreases n,
{
    if n >= 10 {
        append_decimal(s, n / 10);
    }
    s.append(digit_str(n % 10));
    proof {
        if n >= 10 {
            assert(old(s)@ + decimal((n / 10) as nat) + seq![digit_char((n % 10) as nat)] =~= old(
                s,
            )@ + decimal(n as nat));
        } else {
            assert(decimal(n as nat) == seq![digit_char(n as nat)]);
        }
    }
}

/// Appends hundredths `h` with two decimals.
fn append_hundredths(s: &mut String, h: u64)
    ensures
        final(s)@ == old(s)@ + decimal((h / 100) as nat) + seq!['.'] + seq![
            digit_char(((h % 100) / 10) as nat),
            digit_char((h % 10) as nat),
        ],
{
    proof {
        reveal_strlit(".");
    }
    append_decimal(s, h / 100);
    s.append(".");
    s.append(digit_str((h % 100) / 10));
    s.append(digit_str(h % 10));
    proof {
        assert(((h % 100) % 10) == h % 10) by (nonlinear_arith);
    }
}

/// Human-readable size: bytes below 1 KiB (`512 B`), else KiB, MiB or GiB with two decimals
/// (`1.00 KB`, `1.50 MB`), rounded as a 64-bit float division formatted with two decimals.
pub fn format_size(bytes: u64) -> (r: String)
    ensures
        r@ == format_size_spec(bytes),
{
    proof {
        reveal_strlit(" GB");
        reveal_strlit(" MB");
        reveal_strlit(" KB");
        reveal_strlit(" B");
    }
    let mut out = String::new();
    if bytes >= GB {
        // The shift that brings the count below 2^53 is at most 11.
        let mut s: u64 = 0;
        proof {
            lemma_two_pow_bound(11);
            assert(two_pow(11) == 2048) by {
                reveal_with_fuel(two_pow, 12);
            }
        }
        while s < 11 && bytes / two_pow_exec(s) >= F64_EXACT
            invariant
                s <= 11,
                f64_shift(bytes as nat, s as nat) == f64_shift(bytes as nat, 0),
                two_pow(11) == 2048,
            decreases 11 - s,
        {
            s = s + 1;
        }
        proof {
            if s == 11 {
                assert(bytes as nat / two_pow(11) < F64_EXACT);
            }
            lemma_two_pow_bound(s as nat);
        }
        assert(bytes as nat / two_pow(s as nat) < F64_EXACT);
        let m = rne_div_exec(bytes, s);
        assert(m <= F64_EXACT) by {
            let d = two_pow(s as nat);
            if s == 0 {
                assert(d == 1);
                assert(bytes as nat / 1 == bytes);
            } else {
                assert(bytes as nat / d < F64_EXACT);
            }
        }
        let h = rne_div_exec(m * 100, 30 - s);
        append_hundredths(&mut out, h);
        out.append(" GB");
    } else if bytes >= MB {
        let h = rne_div_exec(bytes * 100, 20);
        append_hundredths(&mut out, h);
        out.append(" MB");
    } else if bytes >= KB {
        let h = rne_div_exec(bytes * 100, 10);
        append_hundredths(&mut out, h);
        out.append(" KB");
    } else {
        append_decimal(&mut out, bytes);
        out.append(" B");
    }
    out
}

} // verus!
