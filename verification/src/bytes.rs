//! Big-endian integers in byte sequences.
use vstd::arithmetic::div_mod::{lemma_div_denominator, lemma_fundamental_div_mod};
use vstd::prelude::*;

verus! {

/// `x` as two bytes, the high one first.
pub open spec fn be16(x: int) -> Seq<u8> {
    seq![(x / 256) as u8, (x % 256) as u8]
}

/// `x` as four bytes, the highest first.
pub open spec fn be32(x: int) -> Seq<u8> {
    seq![
        (x / 0x100_0000) as u8,
        ((x / 0x1_0000) % 256) as u8,
        ((x / 256) % 256) as u8,
        (x % 256) as u8,
    ]
}

/// The two-byte integer at `i`.
pub open spec fn get16(s: Seq<u8>, i: int) -> int {
    s[i] as int * 256 + s[i + 1] as int
}

/// The four-byte integer at `i`.
pub open spec fn get32(s: Seq<u8>, i: int) -> int {
    get16(s, i) * 0x1_0000 + get16(s, i + 2)
}

/// `x` as sixteen bytes, the highest first.
pub open spec fn be128(x: int) -> Seq<u8> {
    be32(x / 0x1_0000_0000_0000_0000_0000_0000) + be32(
        (x / 0x1_0000_0000_0000_0000) % 0x1_0000_0000,
    ) + be32((x / 0x1_0000_0000) % 0x1_0000_0000) + be32(x % 0x1_0000_0000)
}

/// The sixteen-byte integer at `i`.
pub open spec fn get128(s: Seq<u8>, i: int) -> int {
    ((get32(s, i) * 0x1_0000_0000 + get32(s, i + 4)) * 0x1_0000_0000 + get32(s, i + 8))
        * 0x1_0000_0000 + get32(s, i + 12)
}

/// What the bytes of `b` stand for at `i` stays the same inside a longer
/// sequence.
pub proof fn get32_shift(s: Seq<u8>, i: int, from: int, to: int)
    requires
        0 <= from <= i,
        i + 4 <= to <= s.len(),
    ensures
        get32(s.subrange(from, to), i - from) == get32(s, i),
{
}

/// Reading what `be128` wrote gives the integer back.
pub proof fn be128_reads_back(x: int)
    requires
        0 <= x <= u128::MAX,
    ensures
        be128(x).len() == 16,
        get128(be128(x), 0) == x,
{
    let w = 0x1_0000_0000int;
    let a = x / 0x1_0000_0000_0000_0000_0000_0000;
    let b = (x / 0x1_0000_0000_0000_0000) % w;
    let c = (x / w) % w;
    let d = x % w;
    let s = be128(x);
    assert(a <= 0xffff_ffff) by {
        lemma_fundamental_div_mod(x, 0x1_0000_0000_0000_0000_0000_0000);
    }
    assert(get32(s, 0) == a) by {
        be32_reads_back(a);
        assert(s.subrange(0, 4) =~= be32(a));
        get32_shift(s, 0, 0, 4);
    }
    assert(get32(s, 4) == b) by {
        be32_reads_back(b);
        assert(s.subrange(4, 8) =~= be32(b));
        get32_shift(s, 4, 4, 8);
    }
    assert(get32(s, 8) == c) by {
        be32_reads_back(c);
        assert(s.subrange(8, 12) =~= be32(c));
        get32_shift(s, 8, 8, 12);
    }
    assert(get32(s, 12) == d) by {
        be32_reads_back(d);
        assert(s.subrange(12, 16) =~= be32(d));
        get32_shift(s, 12, 12, 16);
    }
    assert(((a * w + b) * w + c) * w + d == x) by {
        lemma_fundamental_div_mod(x, w);
        lemma_fundamental_div_mod(x / w, w);
        lemma_fundamental_div_mod(x / w / w, w);
        lemma_div_denominator(x, w, w);
        lemma_div_denominator(x, 0x1_0000_0000_0000_0000, w);
    }
}

/// Reading what `be16` wrote gives the integer back.
pub proof fn be16_reads_back(x: int)
    requires
        0 <= x <= 0xffff,
    ensures
        be16(x).len() == 2,
        get16(be16(x), 0) == x,
{
}

/// Reading what `be32` wrote gives the integer back.
pub proof fn be32_reads_back(x: int)
    requires
        0 <= x <= 0xffff_ffff,
    ensures
        be32(x).len() == 4,
        get32(be32(x), 0) == x,
{
    assert(x == (x / 0x100_0000) * 0x100_0000 + ((x / 0x1_0000) % 256) * 0x1_0000 + ((x / 256)
        % 256) * 256 + x % 256);
}

/// Appends `x` as two bytes.
pub fn push16(v: &mut Vec<u8>, x: u16)
    ensures
        final(v)@ == old(v)@ + be16(x as int),
{
    v.push((x / 256) as u8);
    v.push((x % 256) as u8);
    assert(v@ =~= old(v)@ + be16(x as int));
}

/// Appends `x` as four bytes.
pub fn push32(v: &mut Vec<u8>, x: u32)
    ensures
        final(v)@ == old(v)@ + be32(x as int),
{
    v.push((x / 0x100_0000) as u8);
    v.push(((x / 0x1_0000) % 256) as u8);
    v.push(((x / 256) % 256) as u8);
    v.push((x % 256) as u8);
    assert(v@ =~= old(v)@ + be32(x as int));
}

/// Appends `x` as sixteen bytes.
pub fn push128(v: &mut Vec<u8>, x: u128)
    ensures
        final(v)@ == old(v)@ + be128(x as int),
{
    push32(v, (x / 0x1_0000_0000_0000_0000_0000_0000) as u32);
    push32(v, ((x / 0x1_0000_0000_0000_0000) % 0x1_0000_0000) as u32);
    push32(v, ((x / 0x1_0000_0000) % 0x1_0000_0000) as u32);
    push32(v, (x % 0x1_0000_0000) as u32);
    assert(v@ =~= old(v)@ + be128(x as int));
}

/// The sixteen-byte integer at `i`.
pub fn read128(s: &[u8], i: usize) -> (r: u128)
    requires
        i + 16 <= s.len(),
    ensures
        r as int == get128(s@, i as int),
{
    let hi: u64 = read32(s, i) as u64 * 0x1_0000_0000 + read32(s, i + 4) as u64;
    let lo: u64 = read32(s, i + 8) as u64 * 0x1_0000_0000 + read32(s, i + 12) as u64;
    hi as u128 * 0x1_0000_0000_0000_0000 + lo as u128
}

/// Appends the bytes `from..to` of `s`.
pub fn push_range(v: &mut Vec<u8>, s: &[u8], from: usize, to: usize)
    requires
        from <= to <= s.len(),
    ensures
        final(v)@ == old(v)@ + s@.subrange(from as int, to as int),
{
    let ghost before = v@;
    let mut i: usize = from;
    while i < to
        invariant
            from <= i <= to <= s.len(),
            v@ == before + s@.subrange(from as int, i as int),
        decreases to - i,
    {
        v.push(s[i]);
        assert(v@ =~= before + s@.subrange(from as int, i as int + 1));
        i += 1;
    }
}

/// The two-byte integer at `i`.
pub fn read16(s: &[u8], i: usize) -> (r: u16)
    requires
        i + 2 <= s.len(),
    ensures
        r as int == get16(s@, i as int),
{
    s[i] as u16 * 256 + s[i + 1] as u16
}

/// The four-byte integer at `i`.
pub fn read32(s: &[u8], i: usize) -> (r: u32)
    requires
        i + 4 <= s.len(),
    ensures
        r as int == get32(s@, i as int),
{
    read16(s, i) as u32 * 0x1_0000 + read16(s, i + 2) as u32
}

/// Whether the bytes are equal.
pub fn bytes_eq(a: &[u8], b: &[u8]) -> (r: bool)
    ensures
        r == (a@ == b@),
{
    if a.len() != b.len() {
        return false;
    }
    let mut i: usize = 0;
    while i < a.len()
        invariant
            i <= a.len() == b.len(),
            forall|j: int| 0 <= j < i ==> a@[j] == b@[j],
        decreases a.len() - i,
    {
        if a[i] != b[i] {
            return false;
        }
        i += 1;
    }
    assert(a@ =~= b@);
    true
}

// ── what the bytes stand for ─────────────────────────────────────────

/// The number that the bytes from `from` to `to` stand for: each byte counts
/// 256 times as much as the one after it.
pub open spec fn big_endian(s: Seq<u8>, from: int, to: int) -> int
    decreases to - from,
{
    if to <= from {
        0
    } else {
        big_endian(s, from, to - 1) * 256 + s[to - 1]
    }
}

/// Reading takes the number that the bytes stand for.
pub proof fn reading_is_big_endian(s: Seq<u8>, i: int)
    ensures
        get16(s, i) == big_endian(s, i, i + 2),
        get32(s, i) == big_endian(s, i, i + 4),
        get128(s, i) == big_endian(s, i, i + 16),
{
    reveal_with_fuel(big_endian, 17);
}

/// The bytes that are written stand for the number.
pub proof fn writing_is_big_endian(x: int)
    ensures
        0 <= x <= 0xffff ==> be16(x).len() == 2 && big_endian(be16(x), 0, 2) == x,
        0 <= x <= 0xffff_ffff ==> be32(x).len() == 4 && big_endian(be32(x), 0, 4) == x,
        0 <= x <= u128::MAX ==> be128(x).len() == 16 && big_endian(be128(x), 0, 16) == x,
{
    if 0 <= x <= 0xffff {
        be16_reads_back(x);
        reading_is_big_endian(be16(x), 0);
    }
    if 0 <= x <= 0xffff_ffff {
        be32_reads_back(x);
        reading_is_big_endian(be32(x), 0);
    }
    if 0 <= x <= u128::MAX {
        be128_reads_back(x);
        reading_is_big_endian(be128(x), 0);
    }
}

/// The same bytes stand for the same number wherever they are.
pub proof fn same_bytes_same_number(s: Seq<u8>, i: int, t: Seq<u8>, j: int, n: int)
    requires
        forall|k: int| 0 <= k < n ==> #[trigger] s[i + k] == t[j + k],
    ensures
        big_endian(s, i, i + n) == big_endian(t, j, j + n),
    decreases n,
{
    if n > 0 {
        same_bytes_same_number(s, i, t, j, n - 1);
        assert(s[i + (n - 1)] == t[j + (n - 1)]);
    }
}

/// Bytes that stand for the same number are the same.
pub proof fn same_number_same_bytes(s: Seq<u8>, i: int, t: Seq<u8>, j: int, n: int, k: int)
    requires
        big_endian(s, i, i + n) == big_endian(t, j, j + n),
        0 <= k < n,
    ensures
        s[i + k] == t[j + k],
    decreases n,
{
    let (a, b) = (big_endian(s, i, i + n - 1), big_endian(t, j, j + n - 1));
    let (x, y) = (s[i + n - 1], t[j + n - 1]);
    assert(a * 256 + x == b * 256 + y);
    assert(a == b && x == y);
    if k < n - 1 {
        same_number_same_bytes(s, i, t, j, n - 1, k);
    }
}

} // verus!
