//! Fixed-width integers and the byte strings that carry them.
//!
//! Network headers are big-endian, driver structures little-endian. Both are
//! described here over mathematical integers, together with the readers and
//! writers the packet code needs.

use vstd::prelude::*;

verus! {

/// The number of values `n` bytes can hold.
pub open spec fn pow256(n: nat) -> nat
    decreases n,
{
    if n == 0 {
        1
    } else {
        256 * pow256((n - 1) as nat)
    }
}

/// The unsigned integer a byte string denotes, most significant byte first.
pub open spec fn be_value(s: Seq<u8>) -> nat
    decreases s.len(),
{
    if s.len() == 0 {
        0
    } else {
        be_value(s.drop_last()) * 256 + s.last() as nat
    }
}

/// The `n` low-order bytes of `v`, most significant byte first.
pub open spec fn be_bytes(v: nat, n: nat) -> Seq<u8>
    decreases n,
{
    if n == 0 {
        Seq::<u8>::empty()
    } else {
        be_bytes(v / 256, (n - 1) as nat).push((v % 256) as u8)
    }
}

/// The 16-bit big-endian field at `at`.
pub open spec fn be16(s: Seq<u8>, at: int) -> u16 {
    (s[at] as int * 256 + s[at + 1] as int) as u16
}

/// The 32-bit big-endian field at `at`.
pub open spec fn be32(s: Seq<u8>, at: int) -> u32 {
    (s[at] as int * 16777216 + s[at + 1] as int * 65536 + s[at + 2] as int * 256 + s[at
        + 3] as int) as u32
}

/// The 16-bit little-endian field at `at`.
pub open spec fn le16(s: Seq<u8>, at: int) -> u16 {
    (s[at] as int + s[at + 1] as int * 256) as u16
}

/// The 32-bit little-endian field at `at`.
pub open spec fn le32(s: Seq<u8>, at: int) -> u32 {
    (s[at] as int + s[at + 1] as int * 256 + s[at + 2] as int * 65536 + s[at + 3] as int
        * 16777216) as u32
}

/// The 64-bit little-endian field at `at`.
pub open spec fn le64(s: Seq<u8>, at: int) -> u64 {
    (le32(s, at) as int + le32(s, at + 4) as int * 0x1_0000_0000) as u64
}

/// The four bytes of `v`, least significant first.
pub open spec fn le32_bytes(v: u32) -> Seq<u8> {
    seq![
        (v % 256) as u8,
        (v / 256 % 256) as u8,
        (v / 65536 % 256) as u8,
        (v / 16777216) as u8,
    ]
}

/// `s` with the bytes from `at` on replaced by `patch`.
pub open spec fn overwrite(s: Seq<u8>, at: int, patch: Seq<u8>) -> Seq<u8> {
    Seq::new(
        s.len(),
        |i: int|
            if at <= i < at + patch.len() {
                patch[i - at]
            } else {
                s[i]
            },
    )
}

pub proof fn lemma_pow256_16()
    ensures
        pow256(0) == 1,
        pow256(1) == 0x100,
        pow256(2) == 0x1_0000,
        pow256(4) == 0x1_0000_0000,
        pow256(8) == 0x1_0000_0000_0000_0000,
        pow256(16) == 0x1_0000_0000_0000_0000_0000_0000_0000_0000,
{
    reveal_with_fuel(pow256, 17);
}

pub proof fn lemma_pow256_monotonic(a: nat, b: nat)
    requires
        a <= b,
    ensures
        pow256(a) <= pow256(b),
    decreases b - a,
{
    if a < b {
        lemma_pow256_monotonic(a, (b - 1) as nat);
    }
}

pub proof fn lemma_be_bytes_len(v: nat, n: nat)
    ensures
        be_bytes(v, n).len() == n,
    decreases n,
{
    if n > 0 {
        lemma_be_bytes_len(v / 256, (n - 1) as nat);
    }
}

/// A byte string of `n` bytes denotes a number below `256^n`.
pub proof fn lemma_be_value_bound(s: Seq<u8>)
    ensures
        be_value(s) < pow256(s.len()),
    decreases s.len(),
{
    if s.len() > 0 {
        lemma_be_value_bound(s.drop_last());
    }
}

/// Encoding then decoding gives the number back.
pub proof fn lemma_be_value_of_be_bytes(v: nat, n: nat)
    requires
        v < pow256(n),
    ensures
        be_value(be_bytes(v, n)) == v,
    decreases n,
{
    if n > 0 {
        let m = (n - 1) as nat;
        assert(v / 256 < pow256(m)) by (nonlinear_arith)
            requires
                v < 256 * pow256(m),
        ;
        lemma_be_value_of_be_bytes(v / 256, m);
        assert(be_bytes(v, n).drop_last() =~= be_bytes(v / 256, m));
    }
}

/// Decoding then encoding gives the bytes back.
pub proof fn lemma_be_bytes_of_be_value(s: Seq<u8>)
    ensures
        be_bytes(be_value(s), s.len()) == s,
    decreases s.len(),
{
    if s.len() > 0 {
        lemma_be_bytes_of_be_value(s.drop_last());
        assert(be_value(s) / 256 == be_value(s.drop_last()));
        assert(be_value(s) % 256 == s.last() as nat);
        assert(s.drop_last().push(s.last()) =~= s);
    } else {
        assert(s =~= Seq::<u8>::empty());
    }
}

/// Reads the big-endian 16-bit field at `at`.
pub fn read_be16(bytes: &[u8], at: usize) -> (value: u16)
    requires
        at + 2 <= bytes.len(),
    ensures
        value == be16(bytes@, at as int),
{
    bytes[at] as u16 * 256 + bytes[at + 1] as u16
}

/// Reads the big-endian 32-bit field at `at`.
pub fn read_be32(bytes: &[u8], at: usize) -> (value: u32)
    requires
        at + 4 <= bytes.len(),
    ensures
        value == be32(bytes@, at as int),
{
    bytes[at] as u32 * 16777216 + bytes[at + 1] as u32 * 65536 + bytes[at + 2] as u32 * 256
        + bytes[at + 3] as u32
}

/// Reads the little-endian 16-bit field at `at`.
pub fn read_le16(bytes: &[u8], at: usize) -> (value: u16)
    requires
        at + 2 <= bytes.len(),
    ensures
        value == le16(bytes@, at as int),
{
    bytes[at] as u16 + bytes[at + 1] as u16 * 256
}

/// Reads the little-endian 32-bit field at `at`.
pub fn read_le32(bytes: &[u8], at: usize) -> (value: u32)
    requires
        at + 4 <= bytes.len(),
    ensures
        value == le32(bytes@, at as int),
{
    bytes[at] as u32 + bytes[at + 1] as u32 * 256 + bytes[at + 2] as u32 * 65536 + bytes[at
        + 3] as u32 * 16777216
}

/// Reads the little-endian 64-bit field at `at`.
pub fn read_le64(bytes: &[u8], at: usize) -> (value: u64)
    requires
        at + 8 <= bytes.len(),
    ensures
        value == le64(bytes@, at as int),
{
    read_le32(bytes, at) as u64 + read_le32(bytes, at + 4) as u64 * 0x1_0000_0000
}

/// Reads `width` big-endian bytes at `at` as one number.
pub fn read_be(bytes: &[u8], at: usize, width: usize) -> (value: u128)
    requires
        width <= 16,
        at + width <= bytes.len(),
    ensures
        value == be_value(bytes@.subrange(at as int, at + width)),
{
    let mut value: u128 = 0;
    let mut i: usize = 0;
    assert(bytes@.subrange(at as int, at as int) =~= Seq::<u8>::empty());
    while i < width
        invariant
            i <= width <= 16,
            at + width <= bytes.len(),
            value == be_value(bytes@.subrange(at as int, at + i)),
        decreases width - i,
    {
        proof {
            let prefix = bytes@.subrange(at as int, at + i);
            let longer = bytes@.subrange(at as int, at + i + 1);
            lemma_be_value_bound(longer);
            lemma_pow256_16();
            lemma_pow256_monotonic((i + 1) as nat, 16);
            assert(longer.drop_last() =~= prefix);
            assert(longer.last() == bytes@[at + i]);
        }
        value = value * 256 + bytes[at + i] as u128;
        i = i + 1;
    }
    value
}

/// The `width` low-order bytes of `value`, most significant first.
pub fn be_octets(value: u128, width: usize) -> (octets: Vec<u8>)
    ensures
        octets@ == be_bytes(value as nat, width as nat),
    decreases width,
{
    if width == 0 {
        Vec::new()
    } else {
        let mut octets = be_octets(value / 256, width - 1);
        octets.push((value % 256) as u8);
        octets
    }
}

/// Copies `patch` over the bytes of `bytes` that start at `at`.
pub fn write_at(bytes: &mut [u8], at: usize, patch: &[u8])
    requires
        at + patch.len() <= old(bytes).len(),
    ensures
        final(bytes)@ == overwrite(old(bytes)@, at as int, patch@),
{
    let ghost before = bytes@;
    let mut i: usize = 0;
    while i < patch.len()
        invariant
            i <= patch@.len(),
            at + patch.len() <= bytes.len(),
            bytes@.len() == before.len(),
            bytes@ == overwrite(before, at as int, patch@.subrange(0, i as int)),
        decreases patch@.len() - i,
    {
        bytes[at + i] = patch[i];
        i = i + 1;
    }
    assert(patch@.subrange(0, i as int) =~= patch@);
}

/// A copy of the `length` bytes that start at `at`.
pub fn copy_range(bytes: &[u8], at: usize, length: usize) -> (copy: Vec<u8>)
    requires
        at + length <= bytes.len(),
    ensures
        copy@ == bytes@.subrange(at as int, at + length),
{
    let mut copy: Vec<u8> = Vec::new();
    let mut i: usize = 0;
    while i < length
        invariant
            i <= length,
            at + length <= bytes.len(),
            copy@ == bytes@.subrange(at as int, at + i),
        decreases length - i,
    {
        copy.push(bytes[at + i]);
        i = i + 1;
    }
    copy
}

/// Network fields have their most significant byte first, driver fields their
/// least significant one, and what was written reads back.
pub proof fn fields_are_read_in_their_order(a: u8, b: u8, c: u8, d: u8, v: u32)
    ensures
        be16(seq![a, b], 0) == 256 * a + b,
        be32(seq![a, b, c, d], 0) == 16777216 * a + 65536 * b + 256 * c + d,
        le16(seq![a, b], 0) == a + 256 * b,
        le32(seq![a, b, c, d], 0) == a + 256 * b + 65536 * c + 16777216 * d,
        be_value(seq![a, b, c, d]) == 16777216 * a + 65536 * b + 256 * c + d,
        le32(le32_bytes(v), 0) == v,
        le32_bytes(v).len() == 4,
{
    let four = seq![a, b, c, d];
    reveal_with_fuel(be_value, 5);
    assert(four.drop_last() =~= seq![a, b, c]);
    assert(four.drop_last().drop_last() =~= seq![a, b]);
    assert(four.drop_last().drop_last().drop_last() =~= seq![a]);
    assert(four.drop_last().drop_last().drop_last().drop_last() =~= Seq::<u8>::empty());
    assert(v == v % 256 + (v / 256 % 256) * 256 + (v / 65536 % 256) * 65536 + (v / 16777216)
        * 16777216);
}

/// A patch changes the bytes it covers and no others.
pub proof fn patches_change_what_they_cover(s: Seq<u8>, at: int, patch: Seq<u8>, i: int)
    requires
        0 <= at,
        at + patch.len() <= s.len(),
        0 <= i < s.len(),
    ensures
        overwrite(s, at, patch).len() == s.len(),
        overwrite(s, at, patch).subrange(at, at + patch.len()) == patch,
        i < at || at + patch.len() <= i ==> overwrite(s, at, patch)[i] == s[i],
{
    assert(overwrite(s, at, patch).subrange(at, at + patch.len()) =~= patch);
}

/// A field of eight bytes holds its lower half first.
pub proof fn wide_fields_hold_their_lower_half_first(s: Seq<u8>, at: int)
    ensures
        le64(s, at) % 0x1_0000_0000 == s[at] + 256 * s[at + 1] + 65536 * s[at + 2] + 16777216
            * s[at + 3],
        le64(s, at) / 0x1_0000_0000 == s[at + 4] + 256 * s[at + 5] + 65536 * s[at + 6] + 16777216
            * s[at + 7],
{
}

} // verus!
