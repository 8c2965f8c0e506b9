//! Little- and big-endian byte helpers shared by the wire formats.
use vstd::prelude::*;

verus! {

/// The two bytes of `x`, least significant first.
pub open spec fn le16(x: u16) -> Seq<u8> {
    seq![(x % 256) as u8, (x / 256) as u8]
}

/// The value of two bytes read least significant first.
pub open spec fn from_le16(lo: u8, hi: u8) -> u16 {
    (lo + 256 * hi) as u16
}

/// The four bytes of `x`, least significant first.
pub open spec fn le32(x: u32) -> Seq<u8> {
    seq![(x % 256) as u8, ((x / 256) % 256) as u8, ((x / 65536) % 256) as u8, (x / 16777216) as u8]
}

/// The value of four bytes read least significant first.
pub open spec fn from_le32(b0: u8, b1: u8, b2: u8, b3: u8) -> u32 {
    (b0 + 256 * b1 + 65536 * b2 + 16777216 * b3) as u32
}

/// The eight bytes of `x`, least significant first.
pub open spec fn le64(x: u64) -> Seq<u8> {
    Seq::new(8, |i: int| ((x as nat / pow256(i)) % 256) as u8)
}

/// 256 to the power `i`, for `0 <= i < 8`.
pub open spec fn pow256(i: int) -> nat {
    if i == 0 { 1 } else if i == 1 { 0x100 } else if i == 2 { 0x10000 } else if i == 3 {
        0x1000000
    } else if i == 4 { 0x100000000 } else if i == 5 { 0x10000000000 } else if i == 6 {
        0x1000000000000
    } else { 0x100000000000000 }
}

pub proof fn lemma_le16_roundtrip(x: u16)
    ensures
        from_le16(le16(x)[0], le16(x)[1]) == x,
{
}

pub proof fn lemma_from_le16_parts(lo: u8, hi: u8)
    ensures
        from_le16(lo, hi) % 256 == lo,
        from_le16(lo, hi) / 256 == hi,
        le16(from_le16(lo, hi)) == seq![lo, hi],
{
    assert(le16(from_le16(lo, hi)) =~= seq![lo, hi]);
}

pub proof fn lemma_le32_roundtrip(x: u32)
    ensures
        from_le32(le32(x)[0], le32(x)[1], le32(x)[2], le32(x)[3]) == x,
{
}

/// How masks and shifts split a 16-bit value into bytes and join them again.
proof fn lemma_u16_bytes() by (bit_vector)
    ensures
        forall|x: u16| #[trigger] (x & 0xff) == x % 256,
        forall|x: u16| #[trigger] (x >> 8) == x / 256,
        forall|lo: u8, hi: u8| #[trigger] ((lo as u16) | ((hi as u16) << 8)) == lo + 256 * hi,
{
}

/// Low byte of a 16-bit value.
pub fn lo8(x: u16) -> (r: u8)
    ensures
        r == x % 256,
{
    proof {
        lemma_u16_bytes();
    }
    (x & 0xff) as u8
}

/// High byte of a 16-bit value.
pub fn hi8(x: u16) -> (r: u8)
    ensures
        r == x / 256,
{
    proof {
        lemma_u16_bytes();
    }
    (x >> 8) as u8
}

/// Combine two bytes, least significant first.
pub fn make_u16(lo: u8, hi: u8) -> (r: u16)
    ensures
        r == from_le16(lo, hi),
        r == lo + 256 * hi,
{
    proof {
        lemma_u16_bytes();
    }
    (lo as u16) | ((hi as u16) << 8)
}

/// Combine four bytes, least significant first.
pub fn make_u32(b0: u8, b1: u8, b2: u8, b3: u8) -> (r: u32)
    ensures
        r == from_le32(b0, b1, b2, b3),
        r == b0 + 256 * b1 + 65536 * b2 + 16777216 * b3,
{
    let r = (b0 as u32) | ((b1 as u32) << 8) | ((b2 as u32) << 16) | ((b3 as u32) << 24);
    assert(r == b0 + 256 * b1 + 65536 * b2 + 16777216 * b3) by (bit_vector)
        requires
            r == (b0 as u32) | ((b1 as u32) << 8) | ((b2 as u32) << 16) | ((b3 as u32) << 24),
    ;
    r
}

/// Append a 16-bit value, least significant byte first.
pub fn push_u16_le(v: &mut Vec<u8>, x: u16)
    ensures
        final(v)@ == old(v)@ + le16(x),
{
    v.push(lo8(x));
    v.push(hi8(x));
    assert(final(v)@ =~= old(v)@ + le16(x));
}

/// Byte `i` (least significant first) of a 32-bit value.
pub fn byte_of_u32(x: u32, i: u32) -> (r: u8)
    requires
        i < 4,
    ensures
        i == 0 ==> r == x % 256,
        i == 1 ==> r == (x / 256) % 256,
        i == 2 ==> r == (x / 65536) % 256,
        i == 3 ==> r == x / 16777216,
{
    let s = i * 8;
    let r = ((x >> s) & 0xff) as u8;
    assert((i == 0 ==> ((x >> (i * 8)) & 0xff) == x % 256)
        && (i == 1 ==> ((x >> (i * 8)) & 0xff) == (x / 256) % 256)
        && (i == 2 ==> ((x >> (i * 8)) & 0xff) == (x / 65536) % 256)
        && (i == 3 ==> ((x >> (i * 8)) & 0xff) == x / 16777216)) by (bit_vector);
    r
}

/// Append a 32-bit value, least significant byte first.
pub fn push_u32_le(v: &mut Vec<u8>, x: u32)
    ensures
        final(v)@ == old(v)@ + le32(x),
{
    v.push(byte_of_u32(x, 0));
    v.push(byte_of_u32(x, 1));
    v.push(byte_of_u32(x, 2));
    v.push(byte_of_u32(x, 3));
    assert(final(v)@ =~= old(v)@ + le32(x));
}

/// Byte `i` (least significant first) of a 64-bit value.
pub fn byte_of_u64(x: u64, i: u64) -> (r: u8)
    requires
        i < 8,
    ensures
        r == ((x as nat / pow256(i as int)) % 256) as u8,
{
    let r = ((x >> (i * 8)) & 0xff) as u8;
    assert((i == 0 ==> ((x >> (i * 8)) & 0xff) == (x / 0x1) % 256)
        && (i == 1 ==> ((x >> (i * 8)) & 0xff) == (x / 0x100) % 256)
        && (i == 2 ==> ((x >> (i * 8)) & 0xff) == (x / 0x10000) % 256)
        && (i == 3 ==> ((x >> (i * 8)) & 0xff) == (x / 0x1000000) % 256)
        && (i == 4 ==> ((x >> (i * 8)) & 0xff) == (x / 0x100000000) % 256)
        && (i == 5 ==> ((x >> (i * 8)) & 0xff) == (x / 0x10000000000) % 256)
        && (i == 6 ==> ((x >> (i * 8)) & 0xff) == (x / 0x1000000000000) % 256)
        && (i == 7 ==> ((x >> (i * 8)) & 0xff) == (x / 0x100000000000000) % 256)) by (bit_vector);
    r
}

/// Append a 64-bit value, least significant byte first.
pub fn push_u64_le(v: &mut Vec<u8>, x: u64)
    ensures
        final(v)@ == old(v)@ + le64(x),
{
    let ghost start = v@;
    let mut i: u64 = 0;
    while i < 8
        invariant
            i <= 8,
            v@.len() == start.len() + i,
            v@.subrange(0, start.len() as int) == start,
            forall|j: int| 0 <= j < i ==> v@[start.len() + j] == le64(x)[j],
        decreases 8 - i,
    {
        let b = byte_of_u64(x, i);
        v.push(b);
        i = i + 1;
    }
    assert(v@ =~= start + le64(x));
}

/// The two bytes of `x`, most significant first.
pub open spec fn be16(x: u16) -> Seq<u8> {
    seq![(x / 256) as u8, (x % 256) as u8]
}

/// The eight bytes of `x`, most significant first.
pub open spec fn be64(x: u64) -> Seq<u8> {
    Seq::new(8, |i: int| le64(x)[7 - i])
}

/// The value of eight bytes read most significant first.
pub open spec fn from_be64(s: Seq<u8>) -> u64 {
    (from_le32(s[3], s[2], s[1], s[0]) * 4294967296 + from_le32(s[7], s[6], s[5], s[4])) as u64
}

/// Append a 16-bit value, most significant byte first.
pub fn push_u16_be(v: &mut Vec<u8>, x: u16)
    ensures
        final(v)@ == old(v)@ + be16(x),
{
    v.push(hi8(x));
    v.push(lo8(x));
    assert(final(v)@ =~= old(v)@ + be16(x));
}

/// Append a 32-bit value, most significant byte first.
pub fn push_u32_be(v: &mut Vec<u8>, x: u32)
    ensures
        final(v)@ == old(v)@ + seq![le32(x)[3], le32(x)[2], le32(x)[1], le32(x)[0]],
{
    v.push(byte_of_u32(x, 3));
    v.push(byte_of_u32(x, 2));
    v.push(byte_of_u32(x, 1));
    v.push(byte_of_u32(x, 0));
    assert(final(v)@ =~= old(v)@ + seq![le32(x)[3], le32(x)[2], le32(x)[1], le32(x)[0]]);
}

/// Append a 64-bit value, most significant byte first.
pub fn push_u64_be(v: &mut Vec<u8>, x: u64)
    ensures
        final(v)@ == old(v)@ + be64(x),
{
    let ghost start = v@;
    let mut i: u64 = 0;
    while i < 8
        invariant
            i <= 8,
            v@.len() == start.len() + i,
            v@.subrange(0, start.len() as int) == start,
            forall|j: int| 0 <= j < i ==> v@[start.len() + j] == be64(x)[j],
        decreases 8 - i,
    {
        let b = byte_of_u64(x, 7 - i);
        v.push(b);
        i = i + 1;
    }
    assert(v@ =~= start + be64(x));
}

/// Combine eight bytes, most significant first.
pub fn make_u64_be(s: &[u8]) -> (r: u64)
    requires
        s@.len() >= 8,
    ensures
        r == from_be64(s@),
{
    let hi = make_u32(s[3], s[2], s[1], s[0]);
    let lo = make_u32(s[7], s[6], s[5], s[4]);
    assert((hi as u64) * 4294967296 + (lo as u64) <= u64::MAX) by (nonlinear_arith)
        requires
            hi <= u32::MAX,
            lo <= u32::MAX,
    ;
    (hi as u64) * 4294967296 + (lo as u64)
}

/// Copy a slice into a fresh vector.
pub fn copy_range(data: &[u8], start: usize, end: usize) -> (r: Vec<u8>)
    requires
        start <= end <= data@.len(),
    ensures
        r@ == data@.subrange(start as int, end as int),
{
    let mut r: Vec<u8> = Vec::new();
    let mut i = start;
    while i < end
        invariant
            start <= i <= end <= data@.len(),
            r@ == data@.subrange(start as int, i as int),
        decreases end - i,
    {
        r.push(data[i]);
        i = i + 1;
        assert(r@ =~= data@.subrange(start as int, i as int));
    }
    r
}

/// Append every byte of `src` to `v`.
pub fn extend_bytes(v: &mut Vec<u8>, src: &[u8])
    ensures
        final(v)@ == old(v)@ + src@,
{
    let ghost start = v@;
    let mut i: usize = 0;
    while i < src.len()
        invariant
            i <= src@.len(),
            v@ == start + src@.subrange(0, i as int),
        decreases src@.len() - i,
    {
        v.push(src[i]);
        i = i + 1;
        assert(v@ =~= start + src@.subrange(0, i as int));
    }
    assert(src@.subrange(0, src@.len() as int) =~= src@);
}


/// Whether bit `i` (0 = least significant) of `b` is set.
pub open spec fn bit_set(b: u8, i: u8) -> bool {
    (b >> i) & 1u8 == 1u8
}

/// Test bit `i` of a byte.
pub fn test_bit(b: u8, i: u8) -> (r: bool)
    requires
        i < 8,
    ensures
        r == bit_set(b, i),
{
    assert((b & (1u8 << i)) != 0 <==> (b >> i) & 1u8 == 1u8) by (bit_vector)
        requires
            i < 8,
    ;
    (b & (1u8 << i)) != 0
}

/// A boolean as the byte 0 or 1.
pub open spec fn flag_byte(b: bool) -> u8 {
    if b { 1 } else { 0 }
}

/// A boolean as the byte 0 or 1.
pub fn bool_byte(b: bool) -> (r: u8)
    ensures
        r == flag_byte(b),
{
    if b { 1 } else { 0 }
}

/// The little-endian value of a run of bytes.
pub open spec fn le_value(s: Seq<u8>) -> nat
    decreases s.len(),
{
    if s.len() == 0 { 0 } else { (s[0] + 256 * le_value(s.drop_first())) as nat }
}

/// A little-endian number of `n` bytes is below 256 to the power `n`.
pub proof fn lemma_le_value_bound(s: Seq<u8>)
    ensures
        le_value(s) < pow256n(s.len()),
    decreases s.len(),
{
    if s.len() > 0 {
        lemma_le_value_bound(s.drop_first());
    }
}

/// 256 to the power `n`.
pub open spec fn pow256n(n: nat) -> nat
    decreases n,
{
    if n == 0 { 1 } else { 256 * pow256n((n - 1) as nat) }
}

/// The `n`-byte little-endian number at byte `at` of `s`.
pub fn read_le(s: &[u8], at: usize, n: usize) -> (r: u64)
    requires
        at + n <= s@.len(),
        n <= 8,
    ensures
        r == le_value(s@.subrange(at as int, at + n)),
        n <= 2 ==> r < 0x1_0000,
        n <= 4 ==> r < 0x1_0000_0000,
{
    let mut v: u64 = 0;
    let mut i: usize = n;
    assert(s@.subrange(at + n, at + n) =~= Seq::<u8>::empty());
    while i > 0
        invariant
            i <= n <= 8,
            at + n <= s@.len(),
            s@.len() == s.len(),
            v == le_value(s@.subrange(at + i, at + n)),
        decreases i,
    {
        i = i - 1;
        assert(s@.subrange(at + i, at + n).drop_first() =~= s@.subrange(at + i + 1, at + n));
        proof {
            lemma_le_value_bound(s@.subrange(at + i + 1, at + n));
            reveal_with_fuel(pow256n, 9);
            assert(pow256n((n - i - 1) as nat) <= pow256n(7));
        }
        v = v * 256 + s[at + i] as u64;
    }
    proof {
        lemma_le_value_bound(s@.subrange(at as int, at + n));
        reveal_with_fuel(pow256n, 5);
        if n <= 2 {
            assert(pow256n(n as nat) <= pow256n(2));
        }
        if n <= 4 {
            assert(pow256n(n as nat) <= pow256n(4));
        }
    }
    v
}

} // verus!
