//! Fixed-width integers and byte runs, as they lie on the wire.
//!
//! All multi-byte numbers are little-endian. A signed number is its two's
//! complement, which the remainder below yields for negative values too.

use vstd::prelude::*;

verus! {

/// The two little-endian bytes of `v`, modulo 2^16.
pub open spec fn le16(v: int) -> Seq<u8> {
    let u = v % 65536;
    seq![(u % 256) as u8, (u / 256) as u8]
}

/// The four little-endian bytes of `v`, modulo 2^32.
pub open spec fn le32(v: int) -> Seq<u8> {
    let u = v % 4294967296;
    seq![
        (u % 256) as u8,
        (u / 256 % 256) as u8,
        (u / 65536 % 256) as u8,
        (u / 16777216) as u8,
    ]
}

/// The number whose two little-endian bytes start at `at`.
pub open spec fn u16_at(b: Seq<u8>, at: int) -> u16 {
    (b[at] + 256 * b[at + 1]) as u16
}

/// The number whose four little-endian bytes start at `at`.
pub open spec fn u32_at(b: Seq<u8>, at: int) -> u32 {
    (b[at] + 256 * b[at + 1] + 65536 * b[at + 2] + 16777216 * b[at + 3]) as u32
}

/// The two's complement reading of an unsigned byte.
pub open spec fn as_i8(v: u8) -> i8 {
    if v < 128 {
        v as i8
    } else {
        (v - 256) as i8
    }
}

/// The two's complement reading of an unsigned 16-bit number.
pub open spec fn as_i16(v: u16) -> i16 {
    if v < 32768 {
        v as i16
    } else {
        (v - 65536) as i16
    }
}

/// The two's complement reading of an unsigned 32-bit number.
pub open spec fn as_i32(v: u32) -> i32 {
    if v < 2147483648 {
        v as i32
    } else {
        (v - 4294967296) as i32
    }
}

/// The byte that carries a signed byte.
pub open spec fn i8_byte(v: i8) -> u8 {
    if v < 0 {
        (v + 256) as u8
    } else {
        v as u8
    }
}

/// `s` with `part` written over it from index `at` on.
pub open spec fn splice(s: Seq<u8>, at: int, part: Seq<u8>) -> Seq<u8> {
    s.take(at) + part + s.skip(at + part.len())
}

/// Six bytes of `s` from `at` on, as an array.
pub open spec fn six_at(s: Seq<u8>, at: int) -> [u8; 6] {
    [s[at], s[at + 1], s[at + 2], s[at + 3], s[at + 4], s[at + 5]]
}

/// Eight bytes of `s` from `at` on, as an array.
pub open spec fn eight_at(s: Seq<u8>, at: int) -> [u8; 8] {
    [s[at], s[at + 1], s[at + 2], s[at + 3], s[at + 4], s[at + 5], s[at + 6], s[at + 7]]
}

/// Sixteen bytes of `s` from `at` on, as an array.
pub open spec fn sixteen_at(s: Seq<u8>, at: int) -> [u8; 16] {
    [
        s[at],
        s[at + 1],
        s[at + 2],
        s[at + 3],
        s[at + 4],
        s[at + 5],
        s[at + 6],
        s[at + 7],
        s[at + 8],
        s[at + 9],
        s[at + 10],
        s[at + 11],
        s[at + 12],
        s[at + 13],
        s[at + 14],
        s[at + 15],
    ]
}

/// The little-endian bytes of an unsigned 16-bit number.
pub fn u16_bytes(v: u16) -> (r: [u8; 2])
    ensures
        r@ == le16(v as int),
{
    let r: [u8; 2] = [(v % 256) as u8, (v / 256) as u8];
    assert(r@ =~= le16(v as int));
    r
}

/// The little-endian bytes of an unsigned 32-bit number.
pub fn u32_bytes(v: u32) -> (r: [u8; 4])
    ensures
        r@ == le32(v as int),
{
    let r: [u8; 4] = [
        (v % 256) as u8,
        (v / 256 % 256) as u8,
        (v / 65536 % 256) as u8,
        (v / 16777216) as u8,
    ];
    assert(r@ =~= le32(v as int));
    r
}

/// The little-endian two's complement bytes of a signed 16-bit number.
pub fn i16_bytes(v: i16) -> (r: [u8; 2])
    ensures
        r@ == le16(v as int),
{
    assert(v as u16 == if v < 0 {
        v + 65536
    } else {
        v as int
    }) by (bit_vector);
    let r: [u8; 2] = u16_bytes(v as u16);
    assert(le16(v as int) =~= le16((v as u16) as int));
    r
}

/// The little-endian two's complement bytes of a signed 32-bit number.
pub fn i32_bytes(v: i32) -> (r: [u8; 4])
    ensures
        r@ == le32(v as int),
{
    assert(v as u32 == if v < 0 {
        v + 4294967296
    } else {
        v as int
    }) by (bit_vector);
    let r: [u8; 4] = u32_bytes(v as u32);
    assert(le32(v as int) =~= le32((v as u32) as int));
    r
}

/// The byte that carries a signed byte.
pub fn i8_to_byte(v: i8) -> (r: u8)
    ensures
        r == i8_byte(v),
{
    assert(v as u8 == if v < 0 {
        v + 256
    } else {
        v as int
    }) by (bit_vector);
    v as u8
}

/// The signed byte that a byte carries.
pub fn byte_to_i8(v: u8) -> (r: i8)
    ensures
        r == as_i8(v),
{
    assert(v as i8 == if v < 128 {
        v as int
    } else {
        v - 256
    }) by (bit_vector);
    v as i8
}

/// Read an unsigned 16-bit number.
pub fn read_u16(b: &[u8], at: usize) -> (r: u16)
    requires
        at + 2 <= b@.len(),
    ensures
        r == u16_at(b@, at as int),
{
    b[at] as u16 + 256 * (b[at + 1] as u16)
}

/// Read an unsigned 32-bit number.
pub fn read_u32(b: &[u8], at: usize) -> (r: u32)
    requires
        at + 4 <= b@.len(),
    ensures
        r == u32_at(b@, at as int),
{
    b[at] as u32 + 256 * (b[at + 1] as u32) + 65536 * (b[at + 2] as u32) + 16777216 * (b[at
        + 3] as u32)
}

/// Read a signed 16-bit number.
pub fn read_i16(b: &[u8], at: usize) -> (r: i16)
    requires
        at + 2 <= b@.len(),
    ensures
        r == as_i16(u16_at(b@, at as int)),
{
    let v: u16 = read_u16(b, at);
    assert(v as i16 == if v < 32768 {
        v as int
    } else {
        v - 65536
    }) by (bit_vector);
    v as i16
}

/// Read a signed 32-bit number.
pub fn read_i32(b: &[u8], at: usize) -> (r: i32)
    requires
        at + 4 <= b@.len(),
    ensures
        r == as_i32(u32_at(b@, at as int)),
{
    let v: u32 = read_u32(b, at);
    assert(v as i32 == if v < 2147483648 {
        v as int
    } else {
        v - 4294967296
    }) by (bit_vector);
    v as i32
}

/// Write `part` over `out` from index `at` on, leaving every other byte alone.
pub fn put(out: &mut [u8], at: usize, part: &[u8])
    requires
        at + part@.len() <= old(out)@.len(),
    ensures
        final(out)@ == splice(old(out)@, at as int, part@),
{
    let ghost before = out@;
    let n: usize = part.len();
    let total: usize = out.len();
    let mut i: usize = 0;
    while i < n
        invariant
            i <= n,
            n == part@.len(),
            at + n <= total == out@.len(),
            before.len() == out@.len(),
            out@ =~= splice(before, at as int, part@.take(i as int)),
        decreases n - i,
    {
        out[at + i] = part[i];
        i = i + 1;
    }
    assert(part@.take(n as int) =~= part@);
}

/// A copy of `b` from `from` up to but not counting `to`.
pub fn copy_range(b: &[u8], from: usize, to: usize) -> (r: Vec<u8>)
    requires
        from <= to <= b@.len(),
    ensures
        r@ == b@.subrange(from as int, to as int),
{
    let mut r: Vec<u8> = Vec::new();
    let mut i: usize = from;
    while i < to
        invariant
            from <= i <= to <= b@.len(),
            r@ =~= b@.subrange(from as int, i as int),
        decreases to - i,
    {
        r.push(b[i]);
        i = i + 1;
    }
    r
}

/// Whether two six-byte addresses are the same.
pub fn same_six(a: &[u8; 6], b: &[u8; 6]) -> (r: bool)
    ensures
        r == (*a == *b),
{
    let mut i: usize = 0;
    while i < 6
        invariant
            i <= 6,
            forall|j: int| 0 <= j < i ==> a@[j] == b@[j],
        decreases 6 - i,
    {
        if a[i] != b[i] {
            assert(a@[i as int] != b@[i as int]);
            return false;
        }
        i = i + 1;
    }
    assert(*a =~= *b);
    true
}

/// Reading a written 16-bit number gives it back.
pub proof fn lemma_u16_roundtrip(v: u16, b: Seq<u8>, at: int)
    requires
        0 <= at,
        at + 2 <= b.len(),
        b.subrange(at, at + 2) == le16(v as int),
    ensures
        u16_at(b, at) == v,
{
    assert(b[at] == b.subrange(at, at + 2)[0]);
    assert(b[at + 1] == b.subrange(at, at + 2)[1]);
}

/// Reading a written signed 16-bit number gives it back.
pub proof fn lemma_i16_roundtrip(v: i16, b: Seq<u8>, at: int)
    requires
        0 <= at,
        at + 2 <= b.len(),
        b.subrange(at, at + 2) == le16(v as int),
    ensures
        as_i16(u16_at(b, at)) == v,
{
    assert(b[at] == b.subrange(at, at + 2)[0]);
    assert(b[at + 1] == b.subrange(at, at + 2)[1]);
}

/// Reading a written 32-bit number gives it back.
pub proof fn lemma_u32_roundtrip(v: u32, b: Seq<u8>, at: int)
    requires
        0 <= at,
        at + 4 <= b.len(),
        b.subrange(at, at + 4) == le32(v as int),
    ensures
        u32_at(b, at) == v,
{
    let s = b.subrange(at, at + 4);
    assert(b[at] == s[0] && b[at + 1] == s[1] && b[at + 2] == s[2] && b[at + 3] == s[3]);
    lemma_four_bytes(v as int);
}

/// A number below 2^32 is the sum of its four bytes at their places.
proof fn lemma_four_bytes(u: int)
    requires
        0 <= u < 4294967296,
    ensures
        u == u % 256 + 256 * (u / 256 % 256) + 65536 * (u / 65536 % 256) + 16777216 * (u
            / 16777216),
{
    let a = u / 256;
    let b = u / 65536;
    let c = u / 16777216;
    assert(u == 256 * a + u % 256);
    assert(b == a / 256);
    assert(a == 256 * b + a % 256);
    assert(c == b / 256);
    assert(b == 256 * c + b % 256);
}

/// Reading a written signed 32-bit number gives it back.
pub proof fn lemma_i32_roundtrip(v: i32, b: Seq<u8>, at: int)
    requires
        0 <= at,
        at + 4 <= b.len(),
        b.subrange(at, at + 4) == le32(v as int),
    ensures
        as_i32(u32_at(b, at)) == v,
{
    let u = (v as int) % 4294967296;
    assert(le32(v as int) =~= le32(u));
    lemma_u32_roundtrip(u as u32, b, at);
}

/// Writing a 16-bit number that was read gives its bytes back.
pub proof fn lemma_u16_written_back(b: Seq<u8>, at: int)
    requires
        0 <= at,
        at + 2 <= b.len(),
    ensures
        le16(u16_at(b, at) as int) == b.subrange(at, at + 2),
{
    assert(le16(u16_at(b, at) as int) =~= b.subrange(at, at + 2));
}

/// Writing a signed 32-bit number that was read gives its bytes back.
pub proof fn lemma_i32_written_back(b: Seq<u8>, at: int)
    requires
        0 <= at,
        at + 4 <= b.len(),
    ensures
        le32(as_i32(u32_at(b, at)) as int) == b.subrange(at, at + 4),
{
    let (b0, b1, b2, b3) = (b[at] as int, b[at + 1] as int, b[at + 2] as int, b[at + 3] as int);
    let u = b0 + 256 * b1 + 65536 * b2 + 16777216 * b3;
    assert(as_i32(u32_at(b, at)) as int % 4294967296 == u);
    assert(u / 16777216 == b3);
    assert(u / 65536 == b2 + 256 * b3);
    assert(u / 256 == b1 + 256 * b2 + 65536 * b3);
    assert(le32(as_i32(u32_at(b, at)) as int) =~= b.subrange(at, at + 4));
}

/// What is written over the start of a run stands there, and what lies behind
/// it is as it was.
pub proof fn lemma_splice_at_start(s: Seq<u8>, part: Seq<u8>)
    ensures
        s.len() >= part.len() ==> {
            let written = splice(s, 0, part);
            &&& written.len() == s.len()
            &&& written.take(part.len() as int) == part
            &&& written.skip(part.len() as int) == s.skip(part.len() as int)
        },
{
    if s.len() >= part.len() {
        let written = splice(s, 0, part);
        assert(written.take(part.len() as int) =~= part);
        assert(written.skip(part.len() as int) =~= s.skip(part.len() as int));
    }
}

/// The bytes of a number weigh 1, 256, 65536 and so on, in the order in which
/// they stand, and add up to it.
pub proof fn law_the_first_byte_weighs_least(v: int)
    ensures
        le16(v).len() == 2,
        le16(v)[0] + 256 * le16(v)[1] == v % 65536,
        le32(v).len() == 4,
        le32(v)[0] + 256 * le32(v)[1] + 65536 * le32(v)[2] + 16777216 * le32(v)[3] == v
            % 4294967296,
{
    lemma_four_bytes(v % 4294967296);
}

/// Reading weighs the bytes in the same way.
pub proof fn law_reading_weighs_the_bytes(b: Seq<u8>, at: int)
    ensures
        u16_at(b, at) == b[at] + 256 * b[at + 1],
        u32_at(b, at) == b[at] + 256 * b[at + 1] + 65536 * b[at + 2] + 16777216 * b[at + 3],
{
}

/// A signed number and the unsigned one that carries it differ by a whole turn,
/// or not at all.
pub proof fn law_signed_numbers_keep_their_remainder(a: u8, b: u16, c: u32, d: i8)
    ensures
        (as_i8(a) - a) % 256 == 0,
        (as_i16(b) - b) % 65536 == 0,
        (as_i32(c) - c) % 4294967296 == 0,
        (i8_byte(d) - d) % 256 == 0,
{
}

/// A run taken from `at` on holds the bytes that stand there, in order.
pub proof fn law_runs_keep_their_order(s: Seq<u8>, at: int, i: int)
    requires
        0 <= i,
    ensures
        i < 6 ==> six_at(s, at)@[i] == s[at + i],
        i < 8 ==> eight_at(s, at)@[i] == s[at + i],
        i < 16 ==> sixteen_at(s, at)@[i] == s[at + i],
{
}

/// What is written stands where it was written, and every other byte is as it
/// was.
pub proof fn law_writing_changes_nothing_else(s: Seq<u8>, at: int, part: Seq<u8>, i: int)
    requires
        0 <= at,
        at + part.len() <= s.len(),
        0 <= i < s.len(),
    ensures
        splice(s, at, part).len() == s.len(),
        i < at || i >= at + part.len() ==> splice(s, at, part)[i] == s[i],
        at <= i && i < at + part.len() ==> splice(s, at, part)[i] == part[i - at],
{
}

} // verus!
