//! Byte-level building blocks: little-endian integers, overlaying one byte
//! sequence on another, and the loops that copy and fill slices.

use vstd::prelude::*;

verus! {

/// `base` with the bytes from index `at` on replaced by `data`.  Bytes of
/// `data` that would fall outside `base` are dropped; the length never changes.
pub open spec fn splice(base: Seq<u8>, at: int, data: Seq<u8>) -> Seq<u8> {
    Seq::new(
        base.len(),
        |i: int|
            if at <= i < at + data.len() {
                data[i - at]
            } else {
                base[i]
            },
    )
}

/// The ASCII space, with which names and texts are filled up.
pub const ASCII_SPACE: u8 = 0x20;

/// `n` copies of `value`.
pub open spec fn repeated(value: u8, n: nat) -> Seq<u8> {
    Seq::new(n, |i: int| value)
}

/// `n` zero bytes.
pub open spec fn zeros(n: nat) -> Seq<u8> {
    repeated(0, n)
}

/// The first `n` bytes of `s`, filled up with `pad` where `s` is shorter.
pub open spec fn padded(s: Seq<u8>, n: nat, pad: u8) -> Seq<u8> {
    Seq::new(
        n,
        |i: int|
            if i < s.len() {
                s[i]
            } else {
                pad
            },
    )
}

/// The two bytes of `x`, least significant first.
#[verifier::opaque]
pub open spec fn le16(x: u16) -> Seq<u8> {
    seq![(x % 256) as u8, (x / 256) as u8]
}

/// The four bytes of `x`, least significant first.
#[verifier::opaque]
pub open spec fn le32(x: u32) -> Seq<u8> {
    seq![
        (x % 256) as u8,
        (x / 256 % 256) as u8,
        (x / 65536 % 256) as u8,
        (x / 16777216) as u8,
    ]
}

/// The number that the first two bytes of `s` spell, least significant first.
#[verifier::opaque]
pub open spec fn le16_value(s: Seq<u8>) -> u16
    recommends
        s.len() >= 2,
{
    (s[0] + 256 * s[1]) as u16
}

/// The number that the first four bytes of `s` spell, least significant first.
#[verifier::opaque]
pub open spec fn le32_value(s: Seq<u8>) -> u32
    recommends
        s.len() >= 4,
{
    (s[0] + 256 * s[1] + 65536 * s[2] + 16777216 * s[3]) as u32
}

/// The lengths of little-endian numbers: two bytes and four bytes.
pub proof fn lemma_le_len()
    ensures
        forall|x: u16| #[trigger] le16(x).len() == 2,
        forall|x: u32| #[trigger] le32(x).len() == 4,
{
    reveal(le16);
    reveal(le32);
}

/// The bytes of little-endian numbers, spelled out.
pub proof fn lemma_le_bytes(x16: u16, x32: u32)
    ensures
        le16(x16) == seq![(x16 % 256) as u8, (x16 / 256) as u8],
        le32(x32) == seq![
            (x32 % 256) as u8,
            (x32 / 256 % 256) as u8,
            (x32 / 65536 % 256) as u8,
            (x32 / 16777216) as u8,
        ],
{
    reveal(le16);
    reveal(le32);
}

/// A 16-bit number is the sum of its two digits to the base 256.
proof fn lemma_digits16(x: u16)
    by (bit_vector)
    ensures
        x % 256 + 256 * (x / 256) == x,
        x / 256 < 256,
{
}

/// A 32-bit number is the sum of its four digits to the base 256.
proof fn lemma_digits32(x: u32)
    by (bit_vector)
    ensures
        x % 256 + 256 * (x / 256 % 256) + 65536 * (x / 65536 % 256) + 16777216 * (x / 16777216)
            == x,
        x / 16777216 < 256,
{
}

/// Two bytes are the digits of the 16-bit number that they spell.
proof fn lemma_value16(b0: u8, b1: u8)
    by (bit_vector)
    ensures
        (b0 + 256 * b1) % 256 == b0,
        (b0 + 256 * b1) / 256 == b1,
        b0 + 256 * b1 < 65536,
{
}

/// Four bytes are the digits of the 32-bit number that they spell.
proof fn lemma_value32(b0: u8, b1: u8, b2: u8, b3: u8)
    by (bit_vector)
    ensures
        (b0 + 256 * b1 + 65536 * b2 + 16777216 * b3) % 256 == b0,
        (b0 + 256 * b1 + 65536 * b2 + 16777216 * b3) / 256 % 256 == b1,
        (b0 + 256 * b1 + 65536 * b2 + 16777216 * b3) / 65536 % 256 == b2,
        (b0 + 256 * b1 + 65536 * b2 + 16777216 * b3) / 16777216 == b3,
        b0 + 256 * b1 + 65536 * b2 + 16777216 * b3 < 0x1_0000_0000,
{
}

/// Reading back what `le16` wrote gives the number again.
pub proof fn lemma_le16_read_back(x: u16)
    ensures
        le16(x).len() == 2,
        le16_value(le16(x)) == x,
{
    reveal(le16);
    reveal(le16_value);
    lemma_digits16(x);
}

/// Writing the number that two bytes spell gives the two bytes again.
pub proof fn lemma_le16_write_back(s: Seq<u8>)
    requires
        s.len() == 2,
    ensures
        le16(le16_value(s)) == s,
{
    reveal(le16);
    reveal(le16_value);
    lemma_value16(s[0], s[1]);
    assert(le16(le16_value(s)) =~= s);
}

/// Reading back what `le32` wrote gives the number again.
pub proof fn lemma_le32_read_back(x: u32)
    ensures
        le32(x).len() == 4,
        le32_value(le32(x)) == x,
{
    reveal(le32);
    reveal(le32_value);
    lemma_digits32(x);
}

/// Writing the number that four bytes spell gives the four bytes again.
pub proof fn lemma_le32_write_back(s: Seq<u8>)
    requires
        s.len() == 4,
    ensures
        le32(le32_value(s)) == s,
{
    reveal(le32);
    reveal(le32_value);
    lemma_value32(s[0], s[1], s[2], s[3]);
    assert(le32(le32_value(s)) =~= s);
}

/// Two 16-bit numbers with the same bytes are the same number.
pub proof fn lemma_le16_injective(a: u16, b: u16)
    ensures
        le16(a) == le16(b) ==> a == b,
{
    lemma_le16_read_back(a);
    lemma_le16_read_back(b);
}

/// Two 32-bit numbers with the same bytes are the same number.
pub proof fn lemma_le32_injective(a: u32, b: u32)
    ensures
        le32(a) == le32(b) ==> a == b,
{
    lemma_le32_read_back(a);
    lemma_le32_read_back(b);
}

/// Sets every byte of `dst` to `value`.
pub fn fill(dst: &mut [u8], value: u8)
    ensures
        final(dst)@ == repeated(value, old(dst)@.len()),
{
    let n = dst.len();
    let mut i: usize = 0;
    while i < n
        invariant
            n == dst@.len(),
            n == old(dst)@.len(),
            i <= n,
            forall|j: int| 0 <= j < i ==> dst@[j] == value,
        decreases n - i,
    {
        dst[i] = value;
        i += 1;
    }
    assert(dst@ =~= repeated(value, n as nat));
}

/// Copies all of `src` into `dst`, starting at index `at` of `dst`.
pub fn copy_into(dst: &mut [u8], at: usize, src: &[u8])
    requires
        at + src@.len() <= old(dst)@.len(),
    ensures
        final(dst)@ == splice(old(dst)@, at as int, src@),
{
    let n = src.len();
    let m = dst.len();
    let mut i: usize = 0;
    while i < n
        invariant
            n == src@.len(),
            m == dst@.len(),
            m == old(dst)@.len(),
            at + n <= m,
            i <= n,
            dst@ == splice(old(dst)@, at as int, src@.subrange(0, i as int)),
        decreases n - i,
    {
        dst[at + i] = src[i];
        i += 1;
        assert(dst@ =~= splice(old(dst)@, at as int, src@.subrange(0, i as int)));
    }
    assert(src@.subrange(0, n as int) =~= src@);
}

/// Writes `x` at index `at` of `dst`, least significant byte first.
pub fn write_le16(dst: &mut [u8], at: usize, x: u16)
    requires
        at + 2 <= old(dst)@.len(),
    ensures
        final(dst)@ == splice(old(dst)@, at as int, le16(x)),
{
    dst[at] = (x % 256) as u8;
    dst[at + 1] = (x / 256) as u8;
    proof {
        reveal(le16);
        assert(dst@ =~= splice(old(dst)@, at as int, le16(x)));
    }
}

/// Writes `x` at index `at` of `dst`, least significant byte first.
pub fn write_le32(dst: &mut [u8], at: usize, x: u32)
    requires
        at + 4 <= old(dst)@.len(),
    ensures
        final(dst)@ == splice(old(dst)@, at as int, le32(x)),
{
    dst[at] = (x % 256) as u8;
    dst[at + 1] = (x / 256 % 256) as u8;
    dst[at + 2] = (x / 65536 % 256) as u8;
    dst[at + 3] = (x / 16777216) as u8;
    proof {
        reveal(le32);
        assert(dst@ =~= splice(old(dst)@, at as int, le32(x)));
    }
}

/// Reads the number spelled by the two bytes at index `at` of `src`.
pub fn read_le16(src: &[u8], at: usize) -> (x: u16)
    requires
        at + 2 <= src@.len(),
    ensures
        x == le16_value(src@.subrange(at as int, at + 2)),
{
    let lo: u16 = src[at] as u16;
    let hi: u16 = src[at + 1] as u16;
    proof {
        reveal(le16_value);
    }
    lo + 256 * hi
}

/// Reads the number spelled by the four bytes at index `at` of `src`.
pub fn read_le32(src: &[u8], at: usize) -> (x: u32)
    requires
        at + 4 <= src@.len(),
    ensures
        x == le32_value(src@.subrange(at as int, at + 4)),
{
    let b0: u32 = src[at] as u32;
    let b1: u32 = src[at + 1] as u32;
    let b2: u32 = src[at + 2] as u32;
    let b3: u32 = src[at + 3] as u32;
    proof {
        reveal(le32_value);
    }
    b0 + 256 * b1 + 65536 * b2 + 16777216 * b3
}

/// Reads the `N` bytes that start at index `at` of `src`.
pub fn read_array<const N: usize>(src: &[u8], at: usize) -> (a: [u8; N])
    requires
        at + N <= src@.len(),
    ensures
        a@ == src@.subrange(at as int, at + N),
{
    let mut a = [0u8; N];
    let m = src.len();
    let mut i: usize = 0;
    while i < N
        invariant
            m == src@.len(),
            at + N <= m,
            i <= N,
            forall|j: int| 0 <= j < i ==> a@[j] == src@[at + j],
        decreases N - i,
    {
        a[i] = src[at + i];
        i += 1;
    }
    assert(a@ =~= src@.subrange(at as int, at + N));
    a
}

/// The first `N` bytes of `bytes`, filled up with spaces where `bytes` is
/// shorter.
pub fn space_padded<const N: usize>(bytes: &[u8]) -> (a: [u8; N])
    ensures
        a@ == padded(bytes@, N as nat, ASCII_SPACE),
{
    let mut a = [ASCII_SPACE; N];
    let len = bytes.len();
    let mut i: usize = 0;
    while i < N && i < len
        invariant
            len == bytes@.len(),
            i <= N,
            i <= len,
            forall|j: int| 0 <= j < i ==> a@[j] == bytes@[j],
            forall|j: int| i <= j < N ==> a@[j] == ASCII_SPACE,
        decreases N - i,
    {
        a[i] = bytes[i];
        i += 1;
    }
    assert(a@ =~= padded(bytes@, N as nat, ASCII_SPACE));
    a
}

} // verus!
