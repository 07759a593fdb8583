//! Fixed-width little-endian fields inside byte buffers.
use vstd::prelude::*;
use crate::error::LotteryError;
use crate::pubkey::Pubkey;

verus! {

/// The byte that stands for a flag: 1 for set, 0 for clear.
pub open spec fn flag_byte(flag: bool) -> u8 {
    if flag {
        1
    } else {
        0
    }
}

/// The four bytes of `v`, least significant first.
pub open spec fn u32_to_le(v: u32) -> Seq<u8> {
    seq![
        (v % 0x100) as u8,
        (v / 0x100 % 0x100) as u8,
        (v / 0x1_0000 % 0x100) as u8,
        (v / 0x100_0000) as u8,
    ]
}

/// The number whose little-endian bytes are the first four of `s`.
pub open spec fn u32_from_le(s: Seq<u8>) -> u32
    recommends
        s.len() >= 4,
{
    (s[0] + s[1] * 0x100 + s[2] * 0x1_0000 + s[3] * 0x100_0000) as u32
}

/// The eight bytes of `v`, least significant first.
pub open spec fn u64_to_le(v: u64) -> Seq<u8> {
    u32_to_le((v % 0x1_0000_0000) as u32) + u32_to_le((v / 0x1_0000_0000) as u32)
}

/// The number whose little-endian bytes are the first eight of `s`.
pub open spec fn u64_from_le(s: Seq<u8>) -> u64
    recommends
        s.len() >= 8,
{
    (u32_from_le(s.subrange(0, 4)) + u32_from_le(s.subrange(4, 8)) * 0x1_0000_0000) as u64
}

/// `s` with the bytes from `at` on replaced by `piece`; the rest stays.
pub open spec fn splice(s: Seq<u8>, at: int, piece: Seq<u8>) -> Seq<u8>
    recommends
        0 <= at,
        at + piece.len() <= s.len(),
{
    s.subrange(0, at) + piece + s.subrange(at + piece.len(), s.len() as int)
}

/// Writing `piece` right behind a prefix that is already in place extends the
/// prefix and leaves the rest of the buffer as it was before.
pub proof fn lemma_splice_next(before: Seq<u8>, prefix: Seq<u8>, piece: Seq<u8>)
    requires
        prefix.len() + piece.len() <= before.len(),
    ensures
        splice(
            prefix + before.subrange(prefix.len() as int, before.len() as int),
            prefix.len() as int,
            piece,
        ) == (prefix + piece) + before.subrange(
            (prefix.len() + piece.len()) as int,
            before.len() as int,
        ),
{
    let current = prefix + before.subrange(prefix.len() as int, before.len() as int);
    assert(splice(current, prefix.len() as int, piece) =~= (prefix + piece) + before.subrange(
        (prefix.len() + piece.len()) as int,
        before.len() as int,
    ));
}

/// Decoding undoes encoding of a 32-bit field.
pub proof fn lemma_u32_round_trip(v: u32)
    ensures
        u32_to_le(v).len() == 4,
        u32_from_le(u32_to_le(v)) == v,
{
}

/// Encoding undoes decoding of a 32-bit field.
pub proof fn lemma_u32_bytes_round_trip(s: Seq<u8>)
    requires
        s.len() == 4,
    ensures
        u32_to_le(u32_from_le(s)) == s,
{
    let b0: int = s[0] as int;
    let b1: int = s[1] as int;
    let b2: int = s[2] as int;
    let b3: int = s[3] as int;
    let v: int = b0 + b1 * 0x100 + b2 * 0x1_0000 + b3 * 0x100_0000;
    assert(v == u32_from_le(s));
    let q1: int = b1 + b2 * 0x100 + b3 * 0x1_0000;
    let q2: int = b2 + b3 * 0x100;
    assert(v == q1 * 0x100 + b0);
    assert(v / 0x100 == q1 && v % 0x100 == b0);
    assert(q1 == q2 * 0x100 + b1);
    assert(q1 / 0x100 == q2 && q1 % 0x100 == b1);
    assert(v / 0x1_0000 == q2);
    assert(q2 / 0x100 == b3 && q2 % 0x100 == b2);
    assert(v / 0x100_0000 == b3);
    assert(u32_to_le(u32_from_le(s)) =~= s);
}

/// Decoding undoes encoding of a 64-bit field.
pub proof fn lemma_u64_round_trip(v: u64)
    ensures
        u64_to_le(v).len() == 8,
        u64_from_le(u64_to_le(v)) == v,
{
    let lo = (v % 0x1_0000_0000) as u32;
    let hi = (v / 0x1_0000_0000) as u32;
    lemma_u32_round_trip(lo);
    lemma_u32_round_trip(hi);
    assert(u64_to_le(v).subrange(0, 4) =~= u32_to_le(lo));
    assert(u64_to_le(v).subrange(4, 8) =~= u32_to_le(hi));
}

proof fn lemma_halves(lo: int, hi: int)
    requires
        0 <= lo < 0x1_0000_0000,
        0 <= hi < 0x1_0000_0000,
    ensures
        (lo + hi * 0x1_0000_0000) % 0x1_0000_0000 == lo,
        (lo + hi * 0x1_0000_0000) / 0x1_0000_0000 == hi,
        0 <= lo + hi * 0x1_0000_0000 <= u64::MAX,
{
}

/// Encoding undoes decoding of a 64-bit field.
pub proof fn lemma_u64_bytes_round_trip(s: Seq<u8>)
    requires
        s.len() == 8,
    ensures
        u64_to_le(u64_from_le(s)) == s,
{
    let a = s.subrange(0, 4);
    let b = s.subrange(4, 8);
    let lo = u32_from_le(a);
    let hi = u32_from_le(b);
    lemma_halves(lo as int, hi as int);
    let v = u64_from_le(s);
    assert(v == lo + hi * 0x1_0000_0000);
    assert((v % 0x1_0000_0000) as u32 == lo);
    assert((v / 0x1_0000_0000) as u32 == hi);
    assert(u64_to_le(v) == u32_to_le(lo) + u32_to_le(hi));
    lemma_u32_bytes_round_trip(a);
    lemma_u32_bytes_round_trip(b);
    assert(a + b =~= s);
}

/// Reads the 32-bit little-endian field at `at`.
pub fn read_u32(src: &[u8], at: usize) -> (v: u32)
    requires
        at + 4 <= src.len(),
    ensures
        v == u32_from_le(src@.subrange(at as int, at + 4)),
{
    let b0: u32 = src[at] as u32;
    let b1: u32 = src[at + 1] as u32;
    let b2: u32 = src[at + 2] as u32;
    let b3: u32 = src[at + 3] as u32;
    b0 + b1 * 0x100 + b2 * 0x1_0000 + b3 * 0x100_0000
}

/// Reads the 64-bit little-endian field at `at`.
pub fn read_u64(src: &[u8], at: usize) -> (v: u64)
    requires
        at + 8 <= src.len(),
    ensures
        v == u64_from_le(src@.subrange(at as int, at + 8)),
{
    let lo: u64 = read_u32(src, at) as u64;
    let hi: u64 = read_u32(src, at + 4) as u64;
    proof {
        let s = src@.subrange(at as int, at + 8);
        assert(s.subrange(0, 4) =~= src@.subrange(at as int, at + 4));
        assert(s.subrange(4, 8) =~= src@.subrange(at + 4, at + 8));
    }
    lo + hi * 0x1_0000_0000
}

/// Reads the flag at `at`: 0 is clear, 1 is set, any other byte does not
/// decode.
pub fn read_flag(src: &[u8], at: usize) -> (r: Result<bool, LotteryError>)
    requires
        at < src.len(),
    ensures
        src@[at as int] <= 1 ==> r == Ok::<bool, LotteryError>(src@[at as int] == 1),
        src@[at as int] > 1 ==> r == Err::<bool, LotteryError>(LotteryError::InvalidAccountData),
{
    let b: u8 = src[at];
    if b == 0 {
        Ok(false)
    } else if b == 1 {
        Ok(true)
    } else {
        Err(LotteryError::InvalidAccountData)
    }
}

/// Reads the six numbers at `at`.
pub fn read_numbers(src: &[u8], at: usize) -> (numbers: [u8; 6])
    requires
        at + 6 <= src.len(),
    ensures
        numbers@ == src@.subrange(at as int, at + 6),
{
    let mut numbers: [u8; 6] = [0u8; 6];
    let mut i: usize = 0;
    while i < 6
        invariant
            i <= 6,
            at + 6 <= src.len(),
            forall|j: int| 0 <= j < i ==> numbers@[j] == src@[at + j],
        decreases 6 - i,
    {
        numbers[i] = src[at + i];
        i += 1;
    }
    assert(numbers@ =~= src@.subrange(at as int, at + 6));
    numbers
}

/// Reads the account identifier at `at`.
pub fn read_pubkey(src: &[u8], at: usize) -> (key: Pubkey)
    requires
        at + 32 <= src.len(),
    ensures
        key@ == src@.subrange(at as int, at + 32),
{
    let mut bytes: [u8; 32] = [0u8; 32];
    let mut i: usize = 0;
    while i < 32
        invariant
            i <= 32,
            at + 32 <= src.len(),
            forall|j: int| 0 <= j < i ==> bytes@[j] == src@[at + j],
        decreases 32 - i,
    {
        bytes[i] = src[at + i];
        i += 1;
    }
    assert(bytes@ =~= src@.subrange(at as int, at + 32));
    Pubkey { bytes }
}

/// Copies `piece` into `dst` from `at` on.
pub fn write_bytes(dst: &mut [u8], at: usize, piece: &[u8])
    requires
        at + piece.len() <= old(dst).len(),
    ensures
        final(dst)@ == splice(old(dst)@, at as int, piece@),
{
    let n: usize = piece.len();
    let mut i: usize = 0;
    while i < n
        invariant
            i <= n,
            n == piece@.len(),
            at + n <= dst.len(),
            dst@.len() == old(dst)@.len(),
            forall|j: int| 0 <= j < i ==> dst@[at + j] == piece@[j],
            forall|j: int| 0 <= j < at ==> dst@[j] == old(dst)@[j],
            forall|j: int| at + i <= j < dst@.len() ==> dst@[j] == old(dst)@[j],
        decreases n - i,
    {
        dst[at + i] = piece[i];
        i += 1;
    }
    assert(dst@ =~= splice(old(dst)@, at as int, piece@));
}

/// Writes `v` as a 32-bit little-endian field at `at`.
pub fn write_u32(dst: &mut [u8], at: usize, v: u32)
    requires
        at + 4 <= old(dst).len(),
    ensures
        final(dst)@ == splice(old(dst)@, at as int, u32_to_le(v)),
{
    dst[at] = (v % 0x100) as u8;
    dst[at + 1] = (v / 0x100 % 0x100) as u8;
    dst[at + 2] = (v / 0x1_0000 % 0x100) as u8;
    dst[at + 3] = (v / 0x100_0000) as u8;
    assert(dst@ =~= splice(old(dst)@, at as int, u32_to_le(v)));
}

/// Writes `v` as a 64-bit little-endian field at `at`.
pub fn write_u64(dst: &mut [u8], at: usize, v: u64)
    requires
        at + 8 <= old(dst).len(),
    ensures
        final(dst)@ == splice(old(dst)@, at as int, u64_to_le(v)),
{
    write_u32(dst, at, (v % 0x1_0000_0000) as u32);
    write_u32(dst, at + 4, (v / 0x1_0000_0000) as u32);
    assert(dst@ =~= splice(old(dst)@, at as int, u64_to_le(v)));
}

/// Writes a flag at `at` as one byte.
pub fn write_flag(dst: &mut [u8], at: usize, flag: bool)
    requires
        at < old(dst).len(),
    ensures
        final(dst)@ == splice(old(dst)@, at as int, seq![flag_byte(flag)]),
{
    dst[at] = if flag { 1 } else { 0 };
    assert(dst@ =~= splice(old(dst)@, at as int, seq![flag_byte(flag)]));
}

/// Appends `piece` to `buf`.
pub fn push_bytes(buf: &mut Vec<u8>, piece: &[u8])
    ensures
        final(buf)@ == old(buf)@ + piece@,
{
    let mut i: usize = 0;
    while i < piece.len()
        invariant
            i <= piece.len(),
            buf@ == old(buf)@ + piece@.subrange(0, i as int),
        decreases piece.len() - i,
    {
        buf.push(piece[i]);
        assert(buf@ =~= old(buf)@ + piece@.subrange(0, i + 1));
        i += 1;
    }
    assert(piece@.subrange(0, piece.len() as int) =~= piece@);
}

/// Appends `v` as a 32-bit little-endian field to `buf`.
pub fn push_u32(buf: &mut Vec<u8>, v: u32)
    ensures
        final(buf)@ == old(buf)@ + u32_to_le(v),
{
    buf.push((v % 0x100) as u8);
    buf.push((v / 0x100 % 0x100) as u8);
    buf.push((v / 0x1_0000 % 0x100) as u8);
    buf.push((v / 0x100_0000) as u8);
    assert(buf@ =~= old(buf)@ + u32_to_le(v));
}

} // verus!
