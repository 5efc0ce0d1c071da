//! Big-endian integers as they appear in page and record layouts.
use vstd::prelude::*;

verus! {

/// The 16-bit big-endian integer stored at `s[at..at + 2]`.
pub open spec fn be_u16(s: Seq<u8>, at: int) -> u16 {
    (s[at] * 0x100 + s[at + 1]) as u16
}

/// The 32-bit big-endian integer stored at `s[at..at + 4]`.
pub open spec fn be_u32(s: Seq<u8>, at: int) -> u32 {
    (s[at] * 0x100_0000 + s[at + 1] * 0x1_0000 + s[at + 2] * 0x100 + s[at + 3]) as u32
}

/// The 48-bit big-endian integer stored at `s[at..at + 6]`.
pub open spec fn be_u48(s: Seq<u8>, at: int) -> u64 {
    (s[at] * 0x100_0000_0000 + s[at + 1] * 0x1_0000_0000 + s[at + 2] * 0x100_0000 + s[at + 3]
        * 0x1_0000 + s[at + 4] * 0x100 + s[at + 5]) as u64
}

/// The 64-bit big-endian integer stored at `s[at..at + 8]`.
pub open spec fn be_u64(s: Seq<u8>, at: int) -> u64 {
    (s[at] * 0x100_0000_0000_0000 + s[at + 1] * 0x1_0000_0000_0000 + s[at + 2]
        * 0x100_0000_0000 + s[at + 3] * 0x1_0000_0000 + s[at + 4] * 0x100_0000 + s[at + 5]
        * 0x1_0000 + s[at + 6] * 0x100 + s[at + 7]) as u64
}

/// The signed 16-bit big-endian integer (two's complement) stored at `s[at..at + 2]`.
pub open spec fn be_i16(s: Seq<u8>, at: int) -> i16 {
    let u = be_u16(s, at);
    if u >= 0x8000 {
        (u - 0x1_0000) as i16
    } else {
        u as i16
    }
}

/// Reads the 16-bit big-endian integer at `at`.
pub fn read_u16(buf: &[u8], at: usize) -> (r: u16)
    requires
        at + 2 <= buf.len(),
    ensures
        r == be_u16(buf@, at as int),
{
    (buf[at] as u16) * 0x100 + (buf[at + 1] as u16)
}

/// Reads the 32-bit big-endian integer at `at`.
pub fn read_u32(buf: &[u8], at: usize) -> (r: u32)
    requires
        at + 4 <= buf.len(),
    ensures
        r == be_u32(buf@, at as int),
{
    (buf[at] as u32) * 0x100_0000 + (buf[at + 1] as u32) * 0x1_0000 + (buf[at + 2] as u32) * 0x100
        + (buf[at + 3] as u32)
}

/// Reads the 48-bit big-endian integer at `at`.
pub fn read_u48(buf: &[u8], at: usize) -> (r: u64)
    requires
        at + 6 <= buf.len(),
    ensures
        r == be_u48(buf@, at as int),
        r < 0x1_0000_0000_0000,
{
    (buf[at] as u64) * 0x100_0000_0000 + (buf[at + 1] as u64) * 0x1_0000_0000 + (buf[at + 2] as u64)
        * 0x100_0000 + (buf[at + 3] as u64) * 0x1_0000 + (buf[at + 4] as u64) * 0x100 + (buf[at
        + 5] as u64)
}

/// Reads the 64-bit big-endian integer at `at`.
pub fn read_u64(buf: &[u8], at: usize) -> (r: u64)
    requires
        at + 8 <= buf.len(),
    ensures
        r == be_u64(buf@, at as int),
{
    (buf[at] as u64) * 0x100_0000_0000_0000 + (buf[at + 1] as u64) * 0x1_0000_0000_0000 + (buf[at
        + 2] as u64) * 0x100_0000_0000 + (buf[at + 3] as u64) * 0x1_0000_0000 + (buf[at
        + 4] as u64) * 0x100_0000 + (buf[at + 5] as u64) * 0x1_0000 + (buf[at + 6] as u64) * 0x100
        + (buf[at + 7] as u64)
}

/// Reads the signed 16-bit big-endian integer at `at`.
pub fn read_i16(buf: &[u8], at: usize) -> (r: i16)
    requires
        at + 2 <= buf.len(),
    ensures
        r == be_i16(buf@, at as int),
{
    let u: u16 = read_u16(buf, at);
    if u >= 0x8000 {
        ((u as i32) - 0x1_0000) as i16
    } else {
        u as i16
    }
}

} // verus!

verus! {

/// What `dst` holds after as much of `src` as fits was copied to its start.
pub open spec fn overwritten_prefix(dst: Seq<u8>, src: Seq<u8>) -> Seq<u8> {
    if src.len() <= dst.len() {
        src + dst.subrange(src.len() as int, dst.len() as int)
    } else {
        src.subrange(0, dst.len() as int)
    }
}

/// Copies as much of `src` as fits to the start of `dst`, and returns how many bytes
/// that was.
pub fn copy_prefix(dst: &mut [u8], src: &[u8]) -> (n: usize)
    ensures
        n == if src@.len() <= old(dst)@.len() { src@.len() } else { old(dst)@.len() },
        final(dst)@ == overwritten_prefix(old(dst)@, src@),
{
    let n: usize = if src.len() <= dst.len() { src.len() } else { dst.len() };
    let mut i: usize = 0;
    while i < n
        invariant
            i <= n,
            n <= src@.len(),
            n <= dst@.len(),
            dst@.len() == old(dst)@.len(),
            forall|k: int| 0 <= k < i ==> dst@[k] == src@[k],
            forall|k: int| i <= k < dst@.len() ==> dst@[k] == old(dst)@[k],
        decreases n - i,
    {
        dst[i] = src[i];
        i += 1;
    }
    assert(dst@ =~= overwritten_prefix(old(dst)@, src@));
    n
}

} // verus!
