//! Integers of any width up to eight bytes, as records store them: big-endian, and,
//! where signed, with the sign bit inverted so that byte order is numeric order.
use vstd::arithmetic::power2::{lemma2_to64, lemma2_to64_rest, lemma_pow2_adds, lemma_pow2_unfold, lemma_pow2_strictly_increases, pow2};
use vstd::prelude::*;

verus! {

/// The unsigned integer that the bytes of `s` encode, most significant byte first.
pub open spec fn be_uint(s: Seq<u8>) -> nat
    decreases s.len(),
{
    if s.len() == 0 {
        0
    } else {
        be_uint(s.drop_last()) * 256 + s.last() as nat
    }
}

/// The `len` bytes that encode `n`, most significant byte first.
pub open spec fn be_bytes(n: nat, len: nat) -> Seq<u8>
    decreases len,
{
    if len == 0 {
        Seq::empty()
    } else {
        be_bytes(n / 256, (len - 1) as nat).push((n % 256) as u8)
    }
}

/// The value of the sign bit of an integer of `len` bytes.
pub open spec fn sign_bit(len: nat) -> nat {
    pow2((8 * len - 1) as nat)
}

/// `u` with the sign bit of a `len`-byte integer inverted.
pub open spec fn flip_sign_bit(u: nat, len: nat) -> nat {
    if u >= sign_bit(len) {
        (u - sign_bit(len)) as nat
    } else {
        u + sign_bit(len)
    }
}

/// The integer that `u` stands for when its `len` bytes are read as two's complement.
pub open spec fn twos_complement_value(u: nat, len: nat) -> int {
    if u >= sign_bit(len) {
        u - 2 * sign_bit(len)
    } else {
        u as int
    }
}

/// The `len`-byte two's-complement code of `v`.
pub open spec fn twos_complement_code(v: int, len: nat) -> nat {
    if v >= 0 {
        v as nat
    } else {
        (v + 2 * sign_bit(len)) as nat
    }
}

/// The signed integer that the bytes of `s` encode on the wire: the big-endian integer
/// with its sign bit inverted, read as two's complement over the width of `s`.
pub open spec fn signed_wire_value(s: Seq<u8>) -> int {
    twos_complement_value(flip_sign_bit(be_uint(s), s.len()), s.len())
}

/// The wire form of the signed integer `v` in `len` bytes: its two's-complement code
/// with the sign bit inverted, most significant byte first.
pub open spec fn signed_wire_form(v: int, len: nat) -> Seq<u8> {
    be_bytes(flip_sign_bit(twos_complement_code(v, len), len), len)
}

/// The widths that integer columns have.
pub open spec fn is_integer_width(len: nat) -> bool {
    len == 1 || len == 2 || len == 3 || len == 4 || len == 6 || len == 8
}

/// A big-endian integer of so many bytes is below 256 to their number.
pub proof fn lemma_be_uint_bound(s: Seq<u8>)
    ensures
        be_uint(s) < pow2(8 * s.len()),
    decreases s.len(),
{
    lemma2_to64();
    if s.len() > 0 {
        lemma_be_uint_bound(s.drop_last());
        lemma_pow2_adds(8 * s.drop_last().len(), 8);
        assert(8 * s.drop_last().len() + 8 == 8 * s.len());
    }
}

/// Reading the bytes of a number that fits them gives the number back.
pub proof fn lemma_be_bytes_round_trip(n: nat, len: nat)
    requires
        n < pow2(8 * len),
    ensures
        be_bytes(n, len).len() == len,
        be_uint(be_bytes(n, len)) == n,
    decreases len,
{
    lemma2_to64();
    if len > 0 {
        lemma_pow2_adds((8 * (len - 1)) as nat, 8);
        assert(8 * (len - 1) + 8 == 8 * len);
        assert(n / 256 < pow2((8 * (len - 1)) as nat));
        lemma_be_bytes_round_trip(n / 256, (len - 1) as nat);
        let head = be_bytes(n / 256, (len - 1) as nat);
        assert(be_bytes(n, len).drop_last() == head);
    }
}

/// Inverting the sign bit and reading two's complement subtracts the sign bit: the
/// wire form is the offset-binary form.
pub proof fn lemma_signed_wire_value(s: Seq<u8>)
    requires
        s.len() >= 1,
    ensures
        signed_wire_value(s) == be_uint(s) - sign_bit(s.len()),
        -sign_bit(s.len()) <= signed_wire_value(s) < sign_bit(s.len()),
{
    lemma_be_uint_bound(s);
    lemma_pow2_unfold(8 * s.len());
}

/// Decoding the wire form of a signed integer gives the integer back, for every width
/// that integer columns have and every integer that the width can hold.
pub proof fn lemma_signed_round_trip(v: int, len: nat)
    requires
        is_integer_width(len),
        -sign_bit(len) <= v < sign_bit(len),
    ensures
        signed_wire_form(v, len).len() == len,
        signed_wire_value(signed_wire_form(v, len)) == v,
{
    lemma_pow2_unfold(8 * len);
    let code = flip_sign_bit(twos_complement_code(v, len), len);
    assert(code == v + sign_bit(len));
    lemma_be_bytes_round_trip(code, len);
}

/// The sign bits of the widths that integer columns have.
pub proof fn lemma_sign_bits()
    ensures
        sign_bit(1) == 0x80,
        sign_bit(2) == 0x8000,
        sign_bit(3) == 0x80_0000,
        sign_bit(4) == 0x8000_0000,
        sign_bit(6) == 0x8000_0000_0000,
        sign_bit(8) == 0x8000_0000_0000_0000,
{
    lemma2_to64();
    lemma2_to64_rest();
}

/// The sign bit of an integer of `len` bytes.
pub fn sign_bit_of(len: usize) -> (r: u64)
    requires
        is_integer_width(len as nat),
    ensures
        r == sign_bit(len as nat),
{
    proof {
        lemma_sign_bits();
    }
    if len == 1 {
        0x80
    } else if len == 2 {
        0x8000
    } else if len == 3 {
        0x80_0000
    } else if len == 4 {
        0x8000_0000
    } else if len == 6 {
        0x8000_0000_0000
    } else {
        0x8000_0000_0000_0000
    }
}

/// Reads the first `len` bytes of `buf` as a big-endian unsigned integer.
pub fn read_uint(buf: &[u8], len: usize) -> (r: u64)
    requires
        len <= 8,
        len <= buf.len(),
    ensures
        r == be_uint(buf@.subrange(0, len as int)),
{
    let mut num: u64 = 0;
    let mut i: usize = 0;
    while i < len
        invariant
            i <= len <= 8,
            len <= buf.len(),
            num == be_uint(buf@.subrange(0, i as int)),
        decreases len - i,
    {
        proof {
            let next = buf@.subrange(0, i + 1);
            assert(next.drop_last() == buf@.subrange(0, i as int));
            lemma_be_uint_bound(next);
            lemma2_to64();
            if 8 * next.len() < 64 {
                lemma_pow2_strictly_increases(8 * next.len(), 64);
            }
        }
        num = num * 256 + buf[i] as u64;
        i += 1;
    }
    num
}

/// Reads the first `len` bytes of `buf` as a signed integer in wire form.
pub fn read_signed(buf: &[u8], len: usize) -> (r: i64)
    requires
        is_integer_width(len as nat),
        len <= buf.len(),
    ensures
        r == signed_wire_value(buf@.subrange(0, len as int)),
{
    let num = read_uint(buf, len);
    let sign = sign_bit_of(len);
    proof {
        lemma_signed_wire_value(buf@.subrange(0, len as int));
        lemma_sign_bits();
    }
    if num >= sign {
        (num - sign) as i64
    } else {
        ((num as i128) - (sign as i128)) as i64
    }
}

/// Reads the first `len` bytes of `buf` as a signed integer in plain two's complement,
/// most significant byte first.
pub fn read_twos_complement(buf: &[u8], len: usize) -> (r: i64)
    requires
        1 <= len <= 8,
        len <= buf.len(),
    ensures
        r == twos_complement_value(be_uint(buf@.subrange(0, len as int)), len as nat),
{
    let num = read_uint(buf, len);
    proof {
        lemma_be_uint_bound(buf@.subrange(0, len as int));
        lemma_pow2_unfold(8 * (len as nat));
        lemma2_to64();
        lemma2_to64_rest();
    }
    let sign: u64 = if len == 1 {
        0x80
    } else if len == 2 {
        0x8000
    } else if len == 3 {
        0x80_0000
    } else if len == 4 {
        0x8000_0000
    } else if len == 5 {
        0x80_0000_0000
    } else if len == 6 {
        0x8000_0000_0000
    } else if len == 7 {
        0x80_0000_0000_0000
    } else {
        0x8000_0000_0000_0000
    };
    if num >= sign {
        ((num as i128) - 2 * (sign as i128)) as i64
    } else {
        num as i64
    }
}

} // verus!
