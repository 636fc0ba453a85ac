//! Big-endian byte encodings of the fixed-width integers used by the
//! deterministic serialization of signature payloads and snapshots.

use vstd::prelude::*;

verus! {

/// The four big-endian bytes of a 32-bit unsigned integer.
pub open spec fn u32_be(x: u32) -> Seq<u8> {
    seq![
        (x >> 24) as u8,
        (x >> 16) as u8,
        (x >> 8) as u8,
        x as u8,
    ]
}

/// The eight big-endian bytes of a 64-bit unsigned integer.
pub open spec fn u64_be(x: u64) -> Seq<u8> {
    seq![
        (x >> 56) as u8,
        (x >> 48) as u8,
        (x >> 40) as u8,
        (x >> 32) as u8,
        (x >> 24) as u8,
        (x >> 16) as u8,
        (x >> 8) as u8,
        x as u8,
    ]
}

/// The eight big-endian bytes of a 64-bit signed integer (two's complement).
pub open spec fn i64_be(x: i64) -> Seq<u8> {
    u64_be(x as u64)
}

/// The four big-endian bytes of a 32-bit signed integer (two's complement).
pub open spec fn i32_be(x: i32) -> Seq<u8> {
    u32_be(x as u32)
}

/// Appends the big-endian bytes of `x` to `out`.
pub fn push_u32_be(out: &mut Vec<u8>, x: u32)
    ensures
        final(out)@ == old(out)@ + u32_be(x),
{
    out.push((x >> 24) as u8);
    out.push((x >> 16) as u8);
    out.push((x >> 8) as u8);
    out.push(x as u8);
    proof {
        assert(out@ =~= old(out)@ + u32_be(x));
    }
}

/// Appends the big-endian bytes of `x` to `out`.
pub fn push_u64_be(out: &mut Vec<u8>, x: u64)
    ensures
        final(out)@ == old(out)@ + u64_be(x),
{
    out.push((x >> 56) as u8);
    out.push((x >> 48) as u8);
    out.push((x >> 40) as u8);
    out.push((x >> 32) as u8);
    out.push((x >> 24) as u8);
    out.push((x >> 16) as u8);
    out.push((x >> 8) as u8);
    out.push(x as u8);
    proof {
        assert(out@ =~= old(out)@ + u64_be(x));
    }
}

/// Appends the big-endian two's-complement bytes of `x` to `out`.
pub fn push_i64_be(out: &mut Vec<u8>, x: i64)
    ensures
        final(out)@ == old(out)@ + i64_be(x),
{
    push_u64_be(out, x as u64);
}

/// Appends the big-endian two's-complement bytes of `x` to `out`.
pub fn push_i32_be(out: &mut Vec<u8>, x: i32)
    ensures
        final(out)@ == old(out)@ + i32_be(x),
{
    push_u32_be(out, x as u32);
}

/// A length-prefixed byte string: eight big-endian length bytes, then the
/// bytes themselves.
pub open spec fn ser_bytes(b: Seq<u8>) -> Seq<u8> {
    u64_be(b.len() as u64) + b
}

/// Appends `b`'s bytes to `out`.
pub fn write_raw(out: &mut Vec<u8>, b: &Vec<u8>)
    ensures
        final(out)@ == old(out)@ + b@,
{
    let mut i: usize = 0;
    while i < b.len()
        invariant
            i <= b@.len(),
            out@ == old(out)@ + b@.take(i as int),
        decreases b@.len() - i,
    {
        out.push(b[i]);
        proof {
            assert(out@ =~= old(out)@ + b@.take(i as int + 1));
        }
        i += 1;
    }
    proof {
        assert(b@.take(b@.len() as int) =~= b@);
    }
}

/// Appends the length-prefixed serialization of `b` to `out`.
pub fn write_bytes(out: &mut Vec<u8>, b: &Vec<u8>)
    ensures
        final(out)@ == old(out)@ + ser_bytes(b@),
{
    push_u64_be(out, b.len() as u64);
    write_raw(out, b);
    proof {
        assert(out@ =~= old(out)@ + ser_bytes(b@));
    }
}

} // verus!
