//! Little-endian integers in byte sequences.
use vstd::prelude::*;

verus! {

pub open spec fn le32_spec(v: u32) -> Seq<u8> {
    seq![
        (v % 256) as u8,
        (v / 256 % 256) as u8,
        (v / 65536 % 256) as u8,
        (v / 16777216) as u8,
    ]
}

pub open spec fn le64_spec(v: u64) -> Seq<u8> {
    le32_spec((v % 0x1_0000_0000) as u32) + le32_spec((v / 0x1_0000_0000) as u32)
}

/// The integer in the first four bytes.
pub open spec fn read32_spec(s: Seq<u8>) -> u32 {
    (s[0] + s[1] * 256 + s[2] * 65536 + s[3] * 16777216) as u32
}

/// The integer in the first eight bytes.
pub open spec fn read64_spec(s: Seq<u8>) -> u64 {
    (read32_spec(s) + read32_spec(s.skip(4)) * 0x1_0000_0000) as u64
}

/// What was written reads back.
pub proof fn read32_le32(v: u32, rest: Seq<u8>)
    ensures
        read32_spec(le32_spec(v) + rest) == v,
        le32_spec(v).len() == 4,
{
    let s = le32_spec(v) + rest;
    assert(s[0] == v % 256 && s[1] == v / 256 % 256 && s[2] == v / 65536 % 256 && s[3] == v / 16777216);
}

/// What was written reads back.
pub proof fn read64_le64(v: u64, rest: Seq<u8>)
    ensures
        read64_spec(le64_spec(v) + rest) == v,
        le64_spec(v).len() == 8,
{
    let lo = (v % 0x1_0000_0000) as u32;
    let hi = (v / 0x1_0000_0000) as u32;
    let s = le64_spec(v) + rest;
    assert(s =~= le32_spec(lo) + (le32_spec(hi) + rest));
    read32_le32(lo, le32_spec(hi) + rest);
    assert(s.skip(4) =~= le32_spec(hi) + rest);
    read32_le32(hi, rest);
}

pub fn put_le32(out: &mut Vec<u8>, v: u32)
    ensures
        final(out)@ == old(out)@ + le32_spec(v),
{
    let ghost had = out@;
    out.push((v % 256) as u8);
    out.push((v / 256 % 256) as u8);
    out.push((v / 65536 % 256) as u8);
    out.push((v / 16777216) as u8);
    assert(out@ =~= had + le32_spec(v));
}

pub fn put_le64(out: &mut Vec<u8>, v: u64)
    ensures
        final(out)@ == old(out)@ + le64_spec(v),
{
    let ghost had = out@;
    put_le32(out, (v % 0x1_0000_0000) as u32);
    put_le32(out, (v / 0x1_0000_0000) as u32);
    assert(out@ =~= had + le64_spec(v));
}

/// Appends every byte of `src`.
pub fn put_all(out: &mut Vec<u8>, src: &Vec<u8>)
    ensures
        final(out)@ == old(out)@ + src@,
{
    let ghost had = out@;
    for i in 0..src.len()
        invariant
            out@ == had + src@.take(i as int),
    {
        out.push(src[i]);
        assert(out@ =~= had + src@.take(i + 1));
    }
    assert(src@.take(src@.len() as int) =~= src@);
}

/// `n` zero bytes.
pub open spec fn zeros(n: nat) -> Seq<u8> {
    Seq::new(n, |i: int| 0u8)
}

pub fn put_zeros(out: &mut Vec<u8>, n: usize)
    ensures
        final(out)@ == old(out)@ + zeros(n as nat),
{
    let ghost had = out@;
    for i in 0..n
        invariant
            out@ == had + zeros(i as nat),
    {
        out.push(0);
        assert(out@ =~= had + zeros((i + 1) as nat));
    }
}

/// Reads four bytes at `at`.
pub fn get_le32(buf: &Vec<u8>, at: usize) -> (r: u32)
    requires
        at + 4 <= buf.len(),
    ensures
        r == read32_spec(buf@.skip(at as int)),
{
    proof {
        let s = buf@.skip(at as int);
        assert(s[0] == buf@[at as int] && s[1] == buf@[at + 1] && s[2] == buf@[at + 2] && s[3] == buf@[at + 3]);
    }
    buf[at] as u32 + buf[at + 1] as u32 * 256 + buf[at + 2] as u32 * 65536 + buf[at + 3] as u32 * 16777216
}

/// Reads eight bytes at `at`.
pub fn get_le64(buf: &Vec<u8>, at: usize) -> (r: u64)
    requires
        at + 8 <= buf.len(),
    ensures
        r == read64_spec(buf@.skip(at as int)),
{
    let lo: u32 = get_le32(buf, at);
    let hi: u32 = get_le32(buf, at + 4);
    assert(buf@.skip(at as int).skip(4) =~= buf@.skip(at + 4));
    lo as u64 + hi as u64 * 0x1_0000_0000
}

/// A copy of `buf[from..to]`.
pub fn copy_range(buf: &Vec<u8>, from: usize, to: usize) -> (r: Vec<u8>)
    requires
        from <= to <= buf.len(),
    ensures
        r@ == buf@.subrange(from as int, to as int),
{
    let mut out: Vec<u8> = Vec::new();
    let mut i: usize = from;
    while i < to
        invariant
            from <= i <= to <= buf.len(),
            out@ == buf@.subrange(from as int, i as int),
        decreases to - i,
    {
        out.push(buf[i]);
        assert(out@ =~= buf@.subrange(from as int, i + 1));
        i = i + 1;
    }
    out
}

/// A signed integer's bits.
pub open spec fn bits_of(v: i32) -> u32 {
    if v < 0 { (v + 0x1_0000_0000) as u32 } else { v as u32 }
}

/// The signed integer of these bits.
pub open spec fn signed_of(v: u32) -> i32 {
    if v >= 0x8000_0000 { (v - 0x1_0000_0000) as i32 } else { v as i32 }
}

pub fn to_bits(v: i32) -> (r: u32)
    ensures
        r == bits_of(v),
        signed_of(r) == v,
{
    if v < 0 {
        (v as i64 + 0x1_0000_0000) as u32
    } else {
        v as u32
    }
}

pub fn from_bits(v: u32) -> (r: i32)
    ensures
        r == signed_of(v),
        bits_of(r) == v,
{
    if v >= 0x8000_0000 {
        (v as i64 - 0x1_0000_0000) as i32
    } else {
        v as i32
    }
}

} // verus!
