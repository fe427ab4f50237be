//! Termination signals: which ones are taken, and when the loop stops.
use crate::bytes::{get_le32, read32_spec};
use vstd::prelude::*;

verus! {

pub const SIGINT: u32 = 2;

pub const SIGTERM: u32 = 15;

/// The kernel's signal set: bit `n - 1` stands for signal `n`.
pub open spec fn in_set(set: u64, signo: u32) -> bool {
    set & (1u64 << ((signo - 1) as u64)) != 0
}

/// Int and term.
pub fn mask() -> (r: u64)
    ensures
        r == (1u64 << 1u64) | (1u64 << 14u64),
        r == 0x4002,
{
    let m: u64 = (1u64 << (SIGINT - 1)) | (1u64 << (SIGTERM - 1));
    assert((1u64 << 1u32) | (1u64 << 14u32) == 0x4002) by (bit_vector);
    assert((1u64 << 1u64) | (1u64 << 14u64) == 0x4002) by (bit_vector);
    m
}

/// The set holds int and term and no other signal.
pub proof fn the_mask_is_int_and_term(signo: u32)
    requires
        1 <= signo <= 64,
    ensures
        in_set(0x4002, signo) <==> signo == SIGINT || signo == SIGTERM,
{
    let k = (signo - 1) as u64;
    assert(0x4002u64 & (1u64 << k) != 0 <==> k == 1 || k == 14) by (bit_vector)
        requires
            k < 64,
    ;
}

/// Whether a record read from the signal descriptor ends the loop: its first word is
/// the signal's number. A short read is ignored.
pub fn stops(record: &Vec<u8>, n: usize) -> (r: bool)
    requires
        n <= record@.len(),
    ensures
        r == (n >= 4 && (read32_spec(record@) == SIGINT || read32_spec(record@) == SIGTERM)),
{
    if n < 4 {
        return false;
    }
    let signo: u32 = get_le32(record, 0);
    assert(record@.skip(0) =~= record@);
    signo == SIGINT || signo == SIGTERM
}

} // verus!
