//! Slot identifiers: the bounded index of the capture map row that a
//! comparison or call site writes into.

use vstd::prelude::*;
use vstd::wrapping::u64_specs::wrapping_mul;

verus! {

/// The number of rows of the capture map.
pub const CMPLOG_MAP_W: u64 = 65536;

/// Multiplier of the address mixing function.
pub const HASH_MUL: u64 = 0x45d9f3b;

/// One xor-shift round of the address mixing function.
pub open spec fn xor_shift(x: u64) -> u64 {
    (x >> 16u64) ^ x
}

/// The address mixing function: xor-shift, multiply, xor-shift, multiply,
/// xor-shift, with multiplication modulo 2^64.
pub open spec fn mix(x: u64) -> u64 {
    xor_shift(
        wrapping_mul(
            xor_shift(wrapping_mul(xor_shift(x), HASH_MUL)),
            HASH_MUL,
        ),
    )
}

/// The slot that hashed allocation gives to `addr` in a map of `w` rows.
pub open spec fn hashed_slot_of(addr: u64, w: u64) -> u64
    recommends
        w > 0,
{
    (mix(addr) % w) as u64
}

/// Mixes the bits of a guest address.
pub fn hash_me(x: u64) -> (r: u64)
    ensures
        r == mix(x),
{
    let a: u64 = ((x >> 16) ^ x).wrapping_mul(HASH_MUL);
    let b: u64 = ((a >> 16) ^ a).wrapping_mul(HASH_MUL);
    (b >> 16) ^ b
}

/// Hashed allocation: a stateless slot for `addr` in a map of `w` rows.
pub fn hashed_slot(addr: u64, w: u64) -> (r: u64)
    requires
        w > 0,
    ensures
        r == hashed_slot_of(addr, w),
        r < w,
{
    hash_me(addr) % w
}

/// Hashed allocation is a pure function of the address: equal addresses
/// get equal slots whatever was allocated before, and every slot lies below
/// the width.
pub proof fn lemma_hashed_pure(a: u64, b: u64, w: u64)
    requires
        w > 0,
        a == b,
    ensures
        hashed_slot_of(a, w) == hashed_slot_of(b, w),
        hashed_slot_of(a, w) < w,
{
}

} // verus!
