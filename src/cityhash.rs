use vstd::prelude::*;

use crate::u128_low_high::{half_base, LowHigh};

verus! {

/// CityHash v1.0.2 (128-bit) of `b`, as `cityhash_rs::cityhash_102_128` packs
/// it: the first word of the algorithm's pair in the higher half.
pub uninterp spec fn cityhash_102_of(b: Seq<u8>) -> u128;

/// Relies on `cityhash_rs::cityhash_102_128`: a pure function of the bytes.
#[verifier::external_body]
fn cityhash_102(bytes: &[u8]) -> (r: u128)
    ensures
        r == cityhash_102_of(bytes@),
{
    cityhash_rs::cityhash_102_128(bytes)
}

/// `x` with its two 64-bit halves exchanged.
pub open spec fn swap_halves(x: u128) -> int {
    (x as int % half_base()) * half_base() + x as int / half_base()
}

/// The 128-bit block checksum of `b`: the first word of the CityHash v1.0.2
/// pair in the lower half, the second in the higher half.
pub open spec fn checksum_of(b: Seq<u8>) -> int {
    swap_halves(cityhash_102_of(b))
}

/// The 128-bit CityHash v1.0.2 of `bytes`, with the first word of the
/// algorithm's pair in the lower half.
pub fn city_hash_128(bytes: &[u8]) -> (r: u128)
    ensures
        r as int == checksum_of(bytes@),
{
    let h = cityhash_102(bytes);
    u128::from_halfs(h.low_half(), h.high_half())
}

} // verus!
