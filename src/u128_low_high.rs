use vstd::prelude::*;

verus! {

/// Splits an integer into its lower and higher halves and joins them back.
pub trait LowHigh: Sized {
    /// A type that holds half of the bits of `Self`.
    type Half;

    /// The lower half of the bits.
    fn low_half(self) -> Self::Half;

    /// The higher half of the bits.
    fn high_half(self) -> Self::Half;

    /// The integer whose higher half is `high` and whose lower half is `low`.
    fn from_halfs(high: Self::Half, low: Self::Half) -> Self;
}

/// 2^64, the weight of the higher half of a `u128`.
pub open spec fn half_base() -> int {
    0x1_0000_0000_0000_0000
}

impl LowHigh for u128 {
    type Half = u64;

    fn low_half(self) -> (r: u64)
        ensures
            r as int == self as int % half_base(),
    {
        let low = self & 0xffff_ffff_ffff_ffffu128;
        assert(self & 0xffff_ffff_ffff_ffffu128 == self % 0x1_0000_0000_0000_0000u128) by (bit_vector);
        low as u64
    }

    fn high_half(self) -> (r: u64)
        ensures
            r as int == self as int / half_base(),
    {
        let high = self >> 64u32;
        assert(self >> 64u32 == self / 0x1_0000_0000_0000_0000u128) by (bit_vector);
        high as u64
    }

    fn from_halfs(high: u64, low: u64) -> (r: u128)
        ensures
            r as int == high as int * half_base() + low as int,
    {
        let mut res = high as u128;
        res = res << 64u32;
        res = res | low as u128;
        assert(res == high as u128 * 0x1_0000_0000_0000_0000u128 + low as u128) by (bit_vector)
            requires
                res == ((high as u128) << 64u32) | low as u128,
        ;
        res
    }
}

} // verus!
