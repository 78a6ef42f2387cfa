use vstd::prelude::*;

verus! {

/// Number of raw units of a [`Scale`] that make one.
pub const SCALE_ONE: u64 = 1024;

/// Viewing scale in fixed-point representation: an unsigned 64-bit integer
/// that stands for its value multiplied by 1024.
///
/// Unlike a float, a scale can be a key of a map. The largest scales are
/// close to what 32 bits hold, so 64 bits leave room.
#[derive(Debug, Clone, Copy, PartialEq, Eq, Hash, PartialOrd, Ord, Structural)]
pub struct Scale(pub u64);

impl View for Scale {
    type V = int;

    /// The raw units as a mathematical integer.
    open spec fn view(&self) -> int {
        self.0 as int
    }
}

impl Scale {
    pub fn from_bits(bits: u64) -> (r: Self)
        ensures
            r@ == bits,
    {
        Scale(bits)
    }

    pub fn to_bits(self) -> (bits: u64)
        ensures
            bits == self@,
    {
        self.0
    }

    /// The whole number `n`, exactly.
    pub fn from_int(n: u32) -> (r: Self)
        ensures
            r@ == n * SCALE_ONE,
    {
        let wide: u64 = n as u64;
        Scale(wide * SCALE_ONE)
    }

    /// Largest whole number that is not above the scale.
    pub fn to_int(self) -> (n: u64)
        ensures
            n == self@ / (SCALE_ONE as int),
    {
        self.0 / SCALE_ONE
    }

    /// The scale multiplied by `num / den` and rounded down, or `None` when
    /// `den` is zero or the result does not fit in 64 bits.
    pub fn checked_mul_ratio(self, num: u64, den: u64) -> (r: Option<Scale>)
        ensures
            den != 0 && (self@ * num) / (den as int) <= u64::MAX ==> r.is_some() && r.unwrap()@
                == (self@ * num) / (den as int),
            den == 0 || (self@ * num) / (den as int) > u64::MAX ==> r.is_none(),
    {
        if den == 0 {
            return None;
        }
        assert(0 <= self@ * num <= 0xffff_ffff_ffff_ffff * 0xffff_ffff_ffff_ffff)
            by (nonlinear_arith)
            requires
                0 <= self@ <= 0xffff_ffff_ffff_ffff,
                0 <= num <= 0xffff_ffff_ffff_ffff,
        ;
        let wide: u128 = (self.0 as u128) * (num as u128);
        let q: u128 = wide / (den as u128);
        if q > u64::MAX as u128 {
            None
        } else {
            Some(Scale(q as u64))
        }
    }
}

} // verus!
