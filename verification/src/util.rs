use vstd::prelude::*;

verus! {

/// Number of fractional bits of a [`Fixed`] value.
pub const FIXED_FRAC_BITS: u32 = 24;

/// Raw representation of the value one.
pub const FIXED_ONE: i64 = 0x100_0000;

/// True when `n` can be held by the 64 raw bits of a [`Fixed`].
pub open spec fn fits_i64(n: int) -> bool {
    i64::MIN <= n <= i64::MAX
}

/// Quotient of `n` by `d` rounded towards zero, for a divisor other than zero.
pub open spec fn trunc_div(n: int, d: int) -> int
    recommends
        d != 0,
{
    if n >= 0 && d > 0 {
        n / d
    } else if n >= 0 {
        -(n / (-d))
    } else if d > 0 {
        -((-n) / d)
    } else {
        (-n) / (-d)
    }
}

/// Raw bits of the product of two raw values: the exact product scaled back by
/// 2^24 and rounded towards minus infinity.
pub open spec fn mul_bits(a: int, b: int) -> int {
    (a * b) / (FIXED_ONE as int)
}

/// Raw bits of the quotient of two raw values: the dividend scaled up by 2^24,
/// divided, and rounded towards zero.
pub open spec fn div_bits(a: int, b: int) -> int
    recommends
        b != 0,
{
    trunc_div(a * (FIXED_ONE as int), b)
}

/// Raw bits of the largest whole number that is not above the raw value `a`.
pub open spec fn floor_bits(a: int) -> int {
    (a / (FIXED_ONE as int)) * (FIXED_ONE as int)
}

/// Raw bits of the smallest whole number that is not below the raw value `a`.
pub open spec fn ceil_bits(a: int) -> int {
    ((a + (FIXED_ONE as int) - 1) / (FIXED_ONE as int)) * (FIXED_ONE as int)
}

/// Calls `fixed::FixedI64::<U24>::checked_mul` on two raw values.
///
/// The contract claims what the crate's widening multiplication computes: the
/// 128-bit product shifted right arithmetically by the 24 fractional bits, and
/// `None` exactly when that does not fit in 64 bits.
#[verifier::external_body]
fn raw_checked_mul(a: i64, b: i64) -> (r: Option<i64>)
    ensures
        fits_i64(mul_bits(a as int, b as int)) ==> r == Some(mul_bits(a as int, b as int) as i64),
        !fits_i64(mul_bits(a as int, b as int)) ==> r.is_none(),
{
    let x = fixed::FixedI64::<fixed::types::extra::U24>::from_bits(a);
    let y = fixed::FixedI64::<fixed::types::extra::U24>::from_bits(b);
    x.checked_mul(y).map(|p| p.to_bits())
}

/// Calls `fixed::FixedI64::<U24>::checked_div` on two raw values.
///
/// The contract claims what the crate's widening division computes: the
/// dividend shifted left by the 24 fractional bits and divided in 128 bits with
/// Rust's truncating division, and `None` exactly when the divisor is zero or
/// the quotient does not fit in 64 bits.
#[verifier::external_body]
fn raw_checked_div(a: i64, b: i64) -> (r: Option<i64>)
    ensures
        b != 0 && fits_i64(div_bits(a as int, b as int)) ==> r == Some(
            div_bits(a as int, b as int) as i64,
        ),
        b == 0 || !fits_i64(div_bits(a as int, b as int)) ==> r.is_none(),
{
    let x = fixed::FixedI64::<fixed::types::extra::U24>::from_bits(a);
    let y = fixed::FixedI64::<fixed::types::extra::U24>::from_bits(b);
    x.checked_div(y).map(|q| q.to_bits())
}

/// Fixed-point number of the viewer: a signed 64-bit integer that stands for
/// its value multiplied by 2^24.
///
/// Two numbers are equal exactly when their raw bits are, so a value can be
/// part of a cache key.
#[derive(Debug, Clone, Copy, Hash, PartialEq, Eq, Structural)]
pub struct Fixed {
    pub bits: i64,
}

impl View for Fixed {
    type V = int;

    /// The raw bits as a mathematical integer.
    open spec fn view(&self) -> int {
        self.bits as int
    }
}

impl Default for Fixed {
    fn default() -> (r: Self)
        ensures
            r@ == 0,
    {
        Fixed { bits: 0 }
    }
}

impl Fixed {
    /// The value zero.
    pub fn zero() -> (r: Self)
        ensures
            r@ == 0,
    {
        Fixed { bits: 0 }
    }

    /// The value one.
    pub fn one() -> (r: Self)
        ensures
            r@ == FIXED_ONE,
    {
        Fixed { bits: FIXED_ONE }
    }

    pub fn from_bits(bits: i64) -> (r: Self)
        ensures
            r@ == bits,
    {
        Fixed { bits }
    }

    pub fn to_bits(self) -> (bits: i64)
        ensures
            bits == self@,
    {
        self.bits
    }

    /// The whole number `n`, exactly.
    pub fn from_int(n: i32) -> (r: Self)
        ensures
            r@ == n * FIXED_ONE,
    {
        let wide: i64 = n as i64;
        Fixed { bits: wide * FIXED_ONE }
    }

    /// The whole number `n`, or `None` when it has more than 39 bits.
    pub fn checked_from_int(n: i64) -> (r: Option<Self>)
        ensures
            fits_i64(n * FIXED_ONE) ==> r.is_some() && r.unwrap()@ == n * FIXED_ONE,
            !fits_i64(n * FIXED_ONE) ==> r.is_none(),
    {
        match n.checked_mul(FIXED_ONE) {
            Some(bits) => Some(Fixed { bits }),
            None => None,
        }
    }

    /// Sum, or `None` on overflow.
    pub fn checked_add(self, rhs: Fixed) -> (r: Option<Fixed>)
        ensures
            fits_i64(self@ + rhs@) ==> r.is_some() && r.unwrap()@ == self@ + rhs@,
            !fits_i64(self@ + rhs@) ==> r.is_none(),
    {
        match self.bits.checked_add(rhs.bits) {
            Some(bits) => Some(Fixed { bits }),
            None => None,
        }
    }

    /// Difference, or `None` on overflow.
    pub fn checked_sub(self, rhs: Fixed) -> (r: Option<Fixed>)
        ensures
            fits_i64(self@ - rhs@) ==> r.is_some() && r.unwrap()@ == self@ - rhs@,
            !fits_i64(self@ - rhs@) ==> r.is_none(),
    {
        match self.bits.checked_sub(rhs.bits) {
            Some(bits) => Some(Fixed { bits }),
            None => None,
        }
    }

    /// Product rounded towards minus infinity, or `None` on overflow.
    pub fn checked_mul(self, rhs: Fixed) -> (r: Option<Fixed>)
        ensures
            fits_i64(mul_bits(self@, rhs@)) ==> r.is_some() && r.unwrap()@ == mul_bits(
                self@,
                rhs@,
            ),
            !fits_i64(mul_bits(self@, rhs@)) ==> r.is_none(),
    {
        match raw_checked_mul(self.bits, rhs.bits) {
            Some(bits) => Some(Fixed { bits }),
            None => None,
        }
    }

    /// Quotient rounded towards zero, or `None` when the divisor is zero or on
    /// overflow.
    pub fn checked_div(self, rhs: Fixed) -> (r: Option<Fixed>)
        ensures
            rhs@ != 0 && fits_i64(div_bits(self@, rhs@)) ==> r.is_some() && r.unwrap()@
                == div_bits(self@, rhs@),
            rhs@ == 0 || !fits_i64(div_bits(self@, rhs@)) ==> r.is_none(),
    {
        match raw_checked_div(self.bits, rhs.bits) {
            Some(bits) => Some(Fixed { bits }),
            None => None,
        }
    }

    /// Largest whole number that is not above `self`, as an integer.
    pub fn floor_to_int(self) -> (n: i64)
        ensures
            n == self@ / (FIXED_ONE as int),
    {
        let q: i64 = self.bits / FIXED_ONE;
        let r: i64 = self.bits % FIXED_ONE;
        if r < 0 {
            q - 1
        } else {
            q
        }
    }

    /// Smallest whole number that is not below `self`, as an integer.
    pub fn ceil_to_int(self) -> (n: i64)
        ensures
            n == (self@ + (FIXED_ONE as int) - 1) / (FIXED_ONE as int),
    {
        let q: i64 = self.bits / FIXED_ONE;
        let r: i64 = self.bits % FIXED_ONE;
        if r > 0 {
            q + 1
        } else {
            q
        }
    }

    /// Largest whole number that is not above `self`.
    pub fn floor(self) -> (r: Fixed)
        ensures
            r@ == floor_bits(self@),
    {
        let n: i64 = self.floor_to_int();
        Fixed { bits: n * FIXED_ONE }
    }

    /// Smallest whole number that is not below `self`, or `None` on overflow.
    pub fn checked_ceil(self) -> (r: Option<Fixed>)
        ensures
            fits_i64(ceil_bits(self@)) ==> r.is_some() && r.unwrap()@ == ceil_bits(self@),
            !fits_i64(ceil_bits(self@)) ==> r.is_none(),
    {
        let n: i64 = self.ceil_to_int();
        match n.checked_mul(FIXED_ONE) {
            Some(bits) => Some(Fixed { bits }),
            None => None,
        }
    }

    pub fn lt(self, rhs: Fixed) -> (b: bool)
        ensures
            b == (self@ < rhs@),
    {
        self.bits < rhs.bits
    }

    pub fn le(self, rhs: Fixed) -> (b: bool)
        ensures
            b == (self@ <= rhs@),
    {
        self.bits <= rhs.bits
    }

    /// The smaller of two values.
    pub fn min(self, rhs: Fixed) -> (r: Fixed)
        ensures
            r@ == if self@ <= rhs@ {
                self@
            } else {
                rhs@
            },
    {
        if self.bits <= rhs.bits {
            self
        } else {
            rhs
        }
    }

    /// The larger of two values.
    pub fn max(self, rhs: Fixed) -> (r: Fixed)
        ensures
            r@ == if self@ >= rhs@ {
                self@
            } else {
                rhs@
            },
    {
        if self.bits >= rhs.bits {
            self
        } else {
            rhs
        }
    }

    /// `self` moved into `[lo, hi]`.
    pub fn clamp(self, lo: Fixed, hi: Fixed) -> (r: Fixed)
        requires
            lo@ <= hi@,
        ensures
            r@ == clamp_bits(self@, lo@, hi@),
    {
        if self.bits < lo.bits {
            lo
        } else if self.bits > hi.bits {
            hi
        } else {
            self
        }
    }
}

/// `v` moved into `[lo, hi]`.
pub open spec fn clamp_bits(v: int, lo: int, hi: int) -> int {
    if v < lo {
        lo
    } else if v > hi {
        hi
    } else {
        v
    }
}

/// Pair of fixed-point numbers, one per axis.
#[derive(Debug, Clone, Copy, Hash, PartialEq, Eq, Structural)]
pub struct FixedVec2 {
    pub x: Fixed,
    pub y: Fixed,
}

impl Default for FixedVec2 {
    fn default() -> (r: Self)
        ensures
            r.x@ == 0,
            r.y@ == 0,
    {
        FixedVec2 { x: Fixed { bits: 0 }, y: Fixed { bits: 0 } }
    }
}

impl FixedVec2 {
    /// Sum by component, or `None` when a component overflows.
    pub fn checked_add(self, rhs: FixedVec2) -> (r: Option<FixedVec2>)
        ensures
            fits_i64(self.x@ + rhs.x@) && fits_i64(self.y@ + rhs.y@) ==> r.is_some()
                && r.unwrap().x@ == self.x@ + rhs.x@ && r.unwrap().y@ == self.y@ + rhs.y@,
            !(fits_i64(self.x@ + rhs.x@) && fits_i64(self.y@ + rhs.y@)) ==> r.is_none(),
    {
        match (self.x.checked_add(rhs.x), self.y.checked_add(rhs.y)) {
            (Some(x), Some(y)) => Some(FixedVec2 { x, y }),
            _ => None,
        }
    }

    /// Both components multiplied by `rhs`, or `None` when a component
    /// overflows.
    pub fn checked_mul(self, rhs: Fixed) -> (r: Option<FixedVec2>)
        ensures
            fits_i64(mul_bits(self.x@, rhs@)) && fits_i64(mul_bits(self.y@, rhs@)) ==> r.is_some()
                && r.unwrap().x@ == mul_bits(self.x@, rhs@) && r.unwrap().y@ == mul_bits(
                self.y@,
                rhs@,
            ),
            !(fits_i64(mul_bits(self.x@, rhs@)) && fits_i64(mul_bits(self.y@, rhs@)))
                ==> r.is_none(),
    {
        match (self.x.checked_mul(rhs), self.y.checked_mul(rhs)) {
            (Some(x), Some(y)) => Some(FixedVec2 { x, y }),
            _ => None,
        }
    }
}

/// True when the cell `i` of a checkerboard of `size` by `size` cells is
/// white: the cells of the left half of the upper rows and of the right half
/// of the lower rows are.
pub open spec fn checkboard_white(i: int, size: int) -> bool {
    (i % size < size / 2) != (i % (size * size) < (size / 2) * size)
}

/// The cells of a checkerboard of four fields, `size` by `size` cells, row
/// by row: `true` for a white cell. It tiles a background that is not
/// rendered yet.
pub fn generate_checkboard(size: usize) -> (cells: Vec<bool>)
    requires
        size * size <= usize::MAX,
    ensures
        cells@.len() == size * size,
        forall|i: int| 0 <= i < cells@.len() ==> #[trigger] cells@[i] == checkboard_white(
            i,
            size as int,
        ),
{
    let mut cells: Vec<bool> = Vec::new();
    if size == 0 {
        assert(size * size == 0) by (nonlinear_arith)
            requires
                size == 0,
        ;
        return cells;
    }
    let half: usize = size / 2;
    let total: usize = size * size;
    assert(half * size <= size * size) by (nonlinear_arith)
        requires
            half <= size,
    ;
    let upper: usize = half * size;
    let mut i: usize = 0;
    while i < total
        invariant
            i <= total,
            size > 0,
            total == size * size,
            half == size / 2,
            upper == half * size,
            cells@.len() == i,
            forall|j: int| 0 <= j < i ==> #[trigger] cells@[j] == checkboard_white(j, size as int),
        decreases total - i,
    {
        let white = (i % size < half) != (i % total < upper);
        cells.push(white);
        i += 1;
    }
    cells
}

/// Unit in which a count is shown.
#[derive(Debug, Clone, Copy, PartialEq, Eq, Structural)]
pub enum CountUnit {
    /// Counts below a thousand are shown as they are.
    One,
    Kilo,
    Mega,
    Giga,
}

impl CountUnit {
    /// The unit in which the count `n` is shown: the largest of a thousand,
    /// a million and a billion that is not above `n`.
    pub open spec fn spec_of(n: int) -> CountUnit {
        if n < 1000 {
            CountUnit::One
        } else if n < 1000000 {
            CountUnit::Kilo
        } else if n < 1000000000 {
            CountUnit::Mega
        } else {
            CountUnit::Giga
        }
    }

    /// Number of ones in the unit.
    pub open spec fn spec_divisor(self) -> int {
        match self {
            CountUnit::One => 1,
            CountUnit::Kilo => 1000,
            CountUnit::Mega => 1000000,
            CountUnit::Giga => 1000000000,
        }
    }

    /// The unit in which the count `n` is shown.
    pub fn of(n: usize) -> (unit: CountUnit)
        ensures
            unit == CountUnit::spec_of(n as int),
            unit.spec_divisor() <= n || n == 0,
    {
        if n < 1000 {
            CountUnit::One
        } else if n < 1000000 {
            CountUnit::Kilo
        } else if n < 1000000000 {
            CountUnit::Mega
        } else {
            CountUnit::Giga
        }
    }

    /// Number of ones in the unit.
    pub fn divisor(self) -> (d: u32)
        ensures
            d == self.spec_divisor(),
    {
        match self {
            CountUnit::One => 1,
            CountUnit::Kilo => 1000,
            CountUnit::Mega => 1000000,
            CountUnit::Giga => 1000000000,
        }
    }

    /// The letter that follows a number in the unit.
    pub fn suffix(self) -> (s: &'static str)
        ensures
            s@ == match self {
                CountUnit::One => ""@,
                CountUnit::Kilo => "k"@,
                CountUnit::Mega => "M"@,
                CountUnit::Giga => "G"@,
            },
    {
        match self {
            CountUnit::One => "",
            CountUnit::Kilo => "k",
            CountUnit::Mega => "M",
            CountUnit::Giga => "G",
        }
    }
}

} // verus!
