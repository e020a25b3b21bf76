//! Fixed-point quantities.
//!
//! Every quantity in the simulator (stock values, rates, times, time steps)
//! is a [`Num`]: a signed count of millionths of a unit. Arithmetic saturates
//! at the ends of the `i64` range and products round toward zero, so every
//! operation is total; the spec functions below say exactly what each
//! executable operation returns.

use vstd::prelude::*;

verus! {

/// Number of fixed-point ticks per unit: values carry six decimal places.
pub const SCALE: i64 = 1_000_000;

/// The absolute value of a mathematical integer.
pub open spec fn abs_int(x: int) -> int {
    if x < 0 {
        -x
    } else {
        x
    }
}

/// `x` lies within the range of `i64`.
pub open spec fn fits_i64(x: int) -> bool {
    i64::MIN <= x <= i64::MAX
}

/// Clamp a mathematical integer into the range of `i64`.
pub open spec fn sat_i64(x: int) -> int {
    if x > i64::MAX {
        i64::MAX as int
    } else if x < i64::MIN {
        i64::MIN as int
    } else {
        x
    }
}

/// Division rounding toward zero, the rounding of all fixed-point products.
pub open spec fn quot_trunc(a: int, b: int) -> int
    recommends
        b != 0,
{
    let q = abs_int(a) / abs_int(b);
    if (a < 0) == (b < 0) {
        q
    } else {
        -q
    }
}

/// Saturating addition on raw fixed-point values.
pub open spec fn sat_add(a: int, b: int) -> int {
    sat_i64(a + b)
}

/// Saturating subtraction on raw fixed-point values.
pub open spec fn sat_sub(a: int, b: int) -> int {
    sat_i64(a - b)
}

/// Fixed-point product of two raw values: the exact product scaled back
/// down, rounded toward zero, then saturated.
pub open spec fn scale_mul(a: int, b: int) -> int {
    sat_i64(quot_trunc(a * b, SCALE as int))
}

/// The raw value representing the integer `i`.
pub open spec fn scale_of_int(i: int) -> int {
    sat_i64(i * (SCALE as int))
}

/// The raw value nearest (toward zero) to the ratio `n / d`.
pub open spec fn scale_of_ratio(n: int, d: int) -> int
    recommends
        d != 0,
{
    sat_i64(quot_trunc(n * (SCALE as int), d))
}

/// A fixed-point quantity: `raw` counts millionths of a unit.
#[derive(Clone, Copy, PartialEq, Eq, PartialOrd, Ord, Structural, Debug)]
pub struct Num {
    pub raw: i64,
}

impl View for Num {
    type V = int;

    open spec fn view(&self) -> int {
        self.raw as int
    }
}

/// Clamp an `i128` into the `i64` range.
fn sat_from_i128(x: i128) -> (r: i64)
    ensures
        r as int == sat_i64(x as int),
{
    if x > i64::MAX as i128 {
        i64::MAX
    } else if x < i64::MIN as i128 {
        i64::MIN
    } else {
        x as i64
    }
}

/// Clamp a signed magnitude into the `i64` range.
fn sat_signed(mag: u128, neg: bool) -> (r: i64)
    ensures
        r as int == sat_i64(
            if neg {
                -(mag as int)
            } else {
                mag as int
            },
        ),
{
    if neg {
        if mag >= 9_223_372_036_854_775_808u128 {
            i64::MIN
        } else {
            -(mag as i64)
        }
    } else {
        if mag > i64::MAX as u128 {
            i64::MAX
        } else {
            mag as i64
        }
    }
}

impl Num {
    /// The quantity zero.
    pub fn zero() -> (r: Num)
        ensures
            r@ == 0,
    {
        Num { raw: 0 }
    }

    /// The quantity `i`, saturated at the representable range.
    pub fn from_int(i: i64) -> (r: Num)
        ensures
            r@ == scale_of_int(i as int),
    {
        let neg: bool = i < 0;
        let mag: u128 = if i < 0 {
            (-(i as i128)) as u128
        } else {
            i as u128
        };
        let prod: u128 = mag * (SCALE as u128);
        proof {
            assert(mag * (SCALE as int) <= 0x8000_0000_0000_0000 * (SCALE as int))
                by (nonlinear_arith)
                requires
                    0 <= mag <= 0x8000_0000_0000_0000,
            ;
            assert(if neg {
                -(prod as int) == (i as int) * (SCALE as int)
            } else {
                prod as int == (i as int) * (SCALE as int)
            }) by (nonlinear_arith)
                requires
                    prod == mag * (SCALE as int),
                    mag == abs_int(i as int),
                    neg == (i < 0),
            ;
        }
        Num { raw: sat_signed(prod, neg) }
    }

    /// The quantity `n / d`, rounded toward zero at the sixth decimal
    /// place and saturated at the representable range.
    pub fn from_ratio(n: i64, d: i64) -> (r: Num)
        requires
            d != 0,
        ensures
            r@ == scale_of_ratio(n as int, d as int),
    {
        let n_neg: bool = n < 0;
        let n_mag: u128 = if n < 0 {
            (-(n as i128)) as u128
        } else {
            n as u128
        };
        let d_neg: bool = d < 0;
        let d_mag: u128 = if d < 0 {
            (-(d as i128)) as u128
        } else {
            d as u128
        };
        let prod: u128 = n_mag * (SCALE as u128);
        proof {
            assert(n_mag * (SCALE as int) <= 0x8000_0000_0000_0000 * (SCALE as int))
                by (nonlinear_arith)
                requires
                    0 <= n_mag <= 0x8000_0000_0000_0000,
            ;
        }
        let q: u128 = prod / d_mag;
        proof {
            assert(prod == abs_int((n as int) * (SCALE as int))) by (nonlinear_arith)
                requires
                    prod == n_mag * (SCALE as int),
                    n_mag == abs_int(n as int),
            ;
            assert(q == quot_trunc((n as int) * (SCALE as int), d as int) || -(q as int)
                == quot_trunc((n as int) * (SCALE as int), d as int));
            assert((n_neg != d_neg) == (((n as int) * (SCALE as int) < 0) != ((d as int) < 0))
                || (n as int) * (SCALE as int) == 0) by (nonlinear_arith)
                requires
                    n_neg == (n < 0),
                    d_neg == (d < 0),
                    d != 0,
            ;
        }
        Num { raw: sat_signed(q, n_neg != d_neg) }
    }

    /// Saturating addition.
    pub fn saturating_add(self, other: Num) -> (r: Num)
        ensures
            r@ == sat_add(self@, other@),
    {
        Num { raw: sat_from_i128(self.raw as i128 + other.raw as i128) }
    }

    /// Saturating subtraction.
    pub fn saturating_sub(self, other: Num) -> (r: Num)
        ensures
            r@ == sat_sub(self@, other@),
    {
        Num { raw: sat_from_i128(self.raw as i128 - other.raw as i128) }
    }

    /// Fixed-point product, rounded toward zero and saturated.
    pub fn scaled_mul(self, other: Num) -> (r: Num)
        ensures
            r@ == scale_mul(self@, other@),
    {
        let a: i128 = self.raw as i128;
        let b: i128 = other.raw as i128;
        proof {
            assert(-0x4000_0000_0000_0000_0000_0000_0000_0000 <= (a as int) * (b as int)
                <= 0x4000_0000_0000_0000_0000_0000_0000_0000) by (nonlinear_arith)
                requires
                    -0x8000_0000_0000_0000 <= a <= 0x8000_0000_0000_0000,
                    -0x8000_0000_0000_0000 <= b <= 0x8000_0000_0000_0000,
            ;
        }
        let p: i128 = a * b;
        let neg: bool = p < 0;
        let mag: u128 = if p < 0 {
            (-p) as u128
        } else {
            p as u128
        };
        let q: u128 = mag / (SCALE as u128);
        proof {
            assert(mag == abs_int((self@) * (other@)));
            assert(q == abs_int(self@ * other@) / (SCALE as int));
            assert(if neg {
                -(q as int) == quot_trunc(self@ * other@, SCALE as int)
            } else {
                q as int == quot_trunc(self@ * other@, SCALE as int)
            });
        }
        Num { raw: sat_signed(q, neg) }
    }
}

} // verus!
