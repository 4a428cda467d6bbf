//! Floating point numbers as bit patterns of IEEE 754: carried as they are, and compared.
//!
//! Coordinates, times, magnitudes and distances are held by their bits, so that the rules that
//! compare them can be stated and proved over integers.

use vstd::arithmetic::power2::{
    lemma_pow2_adds, lemma_pow2_pos, lemma_pow2_strictly_increases, pow2,
};
use vstd::prelude::*;

verus! {

/// The pattern of the sign bit of a double.
pub const SIGN_BIT: u64 = 0x8000_0000_0000_0000;

/// The magnitude of infinity: any pattern above it, the sign bit aside, is no number.
pub const INFINITE: u64 = 0x7FF0_0000_0000_0000;

/// How many patterns share one exponent.
pub const FRACTIONS: u64 = 0x10_0000_0000_0000;

/// A double precision number, by its bits. Two values are equal here where their bits are.
#[derive(Debug, Clone, Copy, PartialEq, Eq, Structural)]
pub struct Float64 {
    pub bits: u64,
}

/// A single precision number, by its bits. Nothing here looks inside it.
#[derive(Debug, Clone, Copy, PartialEq, Eq, Structural)]
pub struct Float32 {
    pub bits: u32,
}

impl Float64 {
    /// The bits without the sign.
    pub open spec fn magnitude(self) -> int {
        if self.bits >= SIGN_BIT {
            self.bits - SIGN_BIT
        } else {
            self.bits as int
        }
    }

    /// Whether the pattern is no number.
    pub open spec fn is_nan(self) -> bool {
        self.magnitude() > INFINITE
    }

    /// Where the number stands among all numbers: the integers order as the numbers do, and both
    /// zeros stand at 0.
    pub open spec fn rank(self) -> int {
        if self.bits >= SIGN_BIT {
            -self.magnitude()
        } else {
            self.magnitude()
        }
    }

    /// The number in units of the smallest positive double, which is two to the power -1074.
    pub open spec fn units(self) -> int {
        if self.bits >= SIGN_BIT {
            -magnitude_units(self.magnitude())
        } else {
            magnitude_units(self.magnitude())
        }
    }

    /// `self < other` of two doubles: false where either is no number.
    pub open spec fn lt(self, other: Float64) -> bool {
        !self.is_nan() && !other.is_nan() && self.rank() < other.rank()
    }

    /// `self <= other` of two doubles: false where either is no number.
    pub open spec fn le(self, other: Float64) -> bool {
        !self.is_nan() && !other.is_nan() && self.rank() <= other.rank()
    }

    /// The absolute value: the same pattern without the sign bit.
    pub open spec fn absolute(self) -> Float64 {
        Float64 { bits: self.magnitude() as u64 }
    }

    pub fn from_bits(bits: u64) -> (r: Float64)
        ensures
            r.bits == bits,
    {
        Float64 { bits }
    }

    /// The absolute value.
    pub fn abs(self) -> (r: Float64)
        ensures
            r == self.absolute(),
    {
        if self.bits >= SIGN_BIT {
            Float64 { bits: self.bits - SIGN_BIT }
        } else {
            self
        }
    }

    fn magnitude_bits(self) -> (r: u64)
        ensures
            r == self.magnitude(),
            r < SIGN_BIT,
    {
        if self.bits >= SIGN_BIT {
            self.bits - SIGN_BIT
        } else {
            self.bits
        }
    }

    fn rank_number(self) -> (r: i64)
        ensures
            r == self.rank(),
    {
        let magnitude: i64 = self.magnitude_bits() as i64;
        if self.bits >= SIGN_BIT {
            -magnitude
        } else {
            magnitude
        }
    }

    /// Whether both are numbers and this one is the smaller.
    pub fn less_than(self, other: Float64) -> (r: bool)
        ensures
            r == self.lt(other),
    {
        self.magnitude_bits() <= INFINITE && other.magnitude_bits() <= INFINITE
            && self.rank_number() < other.rank_number()
    }

    /// Whether both are numbers and this one is at most the other.
    pub fn at_most(self, other: Float64) -> (r: bool)
        ensures
            r == self.le(other),
    {
        self.magnitude_bits() <= INFINITE && other.magnitude_bits() <= INFINITE
            && self.rank_number() <= other.rank_number()
    }
}

impl Float32 {
    pub fn from_bits(bits: u32) -> (r: Float32)
        ensures
            r.bits == bits,
    {
        Float32 { bits }
    }
}

/// The double of a bit pattern.
pub open spec fn double(bits: u64) -> Float64 {
    Float64 { bits }
}

/// Whether a double is so many halves of one.
pub open spec fn is_halves(x: Float64, halves: int) -> bool {
    x.units() == halves * pow2(1073)
}

/// What a magnitude is worth, in units of the smallest positive double: the fraction alone below
/// the first exponent, else the fraction with its hidden bit, shifted by the exponent.
pub open spec fn magnitude_units(magnitude: int) -> int {
    let exponent = magnitude / (FRACTIONS as int);
    let fraction = magnitude % (FRACTIONS as int);
    if exponent == 0 {
        fraction
    } else {
        (FRACTIONS + fraction) * pow2((exponent - 1) as nat)
    }
}

/// A positive pattern whose fraction, with its hidden bit, is the number of halves shifted to the
/// left stands for that number of halves.
pub(crate) proof fn lemma_normal_units(bits: u64, exponent: nat, halves: int, shift: nat)
    requires
        bits < SIGN_BIT,
        exponent >= 1,
        exponent - 1 + shift == 1073,
        bits as int / (FRACTIONS as int) == exponent,
        FRACTIONS + bits as int % (FRACTIONS as int) == halves * pow2(shift),
    ensures
        is_halves(double(bits), halves),
{
    let low = (exponent - 1) as nat;
    lemma_pow2_adds(shift, low);
    assert((halves * pow2(shift)) * pow2(low) == halves * (pow2(shift) * pow2(low)))
        by (nonlinear_arith);
}

proof fn lemma_magnitude_units_increase(a: int, b: int)
    requires
        0 <= a < b,
    ensures
        0 <= magnitude_units(a) < magnitude_units(b),
{
    let width = FRACTIONS as int;
    let ea = a / width;
    let fa = a % width;
    let eb = b / width;
    let fb = b % width;
    assert(a == ea * width + fa && b == eb * width + fb && ea <= eb && 0 <= ea) by (nonlinear_arith)
        requires
            0 <= a < b,
            width == 0x10_0000_0000_0000,
            ea == a / width,
            fa == a % width,
            eb == b / width,
            fb == b % width,
    ;
    if eb > 0 {
        let pb = pow2((eb - 1) as nat) as int;
        lemma_pow2_pos((eb - 1) as nat);
        assert((width + fb) * pb >= width * pb >= width) by (nonlinear_arith)
            requires
                pb >= 1,
                fb >= 0,
                width == 0x10_0000_0000_0000,
        ;
        if ea > 0 {
            let pa = pow2((ea - 1) as nat) as int;
            lemma_pow2_pos((ea - 1) as nat);
            assert((width + fa) * pa >= 0) by (nonlinear_arith)
                requires
                    pa >= 1,
                    fa >= 0,
                    width == 0x10_0000_0000_0000,
            ;
            if ea == eb {
                assert((width + fa) * pa < (width + fb) * pa) by (nonlinear_arith)
                    requires
                        pa >= 1,
                        fa < fb,
                ;
            } else {
                lemma_pow2_adds(1, (ea - 1) as nat);
                vstd::arithmetic::power2::lemma2_to64();
                if ea < eb - 1 {
                    lemma_pow2_strictly_increases(ea as nat, (eb - 1) as nat);
                }
                assert(2 * pa <= pb);
                assert((width + fa) * pa < width * pb) by (nonlinear_arith)
                    requires
                        pa >= 1,
                        0 <= fa < width,
                        2 * pa <= pb,
                        width == 0x10_0000_0000_0000,
                ;
            }
        }
    }
}

/// Doubles compare as the numbers that they stand for.
pub proof fn law_order_is_numeric(a: Float64, b: Float64)
    requires
        !a.is_nan(),
        !b.is_nan(),
    ensures
        a.lt(b) <==> a.units() < b.units(),
        a.le(b) <==> a.units() <= b.units(),
{
    let x = a.magnitude();
    let y = b.magnitude();
    if x < y {
        lemma_magnitude_units_increase(x, y);
    } else if y < x {
        lemma_magnitude_units_increase(y, x);
    }
    if x > 0 {
        lemma_magnitude_units_increase(0, x);
    }
    if y > 0 {
        lemma_magnitude_units_increase(0, y);
    }
    assert(magnitude_units(0) == 0);
}

} // verus!
