//! Positions on the sky and search radii: which are accepted.

use crate::ieee::{double, is_halves, lemma_normal_units, Float64};
use vstd::arithmetic::power2::lemma2_to64_rest;
use vstd::prelude::*;

verus! {

/// The bits of 0.
pub const ZERO: u64 = 0;

/// The bits of 360, in degrees.
pub const FULL_CIRCLE: u64 = 0x4076_8000_0000_0000;

/// The bits of 90, in degrees.
pub const NORTH_POLE: u64 = 0x4056_8000_0000_0000;

/// The bits of -90, in degrees.
pub const SOUTH_POLE: u64 = 0xC056_8000_0000_0000;

/// The bits of 600, in arcseconds.
pub const WIDEST_RADIUS: u64 = 0x4082_C000_0000_0000;

/// A right ascension is a number from 0 to below 360.
pub open spec fn ra_accepted(ra: Float64) -> bool {
    double(ZERO).le(ra) && ra.lt(double(FULL_CIRCLE))
}

/// A declination is a number from -90 to 90.
pub open spec fn dec_accepted(dec: Float64) -> bool {
    double(SOUTH_POLE).le(dec) && dec.le(double(NORTH_POLE))
}

/// A radius is a number above 0 and at most 600 arcseconds.
pub open spec fn radius_accepted(radius: Float64) -> bool {
    double(ZERO).lt(radius) && radius.le(double(WIDEST_RADIUS))
}

pub fn check_ra(ra: Float64) -> (r: bool)
    ensures
        r == ra_accepted(ra),
{
    Float64::from_bits(ZERO).at_most(ra) && ra.less_than(Float64::from_bits(FULL_CIRCLE))
}

pub fn check_dec(dec: Float64) -> (r: bool)
    ensures
        r == dec_accepted(dec),
{
    Float64::from_bits(SOUTH_POLE).at_most(dec) && dec.at_most(Float64::from_bits(NORTH_POLE))
}

pub fn check_radius(radius: Float64) -> (r: bool)
    ensures
        r == radius_accepted(radius),
{
    Float64::from_bits(ZERO).less_than(radius) && radius.at_most(
        Float64::from_bits(WIDEST_RADIUS),
    )
}

/// The bounds are the numbers that they are meant to be.
pub proof fn law_bounds_are_the_numbers()
    ensures
        is_halves(double(ZERO), 0),
        is_halves(double(FULL_CIRCLE), 720),
        is_halves(double(NORTH_POLE), 180),
        is_halves(double(SOUTH_POLE), -180),
        is_halves(double(WIDEST_RADIUS), 1200),
{
    lemma2_to64_rest();
    lemma_normal_units(FULL_CIRCLE, 1031, 720, 43);
    lemma_normal_units(NORTH_POLE, 1029, 180, 45);
    lemma_normal_units(WIDEST_RADIUS, 1032, 1200, 42);
}

/// A pattern that is no number is neither a right ascension, nor a declination, nor a radius.
pub proof fn law_only_numbers_are_accepted(x: Float64)
    requires
        x.is_nan(),
    ensures
        !ra_accepted(x),
        !dec_accepted(x),
        !radius_accepted(x),
{
}

} // verus!
