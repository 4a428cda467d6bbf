//! What comparisons, bounds and texts come to: laws on what the small functions return.

use crate::ieee::{
    double, law_order_is_numeric, magnitude_units, Float64, FRACTIONS,
};
use crate::reply::Refusal;
use crate::sky::{
    check_dec, check_ra, check_radius, law_bounds_are_the_numbers, FULL_CIRCLE, NORTH_POLE,
    SOUTH_POLE, WIDEST_RADIUS, ZERO,
};
use crate::survey::Survey;
use crate::text::{
    ascii_digit, count_string, decimal_digits, decimal_string, decimal_value,
    law_decimal_writes_the_number,
};
use vstd::arithmetic::power2::{lemma_pow2_pos, pow2};
use vstd::prelude::*;

verus! {

/// Whether a bit pattern is no number: every bit of its exponent is set, and some bit of its
/// fraction.
pub open spec fn no_number(x: Float64) -> bool {
    x.bits as int % 0x8000_0000_0000_0000 > 0x7FF0_0000_0000_0000
}

/// Whether a double is a number of at most so many halves of one.
pub open spec fn at_most_halves(x: Float64, halves: int) -> bool {
    !no_number(x) && x.units() <= halves * pow2(1073)
}

/// Whether a double is a number above so many halves of one.
pub open spec fn above_halves(x: Float64, halves: int) -> bool {
    !no_number(x) && x.units() > halves * pow2(1073)
}

pub(crate) proof fn lemma_no_number(x: Float64)
    ensures
        x.is_nan() == no_number(x),
{
}

/// One double is found smaller than another just where both are numbers and the number that the one
/// stands for is the smaller.
pub proof fn law_less_than_compares_the_numbers(a: Float64, b: Float64, r: bool)
    requires
        call_ensures(Float64::less_than, (a, b), r),
    ensures
        r <==> !no_number(a) && !no_number(b) && a.units() < b.units(),
{
    lemma_no_number(a);
    lemma_no_number(b);
    if !a.is_nan() && !b.is_nan() {
        law_order_is_numeric(a, b);
    }
}

/// One double is found at most another just where both are numbers and the number that the one
/// stands for is not the larger.
pub proof fn law_at_most_compares_the_numbers(a: Float64, b: Float64, r: bool)
    requires
        call_ensures(Float64::at_most, (a, b), r),
    ensures
        r <==> !no_number(a) && !no_number(b) && a.units() <= b.units(),
{
    lemma_no_number(a);
    lemma_no_number(b);
    if !a.is_nan() && !b.is_nan() {
        law_order_is_numeric(a, b);
    }
}

/// A double stands for its fraction below the first exponent, and else for its fraction with the
/// bit that is not written, doubled once for each exponent after the first; with its sign, and in
/// units of the smallest double above 0.
pub proof fn law_a_double_stands_for_its_fraction_shifted(
    x: Float64,
    negative: bool,
    exponent: nat,
    fraction: nat,
)
    requires
        fraction < 0x10_0000_0000_0000,
        exponent < 2047,
        x.bits == (if negative {
            0x8000_0000_0000_0000int
        } else {
            0
        }) + 0x10_0000_0000_0000 * exponent + fraction,
    ensures
        !no_number(x),
        ({
            let worth = if exponent == 0 {
                fraction as int
            } else {
                (0x10_0000_0000_0000int + fraction) * pow2((exponent - 1) as nat)
            };
            x.units() == if negative {
                -worth
            } else {
                worth
            }
        }),
{
    let m = 0x10_0000_0000_0000 * exponent + fraction;
    assert(m / 0x10_0000_0000_0000 == exponent && m % 0x10_0000_0000_0000 == fraction);
    assert(x.magnitude() == m);
}

/// The absolute value is the number without its sign.
pub proof fn law_abs_takes_the_sign_off(x: Float64, r: Float64)
    requires
        call_ensures(Float64::abs, (x,), r),
    ensures
        r.units() == (if x.units() < 0 { -x.units() } else { x.units() }),
        no_number(r) == no_number(x),
        r.bits == x.bits as int % 0x8000_0000_0000_0000,
{
    let m = x.magnitude();
    assert(magnitude_units(0) == 0);
    assert(magnitude_units(m) >= 0) by {
        lemma_pow2_pos(
            (if m / (FRACTIONS as int) > 0 { m / (FRACTIONS as int) - 1 } else { 0 }) as nat,
        );
        let e = m / (FRACTIONS as int);
        let f = m % (FRACTIONS as int);
        if e != 0 {
            let p = pow2((e - 1) as nat) as int;
            assert((FRACTIONS + f) * p >= 0) by (nonlinear_arith)
                requires
                    p > 0,
                    f >= 0,
            ;
        }
    }
}

pub(crate) proof fn lemma_bound(x: Float64, bits: u64, halves: int)
    requires
        double(bits).units() == halves * pow2(1073),
        !double(bits).is_nan(),
    ensures
        x.le(double(bits)) == at_most_halves(x, halves),
        double(bits).lt(x) == above_halves(x, halves),
        x.lt(double(bits)) == (!no_number(x) && x.units() < halves * pow2(1073)),
        double(bits).le(x) == (!no_number(x) && x.units() >= halves * pow2(1073)),
{
    lemma_no_number(x);
    if !x.is_nan() {
        law_order_is_numeric(x, double(bits));
        law_order_is_numeric(double(bits), x);
    }
}

/// A right ascension is accepted just where it is a number from 0 to below 360.
pub proof fn law_right_ascensions_go_round_once(ra: Float64, r: bool)
    requires
        call_ensures(check_ra, (ra,), r),
    ensures
        r <==> !no_number(ra) && 0 <= ra.units() && ra.units() < 720 * pow2(1073),
{
    law_bounds_are_the_numbers();
    lemma_bound(ra, ZERO, 0);
    lemma_bound(ra, FULL_CIRCLE, 720);
}

/// A declination is accepted just where it is a number from -90 to 90.
pub proof fn law_declinations_lie_between_the_poles(dec: Float64, r: bool)
    requires
        call_ensures(check_dec, (dec,), r),
    ensures
        r <==> !no_number(dec) && -180 * pow2(1073) <= dec.units() && dec.units() <= 180 * pow2(
            1073,
        ),
{
    law_bounds_are_the_numbers();
    lemma_bound(dec, SOUTH_POLE, -180);
    lemma_bound(dec, NORTH_POLE, 180);
}

/// A radius is accepted just where it is a number above 0 and of at most 600.
pub proof fn law_radii_are_positive_and_small(radius: Float64, r: bool)
    requires
        call_ensures(check_radius, (radius,), r),
    ensures
        r <==> !no_number(radius) && 0 < radius.units() && radius.units() <= 1200 * pow2(1073),
{
    law_bounds_are_the_numbers();
    lemma_bound(radius, ZERO, 0);
    lemma_bound(radius, WIDEST_RADIUS, 1200);
}

/// A refusal is answered with the status of its kind and with its own message.
pub proof fn law_refusals_tell_their_kind(refusal: Refusal, code: u16, message: &str)
    requires
        call_ensures(Refusal::status_code, (&refusal,), code),
        call_ensures(Refusal::message, (&refusal,), message),
    ensures
        match refusal {
            Refusal::Unauthorized => code == 401,
            Refusal::BadRequest(text) => code == 400 && message@ == text@,
            Refusal::NotFound(text) => code == 404 && message@ == text@,
            Refusal::InternalError(text) => code == 500 && message@ == text@,
        },
{
}

/// The collections of a survey begin with its name, and those of two surveys are never the same.
pub proof fn law_collections_begin_with_the_survey(
    a: Survey,
    b: Survey,
    name: &'static str,
    alerts_a: String,
    alerts_b: String,
    aux_a: String,
    aux_b: String,
)
    requires
        call_ensures(Survey::name, (&a,), name),
        call_ensures(Survey::alerts_collection, (&a,), alerts_a),
        call_ensures(Survey::alerts_collection, (&b,), alerts_b),
        call_ensures(Survey::aux_collection, (&a,), aux_a),
        call_ensures(Survey::aux_collection, (&b,), aux_b),
    ensures
        alerts_a@ == name@ + "_alerts"@,
        aux_a@ == name@ + "_alerts_aux"@,
        alerts_a@ == alerts_b@ <==> a == b,
        aux_a@ == aux_b@ <==> a == b,
        alerts_a@ != aux_b@,
        name@ == match a {
            Survey::Ztf => "ZTF"@,
            Survey::Lsst => "LSST"@,
            Survey::Decam => "DECAM"@,
        },
{
    reveal_strlit("ZTF");
    reveal_strlit("LSST");
    reveal_strlit("DECAM");
    reveal_strlit("_alerts");
    reveal_strlit("_alerts_aux");
    assert("ZTF"@.len() == 3 && "LSST"@.len() == 4 && "DECAM"@.len() == 5);
    assert("_alerts"@.len() == 7 && "_alerts_aux"@.len() == 11);
    let length = |survey: Survey|
        match survey {
            Survey::Ztf => 3int,
            Survey::Lsst => 4,
            Survey::Decam => 5,
        };
    assert(alerts_a@.len() == length(a) + 7 && alerts_b@.len() == length(b) + 7);
    assert(aux_a@.len() == length(a) + 11 && aux_b@.len() == length(b) + 11);
}

pub(crate) proof fn lemma_no_leading_zero(n: nat)
    ensures
        n > 0 ==> decimal_digits(n)[0] != '0',
        decimal_digits(n).len() > 0,
        n < 10 ==> decimal_digits(n).len() == 1,
        forall|i: int|
            0 <= i < decimal_digits(n).len() ==> ascii_digit(#[trigger] decimal_digits(n)[i]),
    decreases n,
{
    if n >= 10 {
        lemma_no_leading_zero(n / 10);
    }
}

/// Whether a text is digits, none of them a leading zero, that write a number.
pub open spec fn writes(digits: Seq<char>, n: int) -> bool {
    &&& digits.len() > 0
    &&& digits.len() > 1 ==> digits[0] != '0'
    &&& forall|i: int| 0 <= i < digits.len() ==> ascii_digit(#[trigger] digits[i])
    &&& decimal_value(digits) == n
}

/// An integer is written with its digits, behind a minus sign where it is negative.
pub proof fn law_integers_are_written_out(n: i64, r: String)
    requires
        call_ensures(decimal_string, (n,), r),
    ensures
        n >= 0 ==> writes(r@, n as int),
        n < 0 ==> r@.len() > 0 && r@[0] == '-' && writes(r@.drop_first(), -n),
{
    law_decimal_writes_the_number(n as int);
    if n < 0 {
        lemma_no_leading_zero((-n) as nat);
        assert(r@.drop_first() =~= decimal_digits((-n) as nat));
    } else {
        lemma_no_leading_zero(n as nat);
    }
}

/// A count is written with its digits.
pub proof fn law_counts_are_written_out(n: usize, r: String)
    requires
        call_ensures(count_string, (n,), r),
    ensures
        writes(r@, n as int),
{
    law_decimal_writes_the_number(n as int);
    lemma_no_leading_zero(n as nat);
}

} // verus!
