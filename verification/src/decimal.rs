//! Fixed-precision decimal numbers.
//!
//! A [`Decimal`] is `coefficient / 10^places`, with a 96-bit coefficient and at
//! most 28 decimal places. The arithmetic is that of the `rust_decimal` crate;
//! contracts compare numbers by [`Decimal::units`], their exact count of
//! `10^-28`.

use vstd::prelude::*;
use vstd::arithmetic::div_mod::{lemma_fundamental_div_mod, lemma_fundamental_div_mod_converse};
use vstd::arithmetic::power::{lemma_pow0, lemma_pow1, lemma_pow_adds, lemma_pow_increases, lemma_pow_positive, pow};
use std::str::FromStr;
use crate::text::{is_digits, number_of};

verus! {

/// The largest absolute value of a coefficient, `2^96 - 1`.
pub const MAX_COEFFICIENT: i128 = 79_228_162_514_264_337_593_543_950_335;

/// The largest number of decimal places.
pub const MAX_PLACES: u32 = 28;

/// `10^n`.
pub open spec fn ten_to(n: nat) -> int {
    pow(10, n)
}

/// The number one, counted in units of `10^-28`.
pub open spec fn one() -> int {
    ten_to(28)
}

/// The number `coefficient / 10^places`, counted in units of `10^-28`.
pub open spec fn units_of(coefficient: int, places: nat) -> int {
    coefficient * ten_to((28 - places) as nat)
}

/// Whether a number of units of `10^-28` is exactly some [`Decimal`].
pub open spec fn is_decimal(units: int) -> bool {
    exists|coefficient: int, places: nat|
        -MAX_COEFFICIENT <= coefficient <= MAX_COEFFICIENT && places <= 28
            && #[trigger] units_of(coefficient, places) == units
}

/// A decimal number with a 96-bit coefficient and at most 28 decimal places.
#[derive(Clone, Copy, Debug)]
pub struct Decimal {
    coefficient: i128,
    places: u32,
}

/// The sum of two decimals as `rust_decimal` computes it, or `None` if it is out of range.
pub uninterp spec fn decimal_sum(a: Decimal, b: Decimal) -> Option<Decimal>;

/// The difference of two decimals as `rust_decimal` computes it, or `None` if it is out of range.
pub uninterp spec fn decimal_difference(a: Decimal, b: Decimal) -> Option<Decimal>;

/// The product of two decimals as `rust_decimal` computes it, or `None` if it is out of range.
pub uninterp spec fn decimal_product(a: Decimal, b: Decimal) -> Option<Decimal>;

/// The quotient of two decimals as `rust_decimal` computes it, or `None` if it is out of range
/// or the divisor is zero.
pub uninterp spec fn decimal_quotient(a: Decimal, b: Decimal) -> Option<Decimal>;

/// The decimal that `rust_decimal` reads from a text, or `None` if it rejects the text.
pub uninterp spec fn decimal_of_text(text: Seq<char>) -> Option<Decimal>;

/// The largest integer that is no greater than a decimal.
pub open spec fn floored(a: Decimal) -> Decimal {
    Decimal::of_parts(a.coefficient() / ten_to(a.places()), 0)
}

/// The absolute value of an integer.
pub open spec fn magnitude(n: int) -> int {
    if n < 0 {
        -n
    } else {
        n
    }
}

/// Whether an error is at most ten parts in `2^96` of a number. A coefficient that leaves no room
/// for one more digit rounds to within that.
pub open spec fn is_slight(error: int, number: int) -> bool {
    magnitude(error) * (MAX_COEFFICIENT + 1) <= 10 * magnitude(number)
}

/// Whether `sum` is the sum of two decimals: exactly, as far as that is a decimal, and otherwise
/// but for a slight error.
pub open spec fn adds_up(a: Decimal, b: Decimal, sum: Decimal) -> bool {
    &&& is_decimal(a.units() + b.units()) ==> sum.units() == a.units() + b.units()
    &&& is_slight(sum.units() - (a.units() + b.units()), sum.units())
}

/// Whether `difference` is the difference of two decimals: exactly, as far as that is a decimal,
/// and otherwise but for a slight error.
pub open spec fn takes_away(a: Decimal, b: Decimal, difference: Decimal) -> bool {
    &&& is_decimal(a.units() - b.units()) ==> difference.units() == a.units() - b.units()
    &&& is_slight(difference.units() - (a.units() - b.units()), difference.units())
}

/// Whether `product` is the product of two decimals but for a slight error or one of `10^-28`.
pub open spec fn nearly_product(a: Decimal, b: Decimal, product: Decimal) -> bool {
    let error = product.units() * one() - a.units() * b.units();
    ||| magnitude(error) <= one()
    ||| is_slight(error, product.units() * one())
}

/// Whether `product` is the product of two decimals: exactly, as far as that is a decimal, and
/// otherwise but for a slight error or one of `10^-28`.
pub open spec fn multiplies_out(a: Decimal, b: Decimal, product: Decimal) -> bool {
    &&& forall|units: int| #[trigger]
        is_decimal(units) && units * one() == a.units() * b.units() ==> product.units() == units
    &&& nearly_product(a, b, product)
}

/// Whether `quotient` is the quotient of two decimals but for a slight error or one of `10^-28`.
pub open spec fn nearly_quotient(a: Decimal, b: Decimal, quotient: Decimal) -> bool {
    let error = quotient.units() * b.units() - a.units() * one();
    ||| magnitude(error) <= magnitude(b.units())
    ||| is_slight(error, quotient.units() * b.units())
}

/// The decimal that a plain numeral stands for: digits, at most twenty-eight of them, with or
/// without a minus sign before them and with or without a point among them. `None` for any other
/// text.
pub open spec fn plain_decimal(text: Seq<char>) -> Option<Decimal> {
    let negative = text.len() > 0 && text[0] == '-';
    let body = if negative {
        text.drop_first()
    } else {
        text
    };
    let has_point = body.contains('.');
    let point = body.index_of('.');
    let digits = if has_point {
        body.remove(point)
    } else {
        body
    };
    let places = if has_point {
        body.len() - 1 - point
    } else {
        0
    };
    if is_digits(digits) && digits.len() <= 28 {
        Some(
            Decimal::of_parts(
                if negative {
                    -number_of(digits)
                } else {
                    number_of(digits)
                },
                places as nat,
            ),
        )
    } else {
        None
    }
}

/// Whether a text is read as what it stands for, if it is a plain numeral.
pub open spec fn is_read_plainly(text: Seq<char>) -> bool {
    plain_decimal(text) matches Some(d) ==> decimal_of_text(text) == Some(d)
}

/// Whether two sums are the same number, and the same decimal unless that number is zero, or are
/// both out of range.
pub open spec fn same_sum(a: Option<Decimal>, b: Option<Decimal>) -> bool {
    match (a, b) {
        (Some(x), Some(y)) => x.units() == y.units() && (x.units() != 0 ==> x == y),
        (None, None) => true,
        _ => false,
    }
}

/// The greater of two decimals; the first if they are the same number.
pub open spec fn greater(a: Decimal, b: Decimal) -> Decimal {
    if a.units() < b.units() {
        b
    } else {
        a
    }
}

/// The lesser of two decimals; the first if they are the same number.
pub open spec fn lesser(a: Decimal, b: Decimal) -> Decimal {
    if a.units() > b.units() {
        b
    } else {
        a
    }
}

/// Powers of ten: the first ones, their products, and that they are positive and grow.
pub proof fn lemma_ten_to(a: nat, b: nat)
    ensures
        ten_to(0) == 1,
        ten_to(1) == 10,
        ten_to(a) > 0,
        ten_to(b) > 0,
        ten_to(a + b) == ten_to(a) * ten_to(b),
        a <= b ==> ten_to(a) <= ten_to(b),
{
    lemma_pow0(10);
    lemma_pow1(10);
    lemma_pow_positive(10, a);
    lemma_pow_positive(10, b);
    lemma_pow_adds(10, a, b);
    if a <= b {
        lemma_pow_increases(10, a, b);
    }
}

/// Dividing both dividend and divisor by a common positive factor changes no quotient.
pub proof fn lemma_div_common_factor(x: int, y: int, factor: int)
    requires
        y > 0,
        factor > 0,
    ensures
        (x * factor) / (y * factor) == x / y,
{
    let q = x / y;
    let r = x % y;
    lemma_fundamental_div_mod(x, y);
    assert(y * factor > 0) by (nonlinear_arith)
        requires
            y > 0,
            factor > 0,
    ;
    assert(0 <= r * factor < y * factor) by (nonlinear_arith)
        requires
            0 <= r < y,
            factor > 0,
    ;
    assert(x * factor == q * (y * factor) + r * factor) by (nonlinear_arith)
        requires
            x == y * q + r,
    ;
    lemma_fundamental_div_mod_converse(x * factor, y * factor, q, r * factor);
}

/// The integer part of a decimal is that of its units.
pub proof fn lemma_floored(d: Decimal)
    requires
        d.wf(),
    ensures
        floored(d).wf(),
        floored(d).places() == 0,
        floored(d).coefficient() == d.units() / one(),
{
    let c = d.coefficient();
    let k = ten_to(d.places());
    lemma_ten_to((28 - d.places()) as nat, d.places());
    lemma_ten_to(d.places(), (28 - d.places()) as nat);
    lemma_div_common_factor(c, k, ten_to((28 - d.places()) as nat));
    lemma_fundamental_div_mod(c, k);
    assert(-MAX_COEFFICIENT <= c / k <= MAX_COEFFICIENT) by (nonlinear_arith)
        requires
            -MAX_COEFFICIENT <= c <= MAX_COEFFICIENT,
            k >= 1,
            c == k * (c / k) + c % k,
            0 <= c % k < k,
    ;
    lemma_parts(c / k, 0);
}

/// A decimal made of parts in range has these parts, and is the only one that does.
pub broadcast proof fn lemma_parts(coefficient: int, places: nat)
    requires
        -MAX_COEFFICIENT <= coefficient <= MAX_COEFFICIENT,
        places <= 28,
    ensures
        (#[trigger] Decimal::of_parts(coefficient, places)).coefficient() == coefficient,
        Decimal::of_parts(coefficient, places).places() == places,
        Decimal::of_parts(coefficient, places).wf(),
        forall|d: Decimal|
            d.coefficient() == coefficient && #[trigger] d.places() == places
                ==> d == Decimal::of_parts(coefficient, places),
{
}

impl Decimal {
    /// The decimal with the given coefficient and number of places.
    pub closed spec fn of_parts(coefficient: int, places: nat) -> Decimal {
        Decimal { coefficient: coefficient as i128, places: places as u32 }
    }

    /// The coefficient.
    pub closed spec fn coefficient(self) -> int {
        self.coefficient as int
    }

    /// The number of decimal places.
    pub closed spec fn places(self) -> nat {
        self.places as nat
    }

    /// The number, counted in units of `10^-28`.
    pub open spec fn units(self) -> int {
        units_of(self.coefficient(), self.places())
    }

    /// Whether coefficient and places are in range.
    pub open spec fn wf(self) -> bool {
        &&& -MAX_COEFFICIENT <= self.coefficient() <= MAX_COEFFICIENT
        &&& self.places() <= 28
    }

    #[verifier::type_invariant]
    spec fn in_range(self) -> bool {
        self.wf()
    }

    /// The decimal `coefficient / 10^places`, or `None` if a part is out of range.
    pub fn new(coefficient: i128, places: u32) -> (result: Option<Decimal>)
        ensures
            result is Some <==> -MAX_COEFFICIENT <= coefficient <= MAX_COEFFICIENT && places <= 28,
            result matches Some(d) ==> d.wf() && d == Decimal::of_parts(
                coefficient as int,
                places as nat,
            ) && d.coefficient() == coefficient && d.places() == places,
    {
        if -MAX_COEFFICIENT <= coefficient && coefficient <= MAX_COEFFICIENT && places <= MAX_PLACES {
            Some(Decimal { coefficient, places })
        } else {
            None
        }
    }

    /// An integer as a decimal.
    pub fn from_integer(n: u64) -> (result: Decimal)
        ensures
            result.wf(),
            result == Decimal::of_parts(n as int, 0),
            result.coefficient() == n,
            result.places() == 0,
            result.units() == n * one(),
    {
        Decimal { coefficient: n as i128, places: 0 }
    }

    /// The number `10^-9`.
    pub(crate) fn nano() -> (result: Decimal)
        ensures
            result.wf(),
            result == Decimal::of_parts(1, 9),
    {
        Decimal { coefficient: 1, places: 9 }
    }

    /// The coefficient.
    pub fn mantissa(&self) -> (result: i128)
        ensures
            result == self.coefficient(),
            self.wf(),
    {
        proof {
            use_type_invariant(self);
        }
        self.coefficient
    }

    /// The number of decimal places.
    pub fn scale(&self) -> (result: u32)
        ensures
            result == self.places(),
            self.wf(),
    {
        proof {
            use_type_invariant(self);
        }
        self.places
    }

    /// Calls `rust_decimal::Decimal::checked_add`.
    ///
    /// Its result is named, is the exact sum whenever that sum is a decimal, and is never off by
    /// more than ten parts in `2^96` of it. It is there for a sum of at most `2^96 - 1` in absolute
    /// value. The order of the two does not matter, but for the places of a sum that is zero. Which
    /// way an inexact sum is rounded is left to the name.
    #[verifier::external_body]
    pub(crate) fn checked_add(self, other: Decimal) -> (result: Option<Decimal>)
        ensures
            result == decimal_sum(self, other),
            result matches Some(sum) ==> sum.wf() && adds_up(self, other, sum),
            is_decimal(self.units() + other.units()) ==> result is Some,
            magnitude(self.units() + other.units()) <= MAX_COEFFICIENT * one() ==> result is Some,
            same_sum(result, decimal_sum(other, self)),
    {
        rust_decimal::Decimal::from_i128_with_scale(self.coefficient, self.places)
            .checked_add(rust_decimal::Decimal::from_i128_with_scale(other.coefficient, other.places))
            .map(|d| Decimal { coefficient: d.mantissa(), places: d.scale() })
    }

    /// Calls `rust_decimal::Decimal::checked_sub`.
    ///
    /// Its result is named, is the exact difference whenever that difference is a decimal, and is
    /// never off by more than ten parts in `2^96` of it. It is there for a difference of at most
    /// `2^96 - 1` in absolute value. Which way an inexact difference is rounded is left to the name.
    #[verifier::external_body]
    pub(crate) fn checked_sub(self, other: Decimal) -> (result: Option<Decimal>)
        ensures
            result == decimal_difference(self, other),
            result matches Some(difference) ==> difference.wf() && takes_away(
                self,
                other,
                difference,
            ),
            is_decimal(self.units() - other.units()) ==> result is Some,
            magnitude(self.units() - other.units()) <= MAX_COEFFICIENT * one() ==> result is Some,
    {
        rust_decimal::Decimal::from_i128_with_scale(self.coefficient, self.places)
            .checked_sub(rust_decimal::Decimal::from_i128_with_scale(other.coefficient, other.places))
            .map(|d| Decimal { coefficient: d.mantissa(), places: d.scale() })
    }

    /// Calls `rust_decimal::Decimal::checked_mul`.
    ///
    /// Its result is named, is the exact product whenever that product is a decimal, and is
    /// `None` for a product of `2^96` or more in absolute value. It is there for one of at most
    /// `2^96 - 1`, and is never off by more than `10^-28` or ten parts in `2^96` of it, whichever is
    /// more. Which way an inexact product is rounded is left to the name.
    #[verifier::external_body]
    pub(crate) fn checked_mul(self, other: Decimal) -> (result: Option<Decimal>)
        ensures
            result == decimal_product(self, other),
            result matches Some(product) ==> product.wf() && nearly_product(self, other, product),
            forall|units: int| #[trigger]
                is_decimal(units) && units * one() == self.units() * other.units()
                    ==> result is Some && result->0.units() == units,
            magnitude(self.units() * other.units()) <= MAX_COEFFICIENT * (one() * one()) ==> result
                is Some,
            self.units() * other.units() >= (MAX_COEFFICIENT + 1) * (one() * one()) ==> result is None,
            self.units() * other.units() <= -((MAX_COEFFICIENT + 1) * (one() * one()))
                ==> result is None,
    {
        rust_decimal::Decimal::from_i128_with_scale(self.coefficient, self.places)
            .checked_mul(rust_decimal::Decimal::from_i128_with_scale(other.coefficient, other.places))
            .map(|d| Decimal { coefficient: d.mantissa(), places: d.scale() })
    }

    /// Calls `rust_decimal::Decimal::checked_div`.
    ///
    /// Its result is named, is the exact quotient whenever that quotient is a decimal, and is
    /// `None` for a zero divisor. It is there for a quotient of at most `2^96 - 1` in absolute
    /// value, and is never off by more than `10^-28` or ten parts in `2^96` of it, whichever is more.
    /// Which way an inexact quotient is rounded is left to the name.
    #[verifier::external_body]
    pub(crate) fn checked_div(self, other: Decimal) -> (result: Option<Decimal>)
        ensures
            result == decimal_quotient(self, other),
            result matches Some(quotient) ==> quotient.wf() && nearly_quotient(
                self,
                other,
                quotient,
            ),
            other.units() == 0 ==> result is None,
            other.units() != 0 && magnitude(self.units()) <= MAX_COEFFICIENT * magnitude(
                other.units(),
            ) ==> result is Some,
            forall|units: int| #[trigger]
                is_decimal(units) && other.units() != 0 && units * other.units() == self.units()
                    * one() ==> result is Some && result->0.units() == units,
    {
        rust_decimal::Decimal::from_i128_with_scale(self.coefficient, self.places)
            .checked_div(rust_decimal::Decimal::from_i128_with_scale(other.coefficient, other.places))
            .map(|d| Decimal { coefficient: d.mantissa(), places: d.scale() })
    }

    /// Calls `rust_decimal::Decimal::floor`.
    ///
    /// The result is the largest integer that is no greater than the number, with no decimal
    /// places.
    #[verifier::external_body]
    pub(crate) fn floor(self) -> (result: Decimal)
        ensures
            result.wf(),
            result == floored(self),
    {
        let floored = rust_decimal::Decimal::from_i128_with_scale(self.coefficient, self.places).floor();
        Decimal { coefficient: floored.mantissa(), places: floored.scale() }
    }

    /// Calls the `<` of `rust_decimal::Decimal`, which compares the two numbers exactly.
    #[verifier::external_body]
    pub(crate) fn less_than(self, other: Decimal) -> (result: bool)
        ensures
            result == (self.units() < other.units()),
    {
        rust_decimal::Decimal::from_i128_with_scale(self.coefficient, self.places)
            < rust_decimal::Decimal::from_i128_with_scale(other.coefficient, other.places)
    }

    /// Calls `rust_decimal::Decimal::from_str`.
    ///
    /// Its result is named. A plain numeral is read as the digits that it has, with as many places
    /// as stand behind its point. What other texts are read as is left to the name, and the reason
    /// for which one is rejected is dropped.
    #[verifier::external_body]
    pub(crate) fn parse(text: &str) -> (result: Option<Decimal>)
        ensures
            result == decimal_of_text(text@),
            result matches Some(d) ==> d.wf(),
            plain_decimal(text@) is Some ==> result == plain_decimal(text@),
    {
        rust_decimal::Decimal::from_str(text)
            .ok()
            .map(|d| Decimal { coefficient: d.mantissa(), places: d.scale() })
    }

    /// The greater of two numbers.
    pub fn max(self, other: Decimal) -> (result: Decimal)
        ensures
            result == greater(self, other),
    {
        if self.less_than(other) {
            other
        } else {
            self
        }
    }

    /// The lesser of two numbers.
    pub fn min(self, other: Decimal) -> (result: Decimal)
        ensures
            result == lesser(self, other),
    {
        if other.less_than(self) {
            other
        } else {
            self
        }
    }
}

/// The sum of two decimals is a decimal if it fits in the places of the longer one.
pub proof fn law_sum_is_decimal(a: Decimal, b: Decimal, places: nat)
    requires
        a.places() <= places <= 28,
        b.places() <= places,
        -MAX_COEFFICIENT <= a.coefficient() * ten_to((places - a.places()) as nat)
            + b.coefficient() * ten_to((places - b.places()) as nat) <= MAX_COEFFICIENT,
    ensures
        is_decimal(a.units() + b.units()),
{
    let rest = ten_to((28 - places) as nat);
    let up_a = ten_to((places - a.places()) as nat);
    let up_b = ten_to((places - b.places()) as nat);
    let sum = a.coefficient() * up_a + b.coefficient() * up_b;
    lemma_ten_to((places - a.places()) as nat, (28 - places) as nat);
    lemma_ten_to((places - b.places()) as nat, (28 - places) as nat);
    assert(sum * rest == a.coefficient() * (up_a * rest) + b.coefficient() * (up_b * rest))
        by (nonlinear_arith)
        requires
            sum == a.coefficient() * up_a + b.coefficient() * up_b,
    ;
    assert(units_of(sum, places) == a.units() + b.units());
}

/// The greater and the lesser of two decimals are among them, and are no less and no more than either;
/// the first counts if they are the same number.
pub proof fn law_greater_and_lesser(a: Decimal, b: Decimal)
    ensures
        greater(a, b) == a || greater(a, b) == b,
        greater(a, b).units() >= a.units(),
        greater(a, b).units() >= b.units(),
        lesser(a, b) == a || lesser(a, b) == b,
        lesser(a, b).units() <= a.units(),
        lesser(a, b).units() <= b.units(),
        a.units() == b.units() ==> greater(a, b) == a && lesser(a, b) == a,
{
}

} // verus!
