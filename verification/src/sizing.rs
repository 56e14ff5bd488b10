//! Order sizes.

use vstd::prelude::*;
use vstd::arithmetic::div_mod::{
    lemma_div_is_ordered, lemma_fundamental_div_mod, lemma_fundamental_div_mod_converse,
};
use vstd::arithmetic::power::pow;
use vstd::math::{max, min};
use crate::config::BotConfig;
use crate::decimal::{
    adds_up, decimal_difference, decimal_product, decimal_quotient, decimal_sum, greater,
    is_decimal, is_slight, lemma_div_common_factor, lemma_floored, lemma_parts, lemma_ten_to, lesser,
    magnitude, multiplies_out, nearly_product, nearly_quotient, one, same_sum,
    takes_away, ten_to, units_of, Decimal, MAX_COEFFICIENT,
};

verus! {

/// The most decimal places that an order size can be rounded to: `10^20` does not fit in a `u64`.
pub const MAX_SIZE_DECIMALS: u32 = 19;

/// `10^exponent`.
fn power_of_ten(exponent: u32) -> (result: u64)
    requires
        exponent <= MAX_SIZE_DECIMALS,
    ensures
        result == ten_to(exponent as nat),
{
    let mut result: u64 = 1;
    let mut i: u32 = 0;
    proof {
        lemma_ten_to(0, 0);
        assert(ten_to(19) == 10_000_000_000_000_000_000) by {
            reveal_with_fuel(pow, 20);
        }
    }
    while i < exponent
        invariant
            i <= exponent <= MAX_SIZE_DECIMALS,
            result == ten_to(i as nat),
            ten_to(19) == 10_000_000_000_000_000_000,
        decreases exponent - i,
    {
        proof {
            lemma_ten_to(i as nat, 1);
            lemma_ten_to((i + 1) as nat, 19);
        }
        result = result * 10;
        i = i + 1;
    }
    result
}

/// Whether a number, in units of `10^-28`, can be shifted left by `decimals` decimal places.
pub open spec fn shifts_in_range(units: int, decimals: nat) -> bool {
    magnitude(units * ten_to(decimals)) <= MAX_COEFFICIENT * one()
}

/// Whether [`round_down`] takes these arguments.
pub open spec fn rounds_in_range(value: Decimal, decimals: u32) -> bool {
    ||| decimals == 0
    ||| decimals <= MAX_SIZE_DECIMALS && shifts_in_range(value.units(), decimals as nat)
}

/// How many whole steps of `10^-decimals` a number has, given in units of `10^-28`.
pub open spec fn whole_steps(units: int, decimals: nat) -> int {
    units * ten_to(decimals) / one()
}

/// `value` rounded down to `decimals` decimal places: the whole steps that it has, divided by how
/// many there are in one. `None` if they are out of range.
pub open spec fn rounded_down(value: Decimal, decimals: u32) -> Option<Decimal> {
    let steps = Decimal::of_parts(whole_steps(value.units(), decimals as nat), 0);
    if !rounds_in_range(value, decimals) {
        None
    } else if decimals == 0 {
        Some(steps)
    } else {
        decimal_quotient(steps, Decimal::of_parts(ten_to(decimals as nat), 0))
    }
}

/// The greatest multiple of `10^-decimals` that is no greater than `units`, all in units of
/// `10^-28`.
pub open spec fn step_below(units: int, decimals: nat) -> int {
    let step = ten_to((28 - decimals) as nat);
    (units / step) * step
}

/// Shifting by `decimals` places multiplies the units, and gives a decimal if it is in range.
proof fn lemma_shift(value: Decimal, decimals: nat)
    requires
        value.wf(),
        decimals <= MAX_SIZE_DECIMALS,
    ensures
        shifts_in_range(value.units(), decimals) ==> is_decimal(value.units() * ten_to(decimals)),
        !shifts_in_range(value.units(), decimals) ==> {
            let product = value.units() * (ten_to(decimals) * one());
            ||| product >= (MAX_COEFFICIENT + 1) * (one() * one())
            ||| product <= -((MAX_COEFFICIENT + 1) * (one() * one()))
        },
{
    let c = value.coefficient();
    let s = value.places();
    let k = ten_to((28 - s) as nat);
    lemma_ten_to((28 - s) as nat, decimals);
    lemma_ten_to(28, 0);
    if decimals <= s {
        let less = ten_to((28 - (s - decimals)) as nat);
        assert(c * k * ten_to(decimals) == c * (k * ten_to(decimals))) by (nonlinear_arith);
        assert((28 - s) as nat + decimals == (28 - (s - decimals)) as nat);
        assert(units_of(c, (s - decimals) as nat) == value.units() * ten_to(decimals));
        lemma_ten_to((28 - (s - decimals)) as nat, 28);
        assert(magnitude(c * less) <= MAX_COEFFICIENT * one()) by (nonlinear_arith)
            requires
                -MAX_COEFFICIENT <= c <= MAX_COEFFICIENT,
                0 < less <= one(),
        ;
    } else {
        let up = ten_to((decimals - s) as nat);
        let p = c * up;
        let unit = one() * one();
        lemma_ten_to((decimals - s) as nat, 28);
        assert((28 - s) as nat + decimals == (decimals - s) as nat + 28);
        assert(c * k * ten_to(decimals) == p * one()) by (nonlinear_arith)
            requires
                k * ten_to(decimals) == up * one(),
                p == c * up,
        ;
        if shifts_in_range(value.units(), decimals) {
            assert(-MAX_COEFFICIENT <= p <= MAX_COEFFICIENT) by (nonlinear_arith)
                requires
                    magnitude(p * one()) <= MAX_COEFFICIENT * one(),
                    one() > 0,
            ;
            assert(units_of(p, 0) == value.units() * ten_to(decimals));
        } else {
            assert(c * k * (ten_to(decimals) * one()) == (c * k * ten_to(decimals)) * one())
                by (nonlinear_arith);
            assert(p * one() * one() == p * unit) by (nonlinear_arith)
                requires
                    unit == one() * one(),
            ;
            assert(unit > 0) by (nonlinear_arith)
                requires
                    one() > 0,
                    unit == one() * one(),
            ;
            if p > MAX_COEFFICIENT {
                assert(p * unit >= (MAX_COEFFICIENT + 1) * unit) by (nonlinear_arith)
                    requires
                        p >= MAX_COEFFICIENT + 1,
                        unit > 0,
                ;
            } else {
                assert(p < -MAX_COEFFICIENT) by (nonlinear_arith)
                    requires
                        magnitude(p * one()) > MAX_COEFFICIENT * one(),
                        p <= MAX_COEFFICIENT,
                        one() > 0,
                ;
                assert(p * unit <= -((MAX_COEFFICIENT + 1) * unit)) by (nonlinear_arith)
                    requires
                        p <= -(MAX_COEFFICIENT + 1),
                        unit > 0,
                ;
            }
        }
    }
}

/// The exact arithmetic of rounding down: shift left, take the integer part, shift back.
proof fn lemma_step_below(value: Decimal, decimals: nat)
    requires
        value.wf(),
        decimals <= MAX_SIZE_DECIMALS,
    ensures
        ({
            let whole = whole_steps(value.units(), decimals);
            let back = units_of(whole, decimals);
            &&& back == step_below(value.units(), decimals)
            &&& back * (ten_to(decimals) * one()) == (whole * one()) * one()
        }),
{
    let step = ten_to((28 - decimals) as nat);
    lemma_ten_to((28 - decimals) as nat, decimals);
    lemma_div_common_factor(value.units(), step, ten_to(decimals));
    let whole = value.units() * ten_to(decimals) / one();
    assert(whole * step * (ten_to(decimals) * one()) == whole * (step * ten_to(decimals)) * one())
        by (nonlinear_arith);
}

/// Rounds `value` down to `decimals` decimal places, or returns `None` if `10^decimals` or the
/// shifted number is out of range.
fn checked_round_down(value: Decimal, decimals: u32) -> (result: Option<Decimal>)
    ensures
        value.wf(),
        result == rounded_down(value, decimals),
        result is Some <==> rounds_in_range(value, decimals),
        result matches Some(rounded) ==> rounded.wf() && rounded.units() == step_below(
            value.units(),
            decimals as nat,
        ),
{
    let _ = value.mantissa();
    if decimals == 0 {
        let whole = value.floor();
        proof {
            lemma_floored(value);
            lemma_ten_to(0, 28);
            assert(value.units() * ten_to(0) == value.units()) by (nonlinear_arith)
                requires
                    ten_to(0) == 1,
            ;
            lemma_parts(whole_steps(value.units(), 0), 0);
            assert(units_of(whole.coefficient(), 0) == step_below(value.units(), 0));
        }
        return Some(whole);
    }
    if decimals > MAX_SIZE_DECIMALS {
        return None;
    }
    let multiplier = Decimal::from_integer(power_of_ten(decimals));
    proof {
        lemma_shift(value, decimals as nat);
        lemma_step_below(value, decimals as nat);
        lemma_ten_to(decimals as nat, 28);
        assert(value.units() * ten_to(decimals as nat) * one() == value.units() * multiplier.units())
            by (nonlinear_arith)
            requires
                multiplier.units() == ten_to(decimals as nat) * one(),
        ;
    }
    match value.checked_mul(multiplier) {
        None => None,
        Some(shifted) => {
            let whole = shifted.floor();
            proof {
                lemma_floored(shifted);
                let steps = whole_steps(value.units(), decimals as nat);
                assert(whole.coefficient() == steps);
                lemma_parts(steps, 0);
                assert(is_decimal(units_of(steps, decimals as nat)));
                assert(multiplier.units() != 0) by (nonlinear_arith)
                    requires
                        multiplier.units() == ten_to(decimals as nat) * one(),
                        ten_to(decimals as nat) > 0,
                        one() > 0,
                ;
            }
            whole.checked_div(multiplier)
        },
    }
}

/// Rounds `value` down to `decimals` decimal places.
pub fn round_down(value: Decimal, decimals: u32) -> (result: Decimal)
    requires
        rounds_in_range(value, decimals),
    ensures
        rounded_down(value, decimals) == Some(result),
        result.wf(),
        result.units() == step_below(value.units(), decimals as nat),
{
    match checked_round_down(value, decimals) {
        Some(rounded) => rounded,
        None => value,
    }
}

/// What sizing an order comes to.
pub enum Sizing {
    /// A number on the way is out of a decimal's range.
    OutOfRange,
    /// No order of an acceptable size.
    Declined,
    /// The number of shares of each leg, what both legs cost, and the price of a share of each.
    Sized(Decimal, Decimal, Decimal),
}

/// The number zero.
pub open spec fn zero() -> Decimal {
    Decimal::of_parts(0, 0)
}

/// The least price that a leg is taken to have, `10^-9`.
pub open spec fn least_price() -> Decimal {
    Decimal::of_parts(1, 9)
}

/// What may be spent of a balance: what is above the reserve, if anything.
pub open spec fn spendable(config: BotConfig, available_usdc: Decimal) -> Option<Decimal> {
    match decimal_difference(available_usdc, config.reserve_usdc) {
        Some(difference) => Some(greater(difference, zero())),
        None => None,
    }
}

/// The share of the spendable amount that one trade may cost.
pub open spec fn trade_budget(config: BotConfig, spendable: Decimal) -> Option<Decimal> {
    match decimal_product(spendable, config.bankroll_fraction) {
        Some(share) => Some(lesser(share, config.max_trade_notional_usd)),
        None => None,
    }
}

/// The shares that make a leg cost as much as a leg must.
pub open spec fn least_shares(config: BotConfig, ask: Decimal) -> Option<Decimal> {
    decimal_quotient(config.min_leg_notional_usd, greater(ask, least_price()))
}

/// The shares that a budget buys, but no fewer than each leg needs, and no more than the size cap
/// and what the books offer; not yet rounded.
pub open spec fn capped_shares(
    config: BotConfig,
    budget: Decimal,
    total_price: Decimal,
    ask_a: Decimal,
    ask_b: Decimal,
    book_sz_a: Decimal,
    book_sz_b: Decimal,
) -> Option<Decimal> {
    match (
        decimal_quotient(budget, total_price),
        least_shares(config, ask_a),
        least_shares(config, ask_b),
    ) {
        (Some(bought), Some(least_a), Some(least_b)) => Some(
            lesser(
                lesser(lesser(greater(bought, greater(least_a, least_b)), config.size), book_sz_a),
                book_sz_b,
            ),
        ),
        _ => None,
    }
}

/// The size of an order on both legs that a balance allows.
pub open spec fn bankroll_sizing(
    config: BotConfig,
    available_usdc: Decimal,
    ask_a: Decimal,
    ask_b: Decimal,
    book_sz_a: Decimal,
    book_sz_b: Decimal,
) -> Sizing {
    match decimal_sum(ask_a, ask_b) {
        None => Sizing::OutOfRange,
        Some(total_price) => if total_price.units() <= 0 {
            Sizing::Declined
        } else {
            match spendable(config, available_usdc) {
                None => Sizing::OutOfRange,
                Some(spendable) => if spendable.units() <= 0 {
                    Sizing::Declined
                } else {
                    match trade_budget(config, spendable) {
                        None => Sizing::OutOfRange,
                        Some(budget) => if budget.units() < config.min_trade_notional_usd.units() {
                            Sizing::Declined
                        } else {
                            match capped_shares(
                                config,
                                budget,
                                total_price,
                                ask_a,
                                ask_b,
                                book_sz_a,
                                book_sz_b,
                            ) {
                                None => Sizing::OutOfRange,
                                Some(capped) => rounded_sizing(
                                    config,
                                    spendable,
                                    total_price,
                                    capped,
                                ),
                            }
                        },
                    }
                },
            }
        },
    }
}

/// The last steps of sizing: round, and hold the cost against the bounds of a trade.
pub open spec fn rounded_sizing(
    config: BotConfig,
    spendable: Decimal,
    total_price: Decimal,
    capped: Decimal,
) -> Sizing {
    match rounded_down(capped, config.size_decimals) {
        None => Sizing::OutOfRange,
        Some(shares) => if shares.units() <= 0 {
            Sizing::Declined
        } else {
            match decimal_product(shares, total_price) {
                None => Sizing::OutOfRange,
                Some(used) => if used.units() < config.min_trade_notional_usd.units()
                    || used.units() > spendable.units() {
                    Sizing::Declined
                } else {
                    Sizing::Sized(shares, used, total_price)
                },
            }
        },
    }
}

/// What holds of every order that a balance allows: it has shares, no more than the size cap and
/// either book offers, which are those that the budget and the leg minimums call for, rounded down to
/// the size's decimal places, and costs no less than a trade must and no more than may be spent. With
/// ordinary amounts it costs no more than the budget of a trade and a trillionth, unless a leg
/// minimum calls for more shares than the budget buys.
pub open spec fn order_is_sound(
    config: BotConfig,
    available_usdc: Decimal,
    ask_a: Decimal,
    ask_b: Decimal,
    book_sz_a: Decimal,
    book_sz_b: Decimal,
    shares: Decimal,
    used: Decimal,
) -> bool {
    &&& shares.units() > 0
    &&& shares.units() <= config.size.units()
    &&& shares.units() <= book_sz_a.units()
    &&& shares.units() <= book_sz_b.units()
    &&& is_rounded_size(config, available_usdc, ask_a, ask_b, book_sz_a, book_sz_b, shares)
    &&& shares.units() == step_below(shares.units(), config.size_decimals as nat)
    &&& config.min_trade_notional_usd.units() <= used.units()
    &&& spendable(config, available_usdc) matches Some(limit) && used.units() <= limit.units()
        && takes_away(available_usdc, config.reserve_usdc, limit)
    &&& is_decimal(available_usdc.units() - config.reserve_usdc.units()) ==> used.units()
        <= available_usdc.units() - config.reserve_usdc.units()
    &&& is_ordinary(config, available_usdc, ask_a, ask_b, book_sz_a, book_sz_b) ==> keeps_to_budget(
        config,
        available_usdc,
        ask_a,
        ask_b,
        used,
    )
}

/// The price of a share of each leg and the budget of a trade.
pub open spec fn price_and_budget(
    config: BotConfig,
    available_usdc: Decimal,
    ask_a: Decimal,
    ask_b: Decimal,
) -> Option<(Decimal, Decimal)> {
    match (decimal_sum(ask_a, ask_b), spendable(config, available_usdc)) {
        (Some(total_price), Some(spendable)) => match trade_budget(config, spendable) {
            Some(budget) => Some((total_price, budget)),
            None => None,
        },
        _ => None,
    }
}

/// The shares that the budget and the leg minimums call for, within the caps; not yet rounded.
pub open spec fn capped_size(
    config: BotConfig,
    available_usdc: Decimal,
    ask_a: Decimal,
    ask_b: Decimal,
    book_sz_a: Decimal,
    book_sz_b: Decimal,
) -> Option<Decimal> {
    match price_and_budget(config, available_usdc, ask_a, ask_b) {
        Some((total_price, budget)) => capped_shares(
            config,
            budget,
            total_price,
            ask_a,
            ask_b,
            book_sz_a,
            book_sz_b,
        ),
        None => None,
    }
}

/// Whether `shares` is what is called for, rounded down to the size's decimal places.
pub open spec fn is_rounded_size(
    config: BotConfig,
    available_usdc: Decimal,
    ask_a: Decimal,
    ask_b: Decimal,
    book_sz_a: Decimal,
    book_sz_b: Decimal,
    shares: Decimal,
) -> bool {
    &&& config.size_decimals <= MAX_SIZE_DECIMALS
    &&& capped_size(config, available_usdc, ask_a, ask_b, book_sz_a, book_sz_b) matches Some(capped)
        && shares.units() == step_below(capped.units(), config.size_decimals as nat)
}

/// Whether a leg minimum calls for more shares than a budget buys.
pub open spec fn is_lifted(
    config: BotConfig,
    budget: Decimal,
    total_price: Decimal,
    ask_a: Decimal,
    ask_b: Decimal,
) -> bool {
    match (
        decimal_quotient(budget, total_price),
        least_shares(config, ask_a),
        least_shares(config, ask_b),
    ) {
        (Some(bought), Some(least_a), Some(least_b)) => bought.units() < least_a.units()
            || bought.units() < least_b.units(),
        _ => false,
    }
}

/// Whether a cost is no more than the budget of a trade and a trillionth, unless a leg minimum calls
/// for more shares than the budget buys.
pub open spec fn keeps_to_budget(
    config: BotConfig,
    available_usdc: Decimal,
    ask_a: Decimal,
    ask_b: Decimal,
    used: Decimal,
) -> bool {
    price_and_budget(config, available_usdc, ask_a, ask_b) matches Some((total_price, budget)) && (
    is_lifted(config, budget, total_price, ask_a, ask_b) || used.units() <= budget.units() + ten_to(
        16,
    ))
}

/// A trillion: amounts up to it are ordinary.
pub const MAX_AMOUNT: i128 = 1_000_000_000_000;

/// Whether a number is no greater than a trillion in absolute value.
pub open spec fn is_amount(d: Decimal) -> bool {
    magnitude(d.units()) <= MAX_AMOUNT * one()
}

/// Whether the amounts among the settings that bear on sizes are ordinary.
pub open spec fn has_amounts(config: BotConfig) -> bool {
    &&& is_amount(config.size)
    &&& is_amount(config.bankroll_fraction)
    &&& is_amount(config.reserve_usdc)
    &&& is_amount(config.min_leg_notional_usd)
    &&& is_amount(config.min_trade_notional_usd)
    &&& is_amount(config.max_trade_notional_usd)
}

/// Whether the settings that bear on sizes are ordinary: amounts, and at most six decimal places.
pub open spec fn has_ordinary_amounts(config: BotConfig) -> bool {
    has_amounts(config) && config.size_decimals <= 6
}

/// Whether two asks are ordinary: amounts, with a decimal as their sum that, if it is positive, is
/// `10^-9` or more.
pub open spec fn are_ordinary_asks(ask_a: Decimal, ask_b: Decimal) -> bool {
    let sum = ask_a.units() + ask_b.units();
    &&& is_amount(ask_a)
    &&& is_amount(ask_b)
    &&& is_decimal(sum)
    &&& sum <= 0 || sum >= ten_to(19)
}

/// Whether a balance is ordinary: an amount, and what is above the reserve is a decimal.
pub open spec fn is_ordinary_balance(config: BotConfig, available_usdc: Decimal) -> bool {
    is_amount(available_usdc) && is_decimal(available_usdc.units() - config.reserve_usdc.units())
}

/// Whether all that bears on the size of an order is ordinary.
pub open spec fn is_ordinary(
    config: BotConfig,
    available_usdc: Decimal,
    ask_a: Decimal,
    ask_b: Decimal,
    book_sz_a: Decimal,
    book_sz_b: Decimal,
) -> bool {
    &&& has_ordinary_amounts(config)
    &&& is_ordinary_balance(config, available_usdc)
    &&& are_ordinary_asks(ask_a, ask_b)
    &&& is_amount(book_sz_a)
    &&& is_amount(book_sz_b)
}

/// Whether all that bears on the size of an order is ordinary, but perhaps for the number of decimal
/// places.
pub open spec fn takes_amounts(
    config: BotConfig,
    available_usdc: Decimal,
    ask_a: Decimal,
    ask_b: Decimal,
    book_sz_a: Decimal,
    book_sz_b: Decimal,
) -> bool {
    &&& has_amounts(config)
    &&& is_ordinary_balance(config, available_usdc)
    &&& are_ordinary_asks(ask_a, ask_b)
    &&& is_amount(book_sz_a)
    &&& is_amount(book_sz_b)
}

/// The least price in units.
proof fn lemma_least_price()
    ensures
        Decimal::of_parts(1, 9).units() == ten_to(19),
{
    lemma_parts(1, 9);
}

/// Some powers of ten.
proof fn lemma_powers()
    ensures
        ten_to(6) == 1_000_000,
        ten_to(19) == 10_000_000_000_000_000_000,
        one() == 10_000_000_000_000_000_000_000_000_000,
{
    assert(ten_to(6) == 1_000_000) by {
        reveal_with_fuel(pow, 7);
    }
    assert(ten_to(19) == 10_000_000_000_000_000_000) by {
        reveal_with_fuel(pow, 20);
    }
    assert(one() == 10_000_000_000_000_000_000_000_000_000) by {
        reveal_with_fuel(pow, 29);
    }
}

/// A decimal is no greater than the greatest coefficient.
proof fn lemma_units_bound(d: Decimal)
    requires
        d.wf(),
    ensures
        magnitude(d.units()) <= MAX_COEFFICIENT * one(),
{
    let unit = ten_to((28 - d.places()) as nat);
    lemma_ten_to((28 - d.places()) as nat, 28);
    assert(magnitude(d.coefficient() * unit) <= MAX_COEFFICIENT * one()) by (nonlinear_arith)
        requires
            magnitude(d.coefficient()) <= MAX_COEFFICIENT,
            0 < unit <= one(),
    ;
}

/// What is off by a slight error from a number in range is off by less than ten.
proof fn lemma_slight(error: int, number: int, weight: int)
    requires
        magnitude(error) <= weight || is_slight(error, number * weight),
        magnitude(number) <= MAX_COEFFICIENT * one(),
        weight > 0,
    ensures
        magnitude(error) <= 10 * one() * weight,
{
    let u = one();
    lemma_ten_to(28, 0);
    if magnitude(error) <= weight {
        assert(weight <= 10 * u * weight) by (nonlinear_arith)
            requires
                u > 0,
                weight > 0,
        ;
    } else {
        let m = MAX_COEFFICIENT + 1;
        assert(magnitude(number * weight) <= m * (u * weight)) by (nonlinear_arith)
            requires
                magnitude(number) <= m * u,
                weight > 0,
        ;
        assert(magnitude(error) <= 10 * (u * weight)) by (nonlinear_arith)
            requires
                magnitude(error) * m <= 10 * (m * (u * weight)),
                m > 0,
        ;
        assert(10 * (u * weight) == 10 * u * weight) by (nonlinear_arith);
    }
}

/// A product is in range, and is hardly greater than the greatest numbers make it.
proof fn lemma_product_bound(a: Decimal, b: Decimal, bound_a: int, bound_b: int)
    requires
        magnitude(a.units()) <= bound_a * one(),
        magnitude(b.units()) <= bound_b * one(),
        0 <= bound_a,
        0 <= bound_b,
        bound_a * bound_b <= MAX_COEFFICIENT,
    ensures
        magnitude(a.units() * b.units()) <= MAX_COEFFICIENT * (one() * one()),
        forall|p: Decimal| #[trigger]
            nearly_product(a, b, p) && p.wf() ==> magnitude(p.units()) <= (bound_a * bound_b + 10)
                * one(),
{
    let u = one();
    let x = a.units();
    let y = b.units();
    let bound = bound_a * bound_b;
    lemma_ten_to(28, 0);
    assert(magnitude(x * y) <= bound * (u * u)) by (nonlinear_arith)
        requires
            magnitude(x) <= bound_a * u,
            magnitude(y) <= bound_b * u,
            bound == bound_a * bound_b,
            u > 0,
    {
        assert(magnitude(x * y) == magnitude(x) * magnitude(y));
        assert(magnitude(x) * magnitude(y) <= (bound_a * u) * (bound_b * u));
        assert((bound_a * u) * (bound_b * u) == (bound_a * bound_b) * (u * u));
    }
    assert(bound * (u * u) <= MAX_COEFFICIENT * (u * u)) by (nonlinear_arith)
        requires
            bound <= MAX_COEFFICIENT,
            u > 0,
    ;
    assert forall|p: Decimal| #[trigger] nearly_product(a, b, p) && p.wf() implies magnitude(
        p.units(),
    ) <= (bound + 10) * one() by {
        lemma_units_bound(p);
        lemma_slight(p.units() * u - x * y, p.units(), u);
        assert(magnitude(p.units()) <= (bound + 10) * u) by (nonlinear_arith)
            requires
                magnitude(p.units() * u - x * y) <= 10 * u * u,
                magnitude(x * y) <= bound * (u * u),
                u > 0,
        {
            assert(magnitude(p.units() * u) <= (bound + 10) * u * u);
        }
    }
}

/// The quotient of an amount and a number of `10^-9` or more is in range, and is hardly greater
/// than the least divisor makes it.
proof fn lemma_quotient_bound(a: Decimal, b: Decimal)
    requires
        is_amount(a),
        b.units() >= ten_to(19),
    ensures
        magnitude(a.units()) <= MAX_COEFFICIENT * magnitude(b.units()),
        forall|q: Decimal| #[trigger]
            nearly_quotient(a, b, q) && q.wf() ==> magnitude(q.units())
                <= 1_000_000_000_000_000_000_010 * one(),
{
    let u = one();
    let y = b.units();
    let top = 1_000_000_000_000_000_000_010 * u;
    lemma_powers();
    assert forall|q: Decimal| #[trigger] nearly_quotient(a, b, q) && q.wf() implies magnitude(
        q.units(),
    ) <= top by {
        let x = a.units();
        let z = q.units();
        lemma_units_bound(q);
        lemma_slight(z * y - x * u, z, y);
        assert(magnitude(x * u) <= 1_000_000_000_000_000_000_000 * u * y) by (nonlinear_arith)
            requires
                magnitude(x) <= 1_000_000_000_000 * u,
                u == 10_000_000_000_000_000_000_000_000_000,
                y >= 10_000_000_000_000_000_000,
        ;
        assert(top * y == 1_000_000_000_000_000_000_000 * u * y + 10 * u * y) by (nonlinear_arith)
            requires
                top == 1_000_000_000_000_000_000_010 * u,
        ;
        assert(magnitude(z) <= top) by (nonlinear_arith)
            requires
                magnitude(z * y) <= top * y,
                y > 0,
        ;
    }
}

/// The cost of shares that a budget buys is no more than the budget and a trillionth.
proof fn lemma_keeps_to_budget(
    budget: Decimal,
    total_price: Decimal,
    bought: Decimal,
    shares: Decimal,
    used: Decimal,
)
    requires
        is_amount(budget),
        0 < total_price.units() <= 2 * MAX_AMOUNT * one(),
        nearly_quotient(budget, total_price, bought),
        nearly_product(shares, total_price, used),
        0 < shares.units() <= bought.units(),
        magnitude(used.units()) <= 2 * MAX_AMOUNT * one(),
    ensures
        used.units() <= budget.units() + ten_to(16),
{
    let u: int = 10_000_000_000_000_000_000_000_000_000;
    let paid = bought.units() * total_price.units();
    let cost = shares.units() * total_price.units();
    let error_of_paid = paid - budget.units() * one();
    let error_of_cost = used.units() * one() - cost;
    lemma_powers();
    assert(ten_to(16) == 10_000_000_000_000_000) by {
        reveal_with_fuel(pow, 17);
    }
    assert(budget.units() * one() == u * budget.units()) by (nonlinear_arith)
        requires
            one() == u,
    ;
    assert(used.units() * one() == u * used.units()) by (nonlinear_arith)
        requires
            one() == u,
    ;
    assert(0 < cost <= paid) by (nonlinear_arith)
        requires
            0 < shares.units() <= bought.units(),
            total_price.units() > 0,
            paid == bought.units() * total_price.units(),
            cost == shares.units() * total_price.units(),
    ;
    assert(error_of_paid <= 2_000_000_000_000 * u);
    assert(-3_000_000_000_000 * u <= error_of_cost <= 3_000_000_000_000 * u);
}

/// A number of at most `10^21 + 10` in absolute value can be shifted by six decimal places.
proof fn lemma_ordinary_shift(units: int, decimals: nat)
    requires
        magnitude(units) <= 1_000_000_000_000_000_000_010 * one(),
        decimals <= 6,
    ensures
        shifts_in_range(units, decimals),
{
    lemma_powers();
    lemma_ten_to(decimals, 6);
    assert(magnitude(units * ten_to(decimals)) <= magnitude(units) * 1_000_000) by (nonlinear_arith)
        requires
            0 < ten_to(decimals) <= 1_000_000,
    ;
}

/// Whether `n`, in units of `10^-28`, is the size that an order with ordinary amounts should have,
/// up to a trillionth in what it costs.
///
/// It is a whole number of steps of the size's decimal places, within the size cap and what the books
/// offer. It costs no more than the trade cap and no more than the fraction of what is above the
/// reserve, or else a leg of it costs no more than a leg must. And a step more would be above the size
/// cap or a book, or would cost more than the trade cap or the fraction, with both legs above what a
/// leg must cost.
pub open spec fn is_fitting_size(
    config: BotConfig,
    available_usdc: Decimal,
    ask_a: Decimal,
    ask_b: Decimal,
    book_sz_a: Decimal,
    book_sz_b: Decimal,
    n: int,
) -> bool {
    let price = ask_a.units() + ask_b.units();
    let price_a = max(ask_a.units(), ten_to(19));
    let price_b = max(ask_b.units(), ten_to(19));
    let fraction = (available_usdc.units() - config.reserve_usdc.units())
        * config.bankroll_fraction.units();
    let cap = config.max_trade_notional_usd.units();
    let leg = config.min_leg_notional_usd.units();
    let step = ten_to((28 - config.size_decimals) as nat);
    let more = n + step;
    let slack = ten_to(16);
    &&& n == (n / step) * step
    &&& n <= config.size.units()
    &&& n <= book_sz_a.units()
    &&& n <= book_sz_b.units()
    &&& {
        ||| n * price <= (cap + slack) * one() && n * price <= fraction + slack * one()
        ||| n * price_a <= (leg + slack) * one()
        ||| n * price_b <= (leg + slack) * one()
    }
    &&& {
        ||| more > config.size.units()
        ||| more > book_sz_a.units()
        ||| more > book_sz_b.units()
        ||| {
            &&& more * price > (cap - slack) * one() || more * price > fraction - slack * one()
            &&& more * price_a > (leg - slack) * one()
            &&& more * price_b > (leg - slack) * one()
        }
    }
}

/// Whether there is a reason to make no order with ordinary amounts, up to a trillionth in what it
/// costs: the asks add up to nothing, nothing is above the reserve, the trade cap or the fraction of
/// what is above the reserve is less than a trade must cost, or the size that fits is nothing, costs
/// less than a trade must, or costs more than what is above the reserve.
pub open spec fn may_decline(
    config: BotConfig,
    available_usdc: Decimal,
    ask_a: Decimal,
    ask_b: Decimal,
    book_sz_a: Decimal,
    book_sz_b: Decimal,
) -> bool {
    let price = ask_a.units() + ask_b.units();
    let above = available_usdc.units() - config.reserve_usdc.units();
    let least = config.min_trade_notional_usd.units();
    let slack = ten_to(16);
    ||| price <= 0
    ||| above <= 0
    ||| config.max_trade_notional_usd.units() < least
    ||| above * config.bankroll_fraction.units() < (least + slack) * one()
    ||| exists|n: int| #[trigger]
        is_fitting_size(config, available_usdc, ask_a, ask_b, book_sz_a, book_sz_b, n) && (n <= 0 || n
            * price < (least + slack) * one() || n * price > (above - slack) * one())
}

/// Whether an order with ordinary amounts is as it should be, up to a trillionth in what it costs: the
/// price is the sum of the asks, the size fits, the cost is that of so many shares, and neither the
/// trade cap, nor the fraction of what is above the reserve, nor the cost is less than a trade must
/// cost.
pub open spec fn is_right_order(
    config: BotConfig,
    available_usdc: Decimal,
    ask_a: Decimal,
    ask_b: Decimal,
    book_sz_a: Decimal,
    book_sz_b: Decimal,
    shares: Decimal,
    used: Decimal,
    total_price: Decimal,
) -> bool {
    let price = ask_a.units() + ask_b.units();
    let above = available_usdc.units() - config.reserve_usdc.units();
    let least = config.min_trade_notional_usd.units();
    let slack = ten_to(16);
    &&& price > 0
    &&& above > 0
    &&& total_price.units() == price
    &&& shares.units() > 0
    &&& is_fitting_size(
        config,
        available_usdc,
        ask_a,
        ask_b,
        book_sz_a,
        book_sz_b,
        shares.units(),
    )
    &&& magnitude(used.units() * one() - shares.units() * price) <= slack * one()
    &&& config.max_trade_notional_usd.units() >= least
    &&& above * config.bankroll_fraction.units() + slack * one() >= least * one()
    &&& least <= used.units() <= above
}

/// Where neither leg minimum calls for more shares than the trade cap and the fraction of what is
/// above the reserve buy, an order costs no more than either, up to a trillionth.
pub proof fn law_cost_is_capped(
    config: BotConfig,
    available_usdc: Decimal,
    ask_a: Decimal,
    ask_b: Decimal,
    book_sz_a: Decimal,
    book_sz_b: Decimal,
    shares: Decimal,
    used: Decimal,
    total_price: Decimal,
)
    requires
        is_right_order(
            config,
            available_usdc,
            ask_a,
            ask_b,
            book_sz_a,
            book_sz_b,
            shares,
            used,
            total_price,
        ),
        shares.units() * max(ask_a.units(), ten_to(19)) > (config.min_leg_notional_usd.units()
            + ten_to(16)) * one(),
        shares.units() * max(ask_b.units(), ten_to(19)) > (config.min_leg_notional_usd.units()
            + ten_to(16)) * one(),
    ensures
        shares.units() * (ask_a.units() + ask_b.units()) <= (config.max_trade_notional_usd.units()
            + ten_to(16)) * one(),
        shares.units() * (ask_a.units() + ask_b.units()) <= (available_usdc.units()
            - config.reserve_usdc.units()) * config.bankroll_fraction.units() + ten_to(16) * one(),
        used.units() <= config.max_trade_notional_usd.units() + 2 * ten_to(16),
{
    lemma_powers();
    assert(used.units() <= config.max_trade_notional_usd.units() + 2 * ten_to(16))
        by (nonlinear_arith)
        requires
            one() > 0,
            used.units() * one() <= (config.max_trade_notional_usd.units() + ten_to(16)) * one()
                + ten_to(16) * one(),
    ;
}

/// The trade budget is the lesser of the trade cap and the fraction, up to a rounding error.
proof fn lemma_budget(fraction: int, share: int, cap: int, budget: int, least: int)
    requires
        ({
            let error = share * one() - fraction;
            magnitude(error) <= one() || is_slight(error, share * one())
        }),
        magnitude(cap) <= MAX_AMOUNT * one(),
        magnitude(least) <= MAX_AMOUNT * one(),
        budget == min(share, cap),
    ensures
        budget <= cap,
        budget >= -(2 * MAX_AMOUNT * one()) ==> {
            &&& budget * one() <= fraction + 3_000_000_000_000 * one()
            &&& budget == cap || fraction <= budget * one() + 3_000_000_000_000 * one()
        },
        budget < least ==> cap < least || fraction < (least + ten_to(16)) * one(),
{
    let u: int = 10_000_000_000_000_000_000_000_000_000;
    lemma_powers();
    lemma_slack();
    assert(share * one() == u * share && budget * one() == u * budget) by (nonlinear_arith)
        requires
            one() == u,
    ;
    assert((least + ten_to(16)) * one() == u * least + u * 10_000_000_000_000_000)
        by (nonlinear_arith)
        requires
            one() == u,
            ten_to(16) == 10_000_000_000_000_000,
    ;
}

/// A trillionth in units.
proof fn lemma_slack()
    ensures
        ten_to(16) == 10_000_000_000_000_000,
{
    assert(ten_to(16) == 10_000_000_000_000_000) by {
        reveal_with_fuel(pow, 17);
    }
}

/// A quotient of amounts gives back the dividend, up to a rounding error.
proof fn lemma_dividend(dividend: int, divisor: int, quotient: int)
    requires
        ({
            let error = quotient * divisor - dividend * one();
            magnitude(error) <= magnitude(divisor) || is_slight(error, quotient * divisor)
        }),
        magnitude(dividend) <= MAX_AMOUNT * one(),
        0 < divisor <= 2 * MAX_AMOUNT * one(),
    ensures
        magnitude(quotient * divisor - dividend * one()) <= 3_000_000_000_000 * one(),
{
    let u: int = 10_000_000_000_000_000_000_000_000_000;
    lemma_powers();
    assert(dividend * one() == u * dividend) by (nonlinear_arith)
        requires
            one() == u,
    ;
}

/// A cost that is below or above a bound in decimals is so in exact numbers, up to a trillionth.
proof fn lemma_cost(exact: int, used: int, least: int, most: int)
    requires
        ({
            let error = used * one() - exact;
            magnitude(error) <= one() || is_slight(error, used * one())
        }),
        magnitude(least) <= MAX_AMOUNT * one(),
        magnitude(most) <= 2 * MAX_AMOUNT * one(),
    ensures
        used < least ==> exact < (least + ten_to(16)) * one(),
        used > most ==> exact > (most - ten_to(16)) * one(),
        least <= used <= most ==> magnitude(used * one() - exact) <= ten_to(16) * one(),
{
    let u: int = 10_000_000_000_000_000_000_000_000_000;
    lemma_powers();
    lemma_slack();
    assert(used * one() == u * used && (least + ten_to(16)) * one() == u * least + u
        * 10_000_000_000_000_000 && (most - ten_to(16)) * one() == u * most - u
        * 10_000_000_000_000_000) by (nonlinear_arith)
        requires
            one() == u,
            ten_to(16) == 10_000_000_000_000_000,
    ;
}

/// The size that the steps of sizing come to fits.
proof fn lemma_fits(
    config: BotConfig,
    available_usdc: Decimal,
    ask_a: Decimal,
    ask_b: Decimal,
    book_sz_a: Decimal,
    book_sz_b: Decimal,
    budget: int,
    bought: int,
    least_a: int,
    least_b: int,
    capped: int,
)
    requires
        config.size_decimals <= 28,
        ({
            let price = ask_a.units() + ask_b.units();
            let fraction = (available_usdc.units() - config.reserve_usdc.units())
                * config.bankroll_fraction.units();
            let cap = config.max_trade_notional_usd.units();
            let leg = config.min_leg_notional_usd.units();
            let off = 3_000_000_000_000 * one();
            &&& price > 0
            &&& budget <= cap
            &&& budget * one() <= fraction + off
            &&& budget == cap || fraction <= budget * one() + off
            &&& magnitude(bought * price - budget * one()) <= off
            &&& magnitude(least_a * max(ask_a.units(), ten_to(19)) - leg * one()) <= off
            &&& magnitude(least_b * max(ask_b.units(), ten_to(19)) - leg * one()) <= off
        }),
        capped == min(
            min(
                min(max(bought, max(least_a, least_b)), config.size.units()),
                book_sz_a.units(),
            ),
            book_sz_b.units(),
        ),
    ensures
        is_fitting_size(
            config,
            available_usdc,
            ask_a,
            ask_b,
            book_sz_a,
            book_sz_b,
            step_below(capped, config.size_decimals as nat),
        ),
{
    let u: int = 10_000_000_000_000_000_000_000_000_000;
    let off: int = 3_000_000_000_000 * u;
    let price = ask_a.units() + ask_b.units();
    let price_a = max(ask_a.units(), ten_to(19));
    let price_b = max(ask_b.units(), ten_to(19));
    let fraction = (available_usdc.units() - config.reserve_usdc.units())
        * config.bankroll_fraction.units();
    let cap = config.max_trade_notional_usd.units();
    let leg = config.min_leg_notional_usd.units();
    let step = ten_to((28 - config.size_decimals) as nat);
    let n = step_below(capped, config.size_decimals as nat);
    let more = n + step;
    let slack = ten_to(16);
    lemma_powers();
    lemma_slack();
    law_step_below(capped, config.size_decimals as nat);
    lemma_ten_to((28 - config.size_decimals) as nat, 0);
    assert((cap + slack) * one() == u * cap + u * 10_000_000_000_000_000 && (cap - slack) * one() == u
        * cap - u * 10_000_000_000_000_000 && (leg + slack) * one() == u * leg + u
        * 10_000_000_000_000_000 && (leg - slack) * one() == u * leg - u * 10_000_000_000_000_000
        && slack * one() == u * 10_000_000_000_000_000 && budget * one() == u * budget && leg * one()
        == u * leg) by (nonlinear_arith)
        requires
            one() == u,
            slack == 10_000_000_000_000_000,
    ;
    assert(n <= bought ==> n * price <= bought * price) by (nonlinear_arith)
        requires
            price > 0,
    ;
    assert(n <= least_a ==> n * price_a <= least_a * price_a) by (nonlinear_arith)
        requires
            price_a > 0,
    ;
    assert(n <= least_b ==> n * price_b <= least_b * price_b) by (nonlinear_arith)
        requires
            price_b > 0,
    ;
    assert(more > bought ==> more * price > bought * price) by (nonlinear_arith)
        requires
            price > 0,
    ;
    assert(more > least_a ==> more * price_a > least_a * price_a) by (nonlinear_arith)
        requires
            price_a > 0,
    ;
    assert(more > least_b ==> more * price_b > least_b * price_b) by (nonlinear_arith)
        requires
            price_b > 0,
    ;
}

/// What sizing comes to, step by step, for any amounts.
///
/// With `price` the sum of the asks and `above` what is above the reserve, both positive, the budget
/// is the lesser of the trade cap and the fraction of `above`, and is no less than a trade must cost.
/// The shares are those that the budget buys, but no fewer than make each leg cost what it must at no
/// less than `10^-9` a share, and no more than the size cap and the books; they are rounded down. An
/// order is made if there are any, and if it costs no less than a trade must and no more than `above`.
pub proof fn law_sizing_steps(
    config: BotConfig,
    available_usdc: Decimal,
    ask_a: Decimal,
    ask_b: Decimal,
    book_sz_a: Decimal,
    book_sz_b: Decimal,
    price: Decimal,
    above: Decimal,
    share: Decimal,
    bought: Decimal,
    least_a: Decimal,
    least_b: Decimal,
    shares: Decimal,
)
    requires
        decimal_sum(ask_a, ask_b) == Some(price),
        price.units() > 0,
        decimal_difference(available_usdc, config.reserve_usdc) == Some(above),
        above.units() > 0,
        decimal_product(above, config.bankroll_fraction) == Some(share),
        share.units() >= config.min_trade_notional_usd.units(),
        config.max_trade_notional_usd.units() >= config.min_trade_notional_usd.units(),
        decimal_quotient(
            if share.units() <= config.max_trade_notional_usd.units() {
                share
            } else {
                config.max_trade_notional_usd
            },
            price,
        ) == Some(bought),
        decimal_quotient(
            config.min_leg_notional_usd,
            if ask_a.units() >= ten_to(19) {
                ask_a
            } else {
                Decimal::of_parts(1, 9)
            },
        ) == Some(least_a),
        decimal_quotient(
            config.min_leg_notional_usd,
            if ask_b.units() >= ten_to(19) {
                ask_b
            } else {
                Decimal::of_parts(1, 9)
            },
        ) == Some(least_b),
        ({
            let wanted = max(bought.units(), max(least_a.units(), least_b.units()));
            let capped = min(
                min(wanted, config.size.units()),
                min(book_sz_a.units(), book_sz_b.units()),
            );
            let steps = capped * ten_to(config.size_decimals as nat) / one();
            ||| config.size_decimals == 0 && shares == Decimal::of_parts(steps, 0)
            ||| {
                &&& 0 < config.size_decimals <= 19
                &&& magnitude(capped * ten_to(config.size_decimals as nat)) <= MAX_COEFFICIENT
                    * one()
                &&& decimal_quotient(
                    Decimal::of_parts(steps, 0),
                    Decimal::of_parts(ten_to(config.size_decimals as nat), 0),
                ) == Some(shares)
            }
        }),
    ensures
        bankroll_sizing(config, available_usdc, ask_a, ask_b, book_sz_a, book_sz_b) == (
        if shares.units() <= 0 {
            Sizing::Declined
        } else {
            match decimal_product(shares, price) {
                None => Sizing::OutOfRange,
                Some(used) => if config.min_trade_notional_usd.units() <= used.units()
                    && used.units() <= above.units() {
                    Sizing::Sized(shares, used, price)
                } else {
                    Sizing::Declined
                },
            }
        }),
{
    lemma_parts(0, 0);
    lemma_least_price();
    let budget = lesser(share, config.max_trade_notional_usd);
    let capped = lesser(
        lesser(lesser(greater(bought, greater(least_a, least_b)), config.size), book_sz_a),
        book_sz_b,
    );
    assert(greater(above, zero()) == above);
    assert(spendable(config, available_usdc) == Some(above));
    assert(trade_budget(config, above) == Some(budget));
    assert(least_shares(config, ask_a) == Some(least_a));
    assert(least_shares(config, ask_b) == Some(least_b));
    assert(capped_shares(config, budget, price, ask_a, ask_b, book_sz_a, book_sz_b) == Some(capped));
    assert(rounded_down(capped, config.size_decimals) == Some(shares));
}

/// No order is sized where the asks add up to nothing, nothing is above the reserve, or the trade cap
/// or the fraction of what is above the reserve is less than a trade must cost, for any amounts.
pub proof fn law_sizing_declines(
    config: BotConfig,
    available_usdc: Decimal,
    ask_a: Decimal,
    ask_b: Decimal,
    book_sz_a: Decimal,
    book_sz_b: Decimal,
    price: Decimal,
    above: Decimal,
    share: Decimal,
)
    requires
        decimal_sum(ask_a, ask_b) == Some(price),
        decimal_difference(available_usdc, config.reserve_usdc) == Some(above),
        above.units() > 0 ==> decimal_product(above, config.bankroll_fraction) == Some(share),
    ensures
        price.units() <= 0 || above.units() <= 0 || share.units()
            < config.min_trade_notional_usd.units() || config.max_trade_notional_usd.units()
            < config.min_trade_notional_usd.units() ==> bankroll_sizing(
            config,
            available_usdc,
            ask_a,
            ask_b,
            book_sz_a,
            book_sz_b,
        ) is Declined,
{
    lemma_parts(0, 0);
}

/// Where the balance is not known, an order has the size cap if both legs cost what a leg must and
/// both books offer that much, and otherwise there is none, for any amounts.
pub proof fn law_fixed_steps(
    config: BotConfig,
    ask_a: Decimal,
    ask_b: Decimal,
    book_sz_a: Decimal,
    book_sz_b: Decimal,
    price: Decimal,
    cost_a: Decimal,
    cost_b: Decimal,
    used: Decimal,
)
    requires
        decimal_product(ask_a, config.size) == Some(cost_a),
        decimal_product(ask_b, config.size) == Some(cost_b),
        decimal_product(config.size, price) == Some(used),
    ensures
        fixed_sizing(config, ask_a, ask_b, book_sz_a, book_sz_b, price) == (
        if cost_a.units() >= config.min_leg_notional_usd.units() && cost_b.units()
            >= config.min_leg_notional_usd.units() && book_sz_a.units() >= config.size.units()
            && book_sz_b.units() >= config.size.units() {
            Sizing::Sized(config.size, used, price)
        } else {
            Sizing::Declined
        }),
{
}

/// A number is rounded down to the greatest multiple of a step that it is not below.
pub proof fn law_rounding(value: Decimal, decimals: u32, multiple: int)
    requires
        decimals <= 28,
        multiple * ten_to((28 - decimals) as nat) <= value.units(),
    ensures
        multiple * ten_to((28 - decimals) as nat) <= step_below(value.units(), decimals as nat),
        step_below(value.units(), decimals as nat) <= value.units(),
        exists|k: int| #[trigger]
            (k * ten_to((28 - decimals) as nat)) == step_below(value.units(), decimals as nat),
        decimals <= 19 && magnitude(value.units() * ten_to(decimals as nat)) <= MAX_COEFFICIENT
            * one() ==> rounds_in_range(value, decimals),
        rounds_in_range(value, 0),
{
    let step = ten_to((28 - decimals) as nat);
    lemma_ten_to((28 - decimals) as nat, 0);
    law_step_below(value.units(), decimals as nat);
    lemma_fundamental_div_mod_converse(multiple * step, step, multiple, 0);
    law_steps_grow(multiple * step, value.units(), decimals as nat);
    let k = value.units() / step;
    assert(k * step == step_below(value.units(), decimals as nat));
}

/// The size of an order does not shrink where the books are deeper.
pub proof fn law_deeper_books(
    config: BotConfig,
    available_usdc: Decimal,
    ask_a: Decimal,
    ask_b: Decimal,
    book_sz_a: Decimal,
    book_sz_b: Decimal,
    deeper_a: Decimal,
    deeper_b: Decimal,
    shares: Decimal,
    more: Decimal,
)
    requires
        book_sz_a.units() <= deeper_a.units(),
        book_sz_b.units() <= deeper_b.units(),
        is_rounded_size(config, available_usdc, ask_a, ask_b, book_sz_a, book_sz_b, shares),
        is_rounded_size(config, available_usdc, ask_a, ask_b, deeper_a, deeper_b, more),
    ensures
        shares.units() <= more.units(),
{
    let capped = capped_size(config, available_usdc, ask_a, ask_b, book_sz_a, book_sz_b)->0;
    let deeper = capped_size(config, available_usdc, ask_a, ask_b, deeper_a, deeper_b)->0;
    law_steps_grow(capped.units(), deeper.units(), config.size_decimals as nat);
}

/// The step below a greater number is no lower.
pub proof fn law_steps_grow(units: int, more: int, decimals: nat)
    requires
        units <= more,
        decimals <= 28,
    ensures
        step_below(units, decimals) <= step_below(more, decimals),
{
    let step = ten_to((28 - decimals) as nat);
    lemma_ten_to((28 - decimals) as nat, 0);
    lemma_div_is_ordered(units, more, step);
    assert((units / step) * step <= (more / step) * step) by (nonlinear_arith)
        requires
            units / step <= more / step,
            step > 0,
    ;
}

/// The size of an order does not depend on which leg is which, wherever the sum of the asks does
/// not.
proof fn lemma_legs_swap(
    config: BotConfig,
    available_usdc: Decimal,
    ask_a: Decimal,
    ask_b: Decimal,
    book_sz_a: Decimal,
    book_sz_b: Decimal,
)
    requires
        same_sum(decimal_sum(ask_a, ask_b), decimal_sum(ask_b, ask_a)),
    ensures
        bankroll_sizing(config, available_usdc, ask_a, ask_b, book_sz_a, book_sz_b)
            == bankroll_sizing(config, available_usdc, ask_b, ask_a, book_sz_b, book_sz_a),
{
}

/// A step below is no greater, is less than a step away, and is its own step below.
pub proof fn law_step_below(units: int, decimals: nat)
    requires
        decimals <= 28,
    ensures
        step_below(units, decimals) <= units,
        units < step_below(units, decimals) + ten_to((28 - decimals) as nat),
        step_below(step_below(units, decimals), decimals) == step_below(units, decimals),
{
    let step = ten_to((28 - decimals) as nat);
    lemma_ten_to((28 - decimals) as nat, 0);
    lemma_fundamental_div_mod(units, step);
    assert((units / step) * step == step * (units / step)) by (nonlinear_arith);
    lemma_fundamental_div_mod_converse((units / step) * step, step, units / step, 0);
}

/// Sizes an order on both legs for a balance.
#[verifier::rlimit(60)]
pub(crate) fn size_for_bankroll(
    config: &BotConfig,
    available_usdc: Decimal,
    ask_a: Decimal,
    ask_b: Decimal,
    book_sz_a: Decimal,
    book_sz_b: Decimal,
) -> (result: Sizing)
    ensures
        result == bankroll_sizing(
            *config,
            available_usdc,
            ask_a,
            ask_b,
            book_sz_a,
            book_sz_b,
        ),
        result == bankroll_sizing(
            *config,
            available_usdc,
            ask_b,
            ask_a,
            book_sz_b,
            book_sz_a,
        ),
        is_ordinary(*config, available_usdc, ask_a, ask_b, book_sz_a, book_sz_b) ==> !(result
            is OutOfRange),
        takes_amounts(*config, available_usdc, ask_a, ask_b, book_sz_a, book_sz_b) ==> match result {
            Sizing::Sized(shares, used, total_price) => is_right_order(
                *config,
                available_usdc,
                ask_a,
                ask_b,
                book_sz_a,
                book_sz_b,
                shares,
                used,
                total_price,
            ),
            Sizing::Declined => may_decline(
                *config,
                available_usdc,
                ask_a,
                ask_b,
                book_sz_a,
                book_sz_b,
            ),
            Sizing::OutOfRange => config.size_decimals > 6,
        },
        result matches Sizing::Sized(shares, used, total_price) ==> order_is_sound(
            *config,
            available_usdc,
            ask_a,
            ask_b,
            book_sz_a,
            book_sz_b,
            shares,
            used,
        ) && total_price.units() > 0 && adds_up(ask_a, ask_b, total_price) && multiplies_out(
            shares,
            total_price,
            used,
        ),
{
    let zero = Decimal::from_integer(0);
    let ghost ordinary = takes_amounts(*config, available_usdc, ask_a, ask_b, book_sz_a, book_sz_b);
    let sum = ask_a.checked_add(ask_b);
    proof {
        lemma_legs_swap(*config, available_usdc, ask_a, ask_b, book_sz_a, book_sz_b);
        lemma_powers();
    }
    let total_price = match sum {
        Some(sum) => sum,
        None => return Sizing::OutOfRange,
    };
    if !zero.less_than(total_price) {
        return Sizing::Declined;
    }
    let spendable = match available_usdc.checked_sub(config.reserve_usdc) {
        Some(difference) => difference.max(zero),
        None => return Sizing::OutOfRange,
    };
    if !zero.less_than(spendable) {
        return Sizing::Declined;
    }
    proof {
        if ordinary {
            lemma_product_bound(spendable, config.bankroll_fraction, 2 * MAX_AMOUNT, MAX_AMOUNT as int);
        }
    }
    let budget = match spendable.checked_mul(config.bankroll_fraction) {
        Some(share) => share.min(config.max_trade_notional_usd),
        None => return Sizing::OutOfRange,
    };
    proof {
        if ordinary {
            lemma_budget(
                spendable.units() * config.bankroll_fraction.units(),
                decimal_product(spendable, config.bankroll_fraction)->0.units(),
                config.max_trade_notional_usd.units(),
                budget.units(),
                config.min_trade_notional_usd.units(),
            );
        }
    }
    if budget.less_than(config.min_trade_notional_usd) {
        return Sizing::Declined;
    }
    let least_price = Decimal::nano();
    proof {
        if ordinary {
            lemma_least_price();
            lemma_quotient_bound(budget, total_price);
            lemma_quotient_bound(config.min_leg_notional_usd, greater(ask_a, least_price));
            lemma_quotient_bound(config.min_leg_notional_usd, greater(ask_b, least_price));
        }
    }
    let bought = match budget.checked_div(total_price) {
        Some(shares) => shares,
        None => return Sizing::OutOfRange,
    };
    let least_a = match config.min_leg_notional_usd.checked_div(ask_a.max(least_price)) {
        Some(shares) => shares,
        None => return Sizing::OutOfRange,
    };
    let least_b = match config.min_leg_notional_usd.checked_div(ask_b.max(least_price)) {
        Some(shares) => shares,
        None => return Sizing::OutOfRange,
    };
    let wanted = bought.max(least_a.max(least_b));
    let capped = wanted.min(config.size).min(book_sz_a).min(book_sz_b);
    proof {
        if ordinary {
            let leg = config.min_leg_notional_usd.units();
            lemma_dividend(budget.units(), total_price.units(), bought.units());
            lemma_dividend(leg, greater(ask_a, least_price).units(), least_a.units());
            lemma_dividend(leg, greater(ask_b, least_price).units(), least_b.units());
            if config.size_decimals <= 28 {
                lemma_fits(
                    *config,
                    available_usdc,
                    ask_a,
                    ask_b,
                    book_sz_a,
                    book_sz_b,
                    budget.units(),
                    bought.units(),
                    least_a.units(),
                    least_b.units(),
                    capped.units(),
                );
            }
            if config.size_decimals <= 6 {
                lemma_ordinary_shift(capped.units(), config.size_decimals as nat);
            }
        }
    }
    let shares = match checked_round_down(capped, config.size_decimals) {
        Some(shares) => shares,
        None => return Sizing::OutOfRange,
    };
    proof {
        law_step_below(capped.units(), config.size_decimals as nat);
    }
    if !zero.less_than(shares) {
        return Sizing::Declined;
    }
    proof {
        if ordinary {
            lemma_product_bound(shares, total_price, MAX_AMOUNT as int, 2 * MAX_AMOUNT);
        }
    }
    let used = match shares.checked_mul(total_price) {
        Some(cost) => cost,
        None => return Sizing::OutOfRange,
    };
    proof {
        if ordinary {
            lemma_cost(
                shares.units() * total_price.units(),
                used.units(),
                config.min_trade_notional_usd.units(),
                spendable.units(),
            );
        }
    }
    if used.less_than(config.min_trade_notional_usd) || spendable.less_than(used) {
        return Sizing::Declined;
    }
    proof {
        if ordinary {
            lemma_slack();
            assert(config.min_trade_notional_usd.units() * one() <= budget.units() * one()
                && 3_000_000_000_000 * one() <= ten_to(16) * one()) by (nonlinear_arith)
                requires
                    config.min_trade_notional_usd.units() <= budget.units(),
                    ten_to(16) == 10_000_000_000_000_000,
                    one() > 0,
            ;
        }
        if ordinary && !is_lifted(*config, budget, total_price, ask_a, ask_b) {
            lemma_keeps_to_budget(budget, total_price, bought, shares, used);
        }
    }
    Sizing::Sized(shares, used, total_price)
}

/// Sizes an order on both legs for a balance: the shares of each leg, what both cost, and the
/// price of a share of each. `None` if no order is of an acceptable size. Which leg is which makes
/// no difference.
pub fn compute_size_from_bankroll(
    config: &BotConfig,
    available_usdc: Decimal,
    ask_a: Decimal,
    ask_b: Decimal,
    book_sz_a: Decimal,
    book_sz_b: Decimal,
) -> (result: Option<(Decimal, Decimal, Decimal)>)
    requires
        !(bankroll_sizing(*config, available_usdc, ask_a, ask_b, book_sz_a, book_sz_b)
            is OutOfRange),
    ensures
        match result {
            Some((shares, used, total_price)) => bankroll_sizing(
                *config,
                available_usdc,
                ask_a,
                ask_b,
                book_sz_a,
                book_sz_b,
            ) == Sizing::Sized(shares, used, total_price) && order_is_sound(
                *config,
                available_usdc,
                ask_a,
                ask_b,
                book_sz_a,
                book_sz_b,
                shares,
                used,
            ) && total_price.units() > 0 && adds_up(ask_a, ask_b, total_price) && multiplies_out(
                shares,
                total_price,
                used,
            ),
            None => bankroll_sizing(*config, available_usdc, ask_a, ask_b, book_sz_a, book_sz_b)
                is Declined,
        },
        bankroll_sizing(*config, available_usdc, ask_b, ask_a, book_sz_b, book_sz_a)
            == bankroll_sizing(*config, available_usdc, ask_a, ask_b, book_sz_a, book_sz_b),
        takes_amounts(*config, available_usdc, ask_a, ask_b, book_sz_a, book_sz_b) ==> match result {
            Some((shares, used, total_price)) => is_right_order(
                *config,
                available_usdc,
                ask_a,
                ask_b,
                book_sz_a,
                book_sz_b,
                shares,
                used,
                total_price,
            ),
            None => may_decline(
                *config,
                available_usdc,
                ask_a,
                ask_b,
                book_sz_a,
                book_sz_b,
            ),
        },
{
    match size_for_bankroll(config, available_usdc, ask_a, ask_b, book_sz_a, book_sz_b) {
        Sizing::Sized(shares, used, total_price) => Some((shares, used, total_price)),
        _ => None,
    }
}

/// Sizes an order on both legs for a balance, and says so if a number on the way is out of range.
/// With ordinary amounts none is. Which leg is which makes no difference.
pub fn try_compute_size_from_bankroll(
    config: &BotConfig,
    available_usdc: Decimal,
    ask_a: Decimal,
    ask_b: Decimal,
    book_sz_a: Decimal,
    book_sz_b: Decimal,
) -> (result: Sizing)
    ensures
        result == bankroll_sizing(
            *config,
            available_usdc,
            ask_a,
            ask_b,
            book_sz_a,
            book_sz_b,
        ),
        result == bankroll_sizing(
            *config,
            available_usdc,
            ask_b,
            ask_a,
            book_sz_b,
            book_sz_a,
        ),
        is_ordinary(*config, available_usdc, ask_a, ask_b, book_sz_a, book_sz_b) ==> !(result
            is OutOfRange),
        takes_amounts(*config, available_usdc, ask_a, ask_b, book_sz_a, book_sz_b) ==> match result {
            Sizing::Sized(shares, used, total_price) => is_right_order(
                *config,
                available_usdc,
                ask_a,
                ask_b,
                book_sz_a,
                book_sz_b,
                shares,
                used,
                total_price,
            ),
            Sizing::Declined => may_decline(
                *config,
                available_usdc,
                ask_a,
                ask_b,
                book_sz_a,
                book_sz_b,
            ),
            Sizing::OutOfRange => config.size_decimals > 6,
        },
        result matches Sizing::Sized(shares, used, total_price) ==> order_is_sound(
            *config,
            available_usdc,
            ask_a,
            ask_b,
            book_sz_a,
            book_sz_b,
            shares,
            used,
        ) && total_price.units() > 0 && adds_up(ask_a, ask_b, total_price) && multiplies_out(
            shares,
            total_price,
            used,
        ),
{
    match size_for_bankroll(config, available_usdc, ask_a, ask_b, book_sz_a, book_sz_b) {
        Sizing::OutOfRange => Sizing::OutOfRange,
        _ => match compute_size_from_bankroll(
            config,
            available_usdc,
            ask_a,
            ask_b,
            book_sz_a,
            book_sz_b,
        ) {
            Some((shares, used, total_price)) => Sizing::Sized(shares, used, total_price),
            None => Sizing::Declined,
        },
    }
}

/// Whether a leg of `shares` at `ask` costs less than a leg must; `None` if the cost is out of
/// range.
pub open spec fn leg_is_small(config: BotConfig, ask: Decimal, shares: Decimal) -> Option<bool> {
    match decimal_product(ask, shares) {
        Some(cost) => Some(cost.units() < config.min_leg_notional_usd.units()),
        None => None,
    }
}

/// Whether a leg of `shares` at `ask` costs as much as a leg must, as far as the cost is a decimal.
pub open spec fn leg_costs_enough(config: BotConfig, ask: Decimal, shares: Decimal) -> bool {
    forall|units: int| #[trigger]
        is_decimal(units) && units * one() == ask.units() * shares.units() ==> units
            >= config.min_leg_notional_usd.units()
}

/// The size of an order on both legs where the balance is not known: the size cap, if both legs
/// cost enough and both books offer that much.
pub open spec fn fixed_sizing(
    config: BotConfig,
    ask_a: Decimal,
    ask_b: Decimal,
    book_sz_a: Decimal,
    book_sz_b: Decimal,
    total_price: Decimal,
) -> Sizing {
    match leg_is_small(config, ask_a, config.size) {
        None => Sizing::OutOfRange,
        Some(true) => Sizing::Declined,
        Some(false) => match leg_is_small(config, ask_b, config.size) {
            None => Sizing::OutOfRange,
            Some(true) => Sizing::Declined,
            Some(false) => if book_sz_a.units() < config.size.units() || book_sz_b.units()
                < config.size.units() {
                Sizing::Declined
            } else {
                match decimal_product(config.size, total_price) {
                    None => Sizing::OutOfRange,
                    Some(used) => Sizing::Sized(config.size, used, total_price),
                }
            },
        },
    }
}

/// Whether the cost of a leg of the size cap is a decimal, and as much as a leg must cost.
pub open spec fn costs_a_leg(config: BotConfig, ask: Decimal) -> bool {
    exists|units: int| #[trigger]
        is_decimal(units) && units * one() == ask.units() * config.size.units() && units
            >= config.min_leg_notional_usd.units()
}

/// Whether what was sized without a balance is right, up to a trillionth in what a leg costs: an order
/// of the size cap if both legs cost what a leg must and both books offer that much, and otherwise
/// none.
pub open spec fn is_right_fixed_size(
    config: BotConfig,
    ask_a: Decimal,
    ask_b: Decimal,
    book_sz_a: Decimal,
    book_sz_b: Decimal,
    sizing: Sizing,
) -> bool {
    let leg = config.min_leg_notional_usd.units();
    let slack = ten_to(16);
    let size = config.size.units();
    match sizing {
        Sizing::Sized(shares, _, _) => {
            &&& shares == config.size
            &&& ask_a.units() * size >= (leg - slack) * one()
            &&& ask_b.units() * size >= (leg - slack) * one()
            &&& book_sz_a.units() >= size
            &&& book_sz_b.units() >= size
        },
        Sizing::Declined => {
            ||| ask_a.units() * size < (leg + slack) * one()
            ||| ask_b.units() * size < (leg + slack) * one()
            ||| book_sz_a.units() < size
            ||| book_sz_b.units() < size
        },
        Sizing::OutOfRange => false,
    }
}

/// The cost of a leg in decimals is on the same side of what it must be as the exact cost, up to a
/// trillionth.
proof fn lemma_leg(ask: Decimal, shares: Decimal, leg: Decimal)
    requires
        is_amount(leg),
    ensures
        forall|cost: Decimal| #[trigger]
            nearly_product(ask, shares, cost) ==> if cost.units() < leg.units() {
                ask.units() * shares.units() < (leg.units() + ten_to(16)) * one()
            } else {
                ask.units() * shares.units() >= (leg.units() - ten_to(16)) * one()
            },
{
    let u: int = 10_000_000_000_000_000_000_000_000_000;
    lemma_powers();
    lemma_slack();
    assert((leg.units() + ten_to(16)) * one() == u * leg.units() + u * 10_000_000_000_000_000 && (
    leg.units() - ten_to(16)) * one() == u * leg.units() - u * 10_000_000_000_000_000)
        by (nonlinear_arith)
        requires
            one() == u,
            ten_to(16) == 10_000_000_000_000_000,
    ;
    assert forall|cost: Decimal| #[trigger] nearly_product(ask, shares, cost) implies
        if cost.units() < leg.units() {
        ask.units() * shares.units() < (leg.units() + ten_to(16)) * one()
    } else {
        ask.units() * shares.units() >= (leg.units() - ten_to(16)) * one()
    } by {
        assert(cost.units() * one() == u * cost.units()) by (nonlinear_arith)
            requires
                one() == u,
        ;
    }
}

/// Sizes an order on both legs where the balance is not known.
pub fn fixed_size(
    config: &BotConfig,
    ask_a: Decimal,
    ask_b: Decimal,
    book_sz_a: Decimal,
    book_sz_b: Decimal,
    total_price: Decimal,
) -> (result: Sizing)
    ensures
        result == fixed_sizing(*config, ask_a, ask_b, book_sz_a, book_sz_b, total_price),
        is_amount(config.size) && is_amount(ask_a) && is_amount(ask_b) && magnitude(
            total_price.units(),
        ) <= 2 * MAX_AMOUNT * one() ==> !(result is OutOfRange),
        is_amount(config.size) && is_amount(ask_a) && is_amount(ask_b) && is_amount(
            config.min_leg_notional_usd,
        ) && magnitude(total_price.units()) <= 2 * MAX_AMOUNT * one() ==> is_right_fixed_size(
            *config,
            ask_a,
            ask_b,
            book_sz_a,
            book_sz_b,
            result,
        ),
        (result is Declined && book_sz_a.units() >= config.size.units() && book_sz_b.units()
            >= config.size.units()) ==> !(costs_a_leg(*config, ask_a) && costs_a_leg(*config, ask_b)),
        result matches Sizing::Sized(shares, used, price) ==> shares == config.size && price
            == total_price,
        result matches Sizing::Sized(shares, used, price) ==> shares.units() <= book_sz_a.units()
            && shares.units() <= book_sz_b.units() && multiplies_out(shares, total_price, used)
            && leg_costs_enough(*config, ask_a, shares) && leg_costs_enough(*config, ask_b, shares),
{
    let shares = config.size;
    proof {
        if is_amount(shares) && is_amount(ask_a) && is_amount(ask_b) && magnitude(total_price.units())
            <= 2 * MAX_AMOUNT * one() {
            lemma_product_bound(ask_a, shares, MAX_AMOUNT as int, MAX_AMOUNT as int);
            lemma_product_bound(ask_b, shares, MAX_AMOUNT as int, MAX_AMOUNT as int);
            lemma_product_bound(shares, total_price, MAX_AMOUNT as int, 2 * MAX_AMOUNT);
        }
        if is_amount(config.min_leg_notional_usd) {
            lemma_leg(ask_a, shares, config.min_leg_notional_usd);
            lemma_leg(ask_b, shares, config.min_leg_notional_usd);
        }
    }
    match ask_a.checked_mul(shares) {
        Some(cost) => if cost.less_than(config.min_leg_notional_usd) {
            return Sizing::Declined;
        },
        None => return Sizing::OutOfRange,
    }
    match ask_b.checked_mul(shares) {
        Some(cost) => if cost.less_than(config.min_leg_notional_usd) {
            return Sizing::Declined;
        },
        None => return Sizing::OutOfRange,
    }
    if book_sz_a.less_than(shares) || book_sz_b.less_than(shares) {
        return Sizing::Declined;
    }
    match shares.checked_mul(total_price) {
        Some(used) => Sizing::Sized(shares, used, total_price),
        None => Sizing::OutOfRange,
    }
}

/// A number that is out of range on the way is told, and no order is sized with it.
pub proof fn law_sizing_out_of_range(
    config: BotConfig,
    available_usdc: Decimal,
    ask_a: Decimal,
    ask_b: Decimal,
    book_sz_a: Decimal,
    book_sz_b: Decimal,
    price: Decimal,
    above: Decimal,
)
    requires
        decimal_sum(ask_a, ask_b) is Some ==> decimal_sum(ask_a, ask_b) == Some(price),
        decimal_difference(available_usdc, config.reserve_usdc) is Some ==> decimal_difference(
            available_usdc,
            config.reserve_usdc,
        ) == Some(above),
    ensures
        ({
            let sizing = bankroll_sizing(
                config,
                available_usdc,
                ask_a,
                ask_b,
                book_sz_a,
                book_sz_b,
            );
            &&& decimal_sum(ask_a, ask_b) is None ==> sizing is OutOfRange
            &&& decimal_sum(ask_a, ask_b) is Some && price.units() > 0 ==> {
                &&& decimal_difference(available_usdc, config.reserve_usdc) is None ==> sizing
                    is OutOfRange
                &&& decimal_difference(available_usdc, config.reserve_usdc) is Some && above.units() > 0
                    && decimal_product(above, config.bankroll_fraction) is None ==> sizing is OutOfRange
            }
            &&& sizing matches Sizing::Sized(shares, used, total) ==> total == price && decimal_product(
                shares,
                price,
            ) == Some(used)
        }),
        fixed_sizing(config, ask_a, ask_b, book_sz_a, book_sz_b, price) matches Sizing::Sized(
            shares,
            used,
            total,
        ) ==> shares == config.size && total == price && decimal_product(shares, price) == Some(used),
        decimal_product(ask_a, config.size) is None ==> fixed_sizing(
            config,
            ask_a,
            ask_b,
            book_sz_a,
            book_sz_b,
            price,
        ) is OutOfRange,
{
    lemma_parts(0, 0);
}

} // verus!
