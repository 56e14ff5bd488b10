//! The orders that a decision comes to.

use vstd::prelude::*;
use vstd::string::*;
use crate::config::BotConfig;
use crate::decimal::Decimal;

verus! {

/// The side of an order.
#[derive(Clone, Copy, Debug, PartialEq, Eq, Structural)]
pub enum Side {
    Buy,
    Sell,
}

/// A limit order.
pub struct LimitOrder {
    pub token_id: String,
    pub size: Decimal,
    pub price: Decimal,
    pub side: Side,
}

impl LimitOrder {
    /// Whether this buys `shares` of a token at a price.
    pub open spec fn buys(self, token: Seq<char>, shares: Decimal, price: Decimal) -> bool {
        &&& self.token_id@ == token
        &&& self.size == shares
        &&& self.price == price
        &&& self.side == Side::Buy
    }
}

/// What to send to the exchange.
pub enum Batch {
    /// Nothing: the bot only pretends to trade.
    DryRun,
    /// Two orders, one after the other.
    Orders(LimitOrder, LimitOrder),
}

/// Whether a batch is what to send for a purchase of `shares` of both tokens.
pub open spec fn is_plan_for(
    batch: Batch,
    dry_run: bool,
    token_a: Seq<char>,
    token_b: Seq<char>,
    ask_a: Decimal,
    ask_b: Decimal,
    shares: Decimal,
) -> bool {
    match batch {
        Batch::DryRun => dry_run,
        Batch::Orders(a, b) => !dry_run && a.buys(token_a, shares, ask_a) && b.buys(
            token_b,
            shares,
            ask_b,
        ),
    }
}

/// In a dry run nothing is sent, and otherwise as many shares of the one token at its ask as of the
/// other at its own.
pub proof fn law_plan(
    batch: Batch,
    dry_run: bool,
    token_a: Seq<char>,
    token_b: Seq<char>,
    ask_a: Decimal,
    ask_b: Decimal,
    shares: Decimal,
)
    requires
        is_plan_for(batch, dry_run, token_a, token_b, ask_a, ask_b, shares),
    ensures
        dry_run <==> batch is DryRun,
        batch matches Batch::Orders(a, b) ==> {
            &&& a.token_id@ == token_a && b.token_id@ == token_b
            &&& a.size == shares && b.size == shares
            &&& a.price == ask_a && b.price == ask_b
            &&& a.side == Side::Buy && b.side == Side::Buy
        },
{
}

/// The orders that buy `shares` of both tokens at their asks. In a dry run there are none.
pub fn plan_batch_fok(
    config: &BotConfig,
    token_a: &str,
    token_b: &str,
    ask_a: Decimal,
    ask_b: Decimal,
    shares: Decimal,
) -> (result: Batch)
    ensures
        match result {
            Batch::DryRun => config.dry_run,
            Batch::Orders(a, b) => !config.dry_run && a.buys(token_a@, shares, ask_a) && b.buys(
                token_b@,
                shares,
                ask_b,
            ),
        },
        is_plan_for(result, config.dry_run, token_a@, token_b@, ask_a, ask_b, shares),
        result is DryRun <==> config.dry_run,
{
    if config.dry_run {
        return Batch::DryRun;
    }
    Batch::Orders(
        LimitOrder {
            token_id: token_a.to_owned(),
            size: shares,
            price: ask_a,
            side: Side::Buy,
        },
        LimitOrder {
            token_id: token_b.to_owned(),
            size: shares,
            price: ask_b,
            side: Side::Buy,
        },
    )
}

/// An order that buys shares of a token at a price is on that token, of that size, at that price, and
/// a purchase.
pub proof fn law_buys(order: LimitOrder, token: Seq<char>, shares: Decimal, price: Decimal)
    ensures
        order.buys(token, shares, price) <==> order.token_id@ == token && order.size == shares
            && order.price == price && order.side == Side::Buy,
{
}

} // verus!
