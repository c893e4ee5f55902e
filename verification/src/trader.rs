//! Holdings, and the prices at which they are sold off.
use crate::arithmetic;
use crate::config::TradingConfig;
use crate::detector::BuyOpportunity;
use crate::float::{self, Float64};
use crate::models::{MarketDetails, MarketOrder, PendingTrade};
use crate::period::{self, PERIOD_SECONDS};
use crate::rounding;
use crate::text;
use std::collections::HashMap;
use vstd::prelude::*;
use vstd::string::*;

verus! {

/// How long before its end a market is taken to be closing, in seconds.
pub const CLOSING_SECONDS: u64 = 30;

/// The price below which nothing is bought, 0.001.
pub const MIN_PRICE: u64 = 0x3f50_624d_d2f1_a9fc;

/// The price at which what is left is sold off, 0.01.
pub const SELL_OFF_PRICE: u64 = 0x3f84_7ae1_47ae_147b;

/// One half.
pub const HALF: u64 = 0x3fe0_0000_0000_0000;

/// The number one.
pub const ONE: u64 = 0x3ff0_0000_0000_0000;

/// 10000, which turns a number into a count of its ten-thousandths.
pub const TEN_THOUSAND: u64 = 0x40c3_8800_0000_0000;

/// 100, which turns a number into a count of its hundredths.
pub const HUNDRED: u64 = 0x4059_0000_0000_0000;

/// The prices at which parts of a holding are sold, from the first to the last that there can be:
/// 0.03, 0.05, 0.07, 0.10 and 0.15.
pub open spec fn sell_levels() -> Seq<Float64> {
    seq![
        Float64 { bits: 0x3f9e_b851_eb85_1eb8 },
        Float64 { bits: 0x3fa9_9999_9999_999a },
        Float64 { bits: 0x3fb1_eb85_1eb8_51ec },
        Float64 { bits: 0x3fb9_9999_9999_999a },
        Float64 { bits: 0x3fc3_3333_3333_3333 },
    ]
}

/// Whether `d` is at least `low` and below `high`.
pub open spec fn in_range(d: Float64, low: u64, high: u64) -> bool {
    (Float64 { bits: low }).le(d) && d.lt(Float64 { bits: high })
}

/// In how many parts a holding is sold, by how far the ETH price led when it was bought: in two
/// from 0.06 on, in three from 0.1, in four from 0.2, in five from 0.35, in three again from 0.7,
/// in two from 0.8, and in one below and from 0.85 on.
pub open spec fn sell_parts(d: Float64) -> int {
    if in_range(d, 0x3fae_b851_eb85_1eb8, 0x3fb9_9999_9999_999a) {
        2
    } else if in_range(d, 0x3fb9_9999_9999_999a, 0x3fc9_9999_9999_999a) {
        3
    } else if in_range(d, 0x3fc9_9999_9999_999a, 0x3fd6_6666_6666_6666) {
        4
    } else if in_range(d, 0x3fd6_6666_6666_6666, 0x3fe6_6666_6666_6666) {
        5
    } else if in_range(d, 0x3fe6_6666_6666_6666, 0x3fe9_9999_9999_999a) {
        3
    } else if in_range(d, 0x3fe9_9999_9999_999a, 0x3feb_3333_3333_3333) {
        2
    } else {
        1
    }
}

/// The shares that a holding is sold in: half of what there is, but all of it the last time.
pub open spec fn sell_shares(parts: int) -> Seq<Float64> {
    Seq::new(
        parts as nat,
        |i: int|
            if i == parts - 1 {
                Float64 { bits: ONE }
            } else {
                Float64 { bits: HALF }
            },
    )
}

fn within(d: Float64, low: u64, high: u64) -> (holds: bool)
    ensures
        holds == in_range(d, low, high),
{
    d.at_least(Float64 { bits: low }) && d.less(Float64 { bits: high })
}

/// The prices at which to sell and the share to sell at each, by how far the ETH price led.
pub fn calculate_sell_strategy(d: Float64) -> (strategy: (Vec<Float64>, Vec<Float64>))
    ensures
        strategy.0@ == sell_levels().take(sell_parts(d)),
        strategy.1@ == sell_shares(sell_parts(d)),
{
    let parts: usize = if within(d, 0x3fae_b851_eb85_1eb8, 0x3fb9_9999_9999_999a) {
        2
    } else if within(d, 0x3fb9_9999_9999_999a, 0x3fc9_9999_9999_999a) {
        3
    } else if within(d, 0x3fc9_9999_9999_999a, 0x3fd6_6666_6666_6666) {
        4
    } else if within(d, 0x3fd6_6666_6666_6666, 0x3fe6_6666_6666_6666) {
        5
    } else if within(d, 0x3fe6_6666_6666_6666, 0x3fe9_9999_9999_999a) {
        3
    } else if within(d, 0x3fe9_9999_9999_999a, 0x3feb_3333_3333_3333) {
        2
    } else {
        1
    };
    let levels: Vec<Float64> = vec![
        Float64 { bits: 0x3f9e_b851_eb85_1eb8 },
        Float64 { bits: 0x3fa9_9999_9999_999a },
        Float64 { bits: 0x3fb1_eb85_1eb8_51ec },
        Float64 { bits: 0x3fb9_9999_9999_999a },
        Float64 { bits: 0x3fc3_3333_3333_3333 },
    ];
    assert(levels@ =~= sell_levels());
    let mut points: Vec<Float64> = Vec::new();
    let mut shares: Vec<Float64> = Vec::new();
    let mut i: usize = 0;
    while i < parts
        invariant
            i <= parts <= 5,
            levels@ == sell_levels(),
            points@ == sell_levels().take(i as int),
            shares@ == sell_shares(parts as int).take(i as int),
        decreases parts - i,
    {
        points.push(levels[i]);
        shares.push(Float64 { bits: if i == parts - 1 { ONE } else { HALF } });
        i += 1;
        assert(points@ =~= sell_levels().take(i as int));
        assert(shares@ =~= sell_shares(parts as int).take(i as int));
    }
    assert(shares@ =~= sell_shares(parts as int));
    (points, shares)
}

/// Why a purchase is refused.
#[derive(Clone, Copy, Debug, PartialEq, Eq, Structural)]
pub enum TradeError {
    /// The price is below the least one, as that of a market that has ended is.
    InvalidPrice,
    /// The most that is to be spent is no finite amount above zero.
    InvalidMaximum,
}

/// What to do about a holding.
#[derive(Clone, Debug)]
pub enum TradeStep {
    /// Nothing: there is nothing left to sell.
    Nothing,
    /// Withdraw the open orders for the token and sell all of it for what it brings.
    SellOff { token_id: String, units: Float64 },
    /// Ask what the token can be sold for.
    AskPrice { token_id: String },
}

/// A sale of a part of a holding.
#[derive(Clone, Copy, Debug)]
pub struct Sale {
    pub units: Float64,
    pub price: Float64,
}

/// A holding and what to do about it.
#[derive(Clone, Debug)]
pub struct TradeCheck {
    /// The start of the period that the holding was bought in.
    pub period: u64,
    pub step: TradeStep,
}

/// What a step is about: its token, and the units to sell where it sells off.
pub open spec fn is_step(trade: PendingTrade, min_time: u64, now: u64, step: TradeStep) -> bool {
    if is_finished(trade) {
        step is Nothing
    } else if sells_off(trade, min_time, now) {
        step matches TradeStep::SellOff { token_id, units } && token_id@ == trade.token_id@ && units
            == trade.remaining_units
    } else {
        step matches TradeStep::AskPrice { token_id } && token_id@ == trade.token_id@
    }
}

/// Whether the time has come to sell all that is left of a holding.
pub open spec fn sells_off(trade: PendingTrade, min_time: u64, now: u64) -> bool {
    &&& !is_finished(trade)
    &&& period::left_of(trade.market_timestamp as int, now as int) <= min_time
    &&& (Float64 { bits: 0 }).lt(trade.remaining_units)
}

/// Whether nothing is left to sell.
pub open spec fn is_finished(trade: PendingTrade) -> bool {
    trade.remaining_units.le(Float64 { bits: 0 }) || trade.next_sell_index >= trade.sell_points.len()
}

/// Whether nothing is left to sell.
fn finished(trade: &PendingTrade) -> (rests: bool)
    ensures
        rests == is_finished(*trade),
{
    (Float64 { bits: 0 }).at_least(trade.remaining_units) || trade.next_sell_index
        >= trade.sell_points.len()
}

/// The share of a holding that is sold next, and what it is a share of.
pub open spec fn next_share(trade: PendingTrade) -> (Float64, Float64) {
    (
        if trade.next_sell_index == 0 {
            trade.total_units
        } else {
            trade.remaining_units
        },
        trade.sell_percentages@[trade.next_sell_index as int],
    )
}

/// That `sale` is what a holding is due to sell at the given price.
pub open spec fn is_sale(trade: PendingTrade, price: Float64, sale: Sale) -> bool {
    let (base, share) = next_share(trade);
    sale.price == price && float::is_product(base, share, sale.units)
}

/// Whether a price reaches the next one that the holding waits for.
pub open spec fn reaches(trade: PendingTrade, price: Float64) -> bool {
    trade.sell_points@[trade.next_sell_index as int].le(price)
}

/// That two holdings are the same purchase, whatever was sold of them.
pub open spec fn same_purchase(a: PendingTrade, b: PendingTrade) -> bool {
    &&& a.token_id == b.token_id
    &&& a.condition_id == b.condition_id
    &&& a.investment_amount == b.investment_amount
    &&& a.total_units == b.total_units
    &&& a.purchase_price == b.purchase_price
    &&& a.difference_d == b.difference_d
    &&& a.timestamp == b.timestamp
    &&& a.market_timestamp == b.market_timestamp
    &&& a.sell_points == b.sell_points
    &&& a.sell_percentages == b.sell_percentages
}

/// That `after` is a holding after a sale at one of its prices.
pub open spec fn is_sold_down(before: PendingTrade, sale: Sale, after: PendingTrade) -> bool {
    &&& same_purchase(before, after)
    &&& float::is_difference(before.remaining_units, sale.units, after.remaining_units)
    &&& after.next_sell_index == before.next_sell_index + 1
}

/// That `after` is a holding after all of it was sold off.
pub open spec fn is_sold_off(before: PendingTrade, after: PendingTrade) -> bool {
    &&& same_purchase(before, after)
    &&& after.remaining_units.bits == 0
    &&& after.next_sell_index == after.sell_points.len()
}

/// That `total` grew to `new_total` by selling `units` at `price` that were bought at `cost`.
pub open spec fn is_gain(
    total: Float64,
    price: Float64,
    cost: Float64,
    units: Float64,
    new_total: Float64,
) -> bool {
    exists|value: Float64, spent: Float64, profit: Float64|
        {
            &&& #[trigger] float::is_product(price, units, value)
            &&& #[trigger] float::is_product(cost, units, spent)
            &&& #[trigger] float::is_difference(value, spent, profit)
            &&& float::is_sum(total, profit, new_total)
        }
}

/// How much is spent on a purchase: the fixed amount, or the maximum where the fixed amount is not
/// below it.
pub open spec fn amount_to_spend(rules: TradingConfig) -> Float64 {
    match rules.max_position_size {
        Some(max) => if rules.fixed_trade_amount.lt(max) {
            rules.fixed_trade_amount
        } else {
            max
        },
        None => rules.fixed_trade_amount,
    }
}

/// Whether so many units at this price cost no more than `max`.
pub open spec fn is_within(units: Float64, price: Float64, max: Float64) -> bool {
    exists|cost: Float64| #[trigger] float::is_product(units, price, cost) && cost.le(max)
}

/// That so many units at this price cost no more than the maximum, where one is set.
pub open spec fn keeps_maximum(rules: TradingConfig, price: Float64, units: Float64) -> bool {
    match rules.max_position_size {
        Some(max) => price.is_finite() ==> is_within(units, price, max),
        None => true,
    }
}

/// That `units` are as many of `all` units as cost no more than `max`.
pub open spec fn is_cut(all: Float64, price: Float64, max: Float64, units: Float64) -> bool {
    &&& units.le(all)
    &&& is_within(units, price, max)
    &&& forall|more: Float64|
        units.lt(more) && more.le(all) ==> !#[trigger] is_within(more, price, max)
}

/// That a purchase at this price is one of so many units: those that the amount to spend pays for,
/// cut where rounding would have them cost more than the maximum.
pub open spec fn is_bought(rules: TradingConfig, price: Float64, units: Float64) -> bool {
    exists|all: Float64|
        {
            &&& #[trigger] float::is_quotient(amount_to_spend(rules), price, all)
            &&& match rules.max_position_size {
                Some(max) => if price.is_finite() {
                    is_cut(all, price, max, units)
                } else {
                    units == all
                },
                None => units == all,
            }
        }
}

/// That `trade` is the holding that a purchase leads to.
pub open spec fn is_purchase(
    buy: BuyOpportunity,
    rules: TradingConfig,
    now: u64,
    trade: PendingTrade,
) -> bool {
    &&& trade.token_id@ == buy.token_to_buy_id@
    &&& trade.condition_id@ == buy.eth_condition_id@
    &&& trade.investment_amount == amount_to_spend(rules)
    &&& is_bought(rules, buy.token_to_buy_price, trade.total_units)
    &&& trade.remaining_units == trade.total_units
    &&& trade.purchase_price == buy.token_to_buy_price
    &&& trade.difference_d == buy.difference_d
    &&& trade.timestamp == now
    &&& trade.market_timestamp == buy.period_timestamp
    &&& trade.sell_points@ == sell_levels().take(sell_parts(buy.difference_d))
    &&& trade.sell_percentages@ == sell_shares(sell_parts(buy.difference_d))
    &&& trade.next_sell_index == 0
}

/// That `rounded` is `units` to four decimal places.
pub open spec fn is_to_four_places(units: Float64, rounded: Float64) -> bool {
    exists|scaled: Float64, whole: Float64|
        {
            &&& #[trigger] float::is_product(units, Float64 { bits: TEN_THOUSAND }, scaled)
            &&& #[trigger] float::is_whole(scaled, whole)
            &&& float::is_quotient(whole, Float64 { bits: TEN_THOUSAND }, rounded)
        }
}

/// Whether a purchase at this price is refused.
pub open spec fn is_refused(price: Float64) -> bool {
    price.lt(Float64 { bits: MIN_PRICE })
}

/// Whether the rules let anything be bought: the maximum, where it is set, is a finite amount above
/// zero.
pub open spec fn can_spend(rules: TradingConfig) -> bool {
    rules.max_position_size matches Some(max) ==> max.is_finite() && (Float64 { bits: 0 }).lt(max)
}

/// That `error` says why nothing is bought at this price, if nothing is.
pub open spec fn is_refusal(rules: TradingConfig, price: Float64, error: TradeError) -> bool {
    if is_refused(price) {
        error == TradeError::InvalidPrice
    } else {
        !can_spend(rules) && error == TradeError::InvalidMaximum
    }
}

/// That `amount` is what an order for so many units says, given as `rounded` to four decimal places:
/// those, where neither they nor the two decimal places that are posted of them cost more than `max`.
/// Otherwise it is the two decimal places, or one hundredth less where those cost too much, or the
/// units as they are where even that does.
pub open spec fn is_capped_amount(
    units: Float64,
    rounded: Float64,
    price: Float64,
    max: Float64,
    amount: Float64,
) -> bool {
    exists|scaled: Float64, whole: Float64, posted: Float64, fewer: Float64, lower: Float64|
        {
            &&& #[trigger] float::is_product(rounded, Float64 { bits: HUNDRED }, scaled)
            &&& #[trigger] float::is_whole(scaled, whole)
            &&& #[trigger] float::is_quotient(whole, Float64 { bits: HUNDRED }, posted)
            &&& #[trigger] float::is_difference(whole, Float64 { bits: ONE }, fewer)
            &&& #[trigger] float::is_quotient(fewer, Float64 { bits: HUNDRED }, lower)
            &&& amount == if is_within(posted, price, max) {
                if is_within(rounded, price, max) {
                    rounded
                } else {
                    posted
                }
            } else if is_within(lower, price, max) {
                lower
            } else {
                units
            }
        }
}

/// That `amount` is what an order for so many units says: the units to four decimal places, less
/// where a maximum asks for it.
pub open spec fn is_order_amount(
    rules: TradingConfig,
    price: Float64,
    units: Float64,
    amount: Float64,
) -> bool {
    exists|rounded: Float64| #[trigger]
        is_to_four_places(units, rounded) && match rules.max_position_size {
            Some(max) => if price.is_finite() {
                is_capped_amount(units, rounded, price, max, amount)
            } else {
                amount == rounded
            },
            None => amount == rounded,
        }
}

/// That `order` is the order that a purchase places.
pub open spec fn is_buy_order(buy: BuyOpportunity, rules: TradingConfig, order: MarketOrder) -> bool {
    &&& order.token_id@ == buy.token_to_buy_id@
    &&& exists|units: Float64| #[trigger]
        is_bought(rules, buy.token_to_buy_price, units) && is_order_amount(
            rules,
            buy.token_to_buy_price,
            units,
            order.amount,
        )
    &&& order.side@ == "BUY"@
    &&& order.order_type matches Some(kind) && kind@ == "FOK"@
}

/// That `order` is the order that a sale places.
pub open spec fn is_sell_order(token_id: Seq<char>, units: Float64, order: MarketOrder) -> bool {
    &&& order.token_id@ == token_id
    &&& order.amount == units
    &&& order.side@ == "SELL"@
    &&& order.order_type matches Some(kind) && kind@ == "FOK"@
}

/// Holds what was bought, one purchase for each period, and keeps count of it.
#[derive(Clone, Debug)]
pub struct Trader {
    config: TradingConfig,
    simulation_mode: bool,
    total_profit: Float64,
    trades_executed: u64,
    pending_trades: HashMap<u64, PendingTrade>,
}

impl Trader {
    /// The rules of trading.
    pub closed spec fn rules(self) -> TradingConfig {
        self.config
    }

    /// Whether trades are only simulated.
    pub closed spec fn simulates(self) -> bool {
        self.simulation_mode
    }

    /// What all sales have brought so far.
    pub closed spec fn profit(self) -> Float64 {
        self.total_profit
    }

    /// How many purchases were made.
    pub closed spec fn purchases(self) -> u64 {
        self.trades_executed
    }

    /// The holdings, by the start of the period that they were bought in.
    pub closed spec fn holdings(self) -> Map<u64, PendingTrade> {
        self.pending_trades@
    }

    /// That every holding stands under its own period, that the period ends at a time that can be
    /// written, and that it has prices to wait for and the share to sell at each of them.
    pub open spec fn well_formed(self) -> bool {
        forall|period: u64| #[trigger]
            self.holdings().dom().contains(period) ==> holds(period, self.holdings()[period])
    }

    /// That everything but the holdings is as before.
    pub open spec fn same_account(self, other: Trader) -> bool {
        &&& self.rules() == other.rules()
        &&& self.simulates() == other.simulates()
        &&& self.profit() == other.profit()
        &&& self.purchases() == other.purchases()
    }

    /// A trader without holdings.
    pub fn new(config: TradingConfig, simulation_mode: bool) -> (trader: Trader)
        ensures
            trader.well_formed(),
            trader.rules() == config,
            trader.simulates() == simulation_mode,
            trader.profit().bits == 0,
            trader.purchases() == 0,
            trader.holdings() == Map::<u64, PendingTrade>::empty(),
    {
        broadcast use vstd::std_specs::hash::group_hash_axioms;

        Trader {
            config,
            simulation_mode,
            total_profit: Float64 { bits: 0 },
            trades_executed: 0,
            pending_trades: HashMap::new(),
        }
    }
}

/// What is true of the holding that stands under a period.
pub open spec fn holds(period: u64, trade: PendingTrade) -> bool {
    &&& trade.market_timestamp == period
    &&& period + PERIOD_SECONDS <= u64::MAX
    &&& trade.sell_points.len() > 0
    &&& trade.sell_percentages@ == sell_shares(trade.sell_points.len() as int)
    &&& trade.next_sell_index <= trade.sell_points.len()
    &&& trade.next_sell_index == 0 ==> trade.remaining_units == trade.total_units
}

/// A product has one value.
proof fn lemma_one_product(a: Float64, b: Float64, r: Float64, s: Float64)
    requires
        float::is_product(a, b, r),
        float::is_product(a, b, s),
        r.is_number(),
    ensures
        r == s,
{
    if a.is_finite() && b.is_finite() {
        rounding::lemma_two_to_positive(1074);
        rounding::nearest_is_unique(a.ticks() * b.ticks(), float::one_ticks(), r, s);
        rounding::nearest_is_monotone(a.ticks() * b.ticks(), float::one_ticks(), s, r);
        rounding::value_and_sign(r, s);
    }
}

/// Whether so many units at this price cost no more than `max`.
fn costs_within(units: Float64, price: Float64, max: Float64) -> (within: bool)
    ensures
        within == is_within(units, price, max),
{
    let cost = units.times(price);
    proof {
        if is_within(units, price, max) {
            let other = choose|other: Float64| #[trigger]
                float::is_product(units, price, other) && other.le(max);
            lemma_one_product(units, price, other, cost);
        }
    }
    max.at_least(cost)
}

/// A number to four decimal places.
fn to_four_places(units: Float64) -> (rounded: Float64)
    ensures
        is_to_four_places(units, rounded),
{
    let ten_thousand = Float64 { bits: TEN_THOUSAND };
    let scaled = units.times(ten_thousand);
    let whole = scaled.rounded();
    whole.over(ten_thousand)
}

/// What an order for so many units says, given to four decimal places, that is to cost no more than
/// `max`.
fn capped_amount(units: Float64, rounded: Float64, price: Float64, max: Float64) -> (amount: Float64)
    ensures
        is_capped_amount(units, rounded, price, max, amount),
{
    let hundred = Float64 { bits: HUNDRED };
    let scaled = rounded.times(hundred);
    let whole = scaled.rounded();
    let posted = whole.over(hundred);
    let fewer = whole.minus(Float64 { bits: ONE });
    let lower = fewer.over(hundred);
    if costs_within(posted, price, max) {
        if costs_within(rounded, price, max) {
            rounded
        } else {
            posted
        }
    } else if costs_within(lower, price, max) {
        lower
    } else {
        units
    }
}

/// What costs anything at a price above zero is more than nothing.
proof fn lemma_costs_something(units: Float64, price: Float64, cost: Float64)
    requires
        units.is_number(),
        price.is_finite(),
        (Float64 { bits: 0 }).lt(price),
        float::is_product(units, price, cost),
    ensures
        cost.is_number(),
        units.place() <= 0 ==> cost.place() <= 0,
{
    let zero = Float64 { bits: 0 };
    assert(zero.ticks() == 0);
    rounding::order_is_of_values(zero, price);
    rounding::order_is_of_values(units, zero);
    if units.is_finite() {
        let one = float::one_ticks();
        let num = units.ticks() * price.ticks();
        rounding::lemma_two_to_positive(1074);
        assert(0 * one == 0);
        rounding::nearest_is_monotone(num, one, cost, zero);
        rounding::order_is_of_values(cost, zero);
        if units.place() <= 0 {
            assert(num <= 0) by (nonlinear_arith)
                requires
                    num == units.ticks() * price.ticks(),
                    units.ticks() <= 0,
                    price.ticks() > 0,
            ;
        }
    }
}

/// As many of `all` units as cost no more than `max`.
fn cut_units(all: Float64, price: Float64, max: Float64) -> (units: Float64)
    requires
        all.is_number(),
        price.is_finite(),
        (Float64 { bits: 0 }).lt(price),
        max.is_finite(),
        (Float64 { bits: 0 }).lt(max),
    ensures
        is_cut(all, price, max, units),
{
    let mut units = all;
    while !costs_within(units, price, max)
        invariant
            units.le(all),
            price.is_finite(),
            (Float64 { bits: 0 }).lt(price),
            max.is_finite(),
            (Float64 { bits: 0 }).lt(max),
            forall|more: Float64|
                units.lt(more) && more.le(all) ==> !#[trigger] is_within(more, price, max),
        decreases units.place(),
    {
        let cost = units.times(price);
        proof {
            lemma_costs_something(units, price, cost);
            assert(!cost.le(max));
        }
        let ghost before = units;
        units = Float64 { bits: units.bits - 1 };
        assert forall|more: Float64| units.lt(more) && more.le(all) implies !#[trigger] is_within(
            more,
            price,
            max,
        ) by {
            if more.place() == before.place() {
                assert(more == before);
            }
        }
    }
    units
}

impl Trader {
    /// What all sales have brought so far.
    pub fn total_profit(&self) -> (profit: Float64)
        ensures
            profit == self.profit(),
    {
        self.total_profit
    }

    /// How many purchases were made.
    pub fn trades_executed(&self) -> (count: u64)
        ensures
            count == self.purchases(),
    {
        self.trades_executed
    }

    /// The holding of a period.
    pub fn pending_trade(&self, period: u64) -> (trade: Option<&PendingTrade>)
        ensures
            trade is Some <==> self.holdings().dom().contains(period),
            trade matches Some(t) ==> *t == self.holdings()[period],
    {
        broadcast use vstd::std_specs::hash::group_hash_axioms;

        self.pending_trades.get(&period)
    }

    /// How many units a purchase is of, or why nothing is bought.
    fn units_for(&self, opportunity: &BuyOpportunity) -> (units: Result<Float64, TradeError>)
        ensures
            units is Ok <==> !is_refused(opportunity.token_to_buy_price) && can_spend(self.rules()),
            units matches Err(error) ==> is_refusal(
                self.rules(),
                opportunity.token_to_buy_price,
                error,
            ),
            units matches Ok(u) ==> is_bought(self.rules(), opportunity.token_to_buy_price, u),
    {
        let price = opportunity.token_to_buy_price;
        if (Float64 { bits: 0 }).at_least(price) || price.less(Float64 { bits: MIN_PRICE }) {
            return Err(TradeError::InvalidPrice);
        }
        let max = match self.config.max_position_size {
            Some(max) => max,
            None => return Ok(self.spent_amount().over(price)),
        };
        if !max.finite() || !(Float64 { bits: 0 }).less(max) {
            return Err(TradeError::InvalidMaximum);
        }
        let amount = self.spent_amount();
        let all = amount.over(price);
        if !price.finite() {
            return Ok(all);
        }
        proof {
            let zero = Float64 { bits: 0 };
            assert(zero.ticks() == 0);
            rounding::order_is_of_values(zero, price);
        }
        Ok(cut_units(all, price, max))
    }

    /// How much is spent on a purchase.
    fn spent_amount(&self) -> (amount: Float64)
        ensures
            amount == amount_to_spend(self.rules()),
    {
        match self.config.max_position_size {
            Some(max) => if self.config.fixed_trade_amount.less(max) {
                self.config.fixed_trade_amount
            } else {
                max
            },
            None => self.config.fixed_trade_amount,
        }
    }

    /// The order that has to be filled before a purchase counts; none where trades are only
    /// simulated.
    pub fn buy_order(&self, opportunity: &BuyOpportunity) -> (order: Result<
        Option<MarketOrder>,
        TradeError,
    >)
        ensures
            order is Ok <==> !is_refused(opportunity.token_to_buy_price) && can_spend(self.rules()),
            order matches Err(error) ==> is_refusal(
                self.rules(),
                opportunity.token_to_buy_price,
                error,
            ),
            order matches Ok(placed) ==> (placed is None <==> self.simulates()),
            order matches Ok(Some(o)) ==> is_buy_order(*opportunity, self.rules(), o),
            order matches Ok(Some(o)) ==> keeps_maximum(
                self.rules(),
                opportunity.token_to_buy_price,
                o.amount,
            ),
    {
        let units = match self.units_for(opportunity) {
            Ok(units) => units,
            Err(error) => return Err(error),
        };
        if self.simulation_mode {
            return Ok(None);
        }
        let price = opportunity.token_to_buy_price;
        let rounded = to_four_places(units);
        let amount = match self.config.max_position_size {
            Some(max) => if price.finite() {
                capped_amount(units, rounded, price, max)
            } else {
                rounded
            },
            None => rounded,
        };
        Ok(
            Some(
                MarketOrder {
                    token_id: opportunity.token_to_buy_id.clone(),
                    amount,
                    side: String::from_str("BUY"),
                    order_type: Some(String::from_str("FOK")),
                },
            ),
        )
    }

    /// Enters a purchase, whose order was filled or is only simulated, as the holding of its
    /// period.
    pub fn execute_buy(&mut self, opportunity: &BuyOpportunity, now: u64) -> (result: Result<
        (),
        TradeError,
    >)
        requires
            old(self).well_formed(),
            old(self).purchases() < u64::MAX,
            opportunity.period_timestamp + PERIOD_SECONDS <= u64::MAX,
        ensures
            final(self).well_formed(),
            result is Ok <==> !is_refused(opportunity.token_to_buy_price) && can_spend(
                old(self).rules(),
            ),
            result matches Err(error) ==> is_refusal(
                old(self).rules(),
                opportunity.token_to_buy_price,
                error,
            ),
            result is Err ==> *final(self) == *old(self),
            result is Ok ==> {
                let period = opportunity.period_timestamp;
                &&& final(self).rules() == old(self).rules()
                &&& final(self).simulates() == old(self).simulates()
                &&& final(self).profit() == old(self).profit()
                &&& final(self).purchases() == old(self).purchases() + 1
                &&& final(self).holdings().dom().contains(period)
                &&& is_purchase(
                    *opportunity,
                    old(self).rules(),
                    now,
                    final(self).holdings()[period],
                )
                &&& keeps_maximum(
                    old(self).rules(),
                    opportunity.token_to_buy_price,
                    final(self).holdings()[period].total_units,
                )
                &&& final(self).holdings() == old(self).holdings().insert(
                    period,
                    final(self).holdings()[period],
                )
            },
    {
        broadcast use vstd::std_specs::hash::group_hash_axioms;

        let units = match self.units_for(opportunity) {
            Ok(units) => units,
            Err(error) => return Err(error),
        };
        let (sell_points, sell_percentages) = calculate_sell_strategy(opportunity.difference_d);
        let trade = PendingTrade {
            token_id: opportunity.token_to_buy_id.clone(),
            condition_id: opportunity.eth_condition_id.clone(),
            investment_amount: self.spent_amount(),
            total_units: units,
            remaining_units: units,
            purchase_price: opportunity.token_to_buy_price,
            difference_d: opportunity.difference_d,
            timestamp: now,
            market_timestamp: opportunity.period_timestamp,
            sell_points,
            sell_percentages,
            next_sell_index: 0,
        };
        assert(holds(opportunity.period_timestamp, trade));
        self.pending_trades.insert(opportunity.period_timestamp, trade);
        self.trades_executed = self.trades_executed + 1;
        proof {
            lemma_one_changed(*old(self), *self, opportunity.period_timestamp);
        }
        Ok(())
    }

    /// The periods that there are holdings of, in any order.
    fn pending_periods(&self) -> (periods: Vec<u64>)
        ensures
            periods@.no_duplicates(),
            periods@.to_set() == self.holdings().dom(),
    {
        broadcast use vstd::std_specs::hash::group_hash_axioms;

        let mut periods: Vec<u64> = Vec::new();
        let ghost all = vstd::std_specs::iter::IteratorSpec::remaining(
            &vstd::std_specs::hash::spec_keys_iter(&self.pending_trades),
        ).unref();
        for key in it: self.pending_trades.keys()
            invariant
                it.seq().unref() == all,
                periods@ == all.take(it.index() as int),
        {
            periods.push(*key);
        }
        assert(periods@ =~= all);
        assert(all.to_set() == self.pending_trades@.dom());
        periods
    }

    /// Whether the time has come to sell all that is left of a holding.
    fn time_is_up(&self, trade: &PendingTrade, now: u64) -> (up: bool)
        requires
            trade.market_timestamp + PERIOD_SECONDS <= u64::MAX,
        ensures
            up == sells_off(*trade, self.rules().min_time_remaining_seconds, now),
    {
        let left: u64 = period::seconds_left(trade.market_timestamp, now);
        !finished(trade) && left <= self.config.min_time_remaining_seconds && (Float64 {
            bits: 0,
        }).less(trade.remaining_units)
    }

    /// What to do about a holding at a time.
    fn step_for(&self, trade: &PendingTrade, now: u64) -> (step: TradeStep)
        requires
            trade.market_timestamp + PERIOD_SECONDS <= u64::MAX,
        ensures
            is_step(*trade, self.rules().min_time_remaining_seconds, now, step),
    {
        if finished(trade) {
            return TradeStep::Nothing;
        }
        if self.time_is_up(trade, now) {
            TradeStep::SellOff { token_id: trade.token_id.clone(), units: trade.remaining_units }
        } else {
            TradeStep::AskPrice { token_id: trade.token_id.clone() }
        }
    }

    /// What to do about each of the holdings at a time. What is due is then sold by
    /// [`Trader::execute_sell`].
    pub fn check_pending_trades(&self, now: u64) -> (checks: Vec<TradeCheck>)
        requires
            self.well_formed(),
        ensures
            periods_of(checks@).no_duplicates(),
            periods_of(checks@).to_set() == self.holdings().dom(),
            forall|i: int|
                0 <= i < checks.len() ==> is_step(
                    self.holdings()[checks@[i].period],
                    self.rules().min_time_remaining_seconds,
                    now,
                    (#[trigger] checks@[i]).step,
                ),
    {
        broadcast use vstd::std_specs::hash::group_hash_axioms;

        let periods = self.pending_periods();
        let mut checks: Vec<TradeCheck> = Vec::new();
        let mut i: usize = 0;
        while i < periods.len()
            invariant
                i <= periods.len(),
                self.well_formed(),
                periods@.to_set() == self.holdings().dom(),
                periods_of(checks@) == periods@.take(i as int),
                forall|j: int|
                    0 <= j < checks.len() ==> is_step(
                        self.holdings()[checks@[j].period],
                        self.rules().min_time_remaining_seconds,
                        now,
                        (#[trigger] checks@[j]).step,
                    ),
            decreases periods.len() - i,
        {
            let period: u64 = periods[i];
            assert(periods@.to_set().contains(period));
            assert(self.holdings().dom().contains(period));
            match self.pending_trade(period) {
                Some(trade) => {
                    let step = self.step_for(trade, now);
                    let ghost before = checks@;
                    checks.push(TradeCheck { period, step });
                    assert(periods_of(checks@) =~= periods_of(before).push(period));
                    assert(periods@.take(i + 1) =~= periods@.take(i as int).push(period));
                },
                None => {
                    assert(false);
                },
            }
            i += 1;
        }
        assert(periods@.take(i as int) =~= periods@);
        checks
    }
}

/// A trader stays well formed where one holding is entered or changed for a fitting one.
proof fn lemma_one_changed(before: Trader, after: Trader, period: u64)
    requires
        before.well_formed(),
        after.holdings().dom().contains(period),
        after.holdings() == before.holdings().insert(period, after.holdings()[period]),
        holds(period, after.holdings()[period]),
    ensures
        after.well_formed(),
{
    assert forall|p: u64| #[trigger] after.holdings().dom().contains(p) implies holds(
        p,
        after.holdings()[p],
    ) by {
        if p != period {
            assert(before.holdings().dom().contains(p));
        }
    }
}

/// The periods that a list of checks is about.
pub open spec fn periods_of(checks: Seq<TradeCheck>) -> Seq<u64> {
    checks.map_values(|check: TradeCheck| check.period)
}

/// Whether a holding sells a part of itself at the given price.
pub open spec fn sells_at(trade: PendingTrade, price: Float64) -> bool {
    &&& !is_finished(trade)
    &&& trade.next_sell_index < trade.sell_percentages.len()
    &&& reaches(trade, price)
}

/// Whether anything of a holding is to be sold at a time, given the price that was asked for, if one
/// was.
pub open spec fn sells(trade: PendingTrade, min_time: u64, now: u64, price: Option<Float64>) -> bool {
    sells_off(trade, min_time, now) || (price matches Some(p) && sells_at(trade, p))
}

/// That `sale` is what is to be sold of a holding at a time: all that is left of it when its time has
/// come, and otherwise what the price makes due.
pub open spec fn is_due(
    trade: PendingTrade,
    min_time: u64,
    now: u64,
    price: Option<Float64>,
    sale: Sale,
) -> bool {
    if sells_off(trade, min_time, now) {
        sale.units == trade.remaining_units && sale.price == (Float64 { bits: SELL_OFF_PRICE })
    } else {
        price matches Some(p) && sells_at(trade, p) && is_sale(trade, p, sale)
    }
}

/// That `after` is what `before` became as the holding of a period was looked at: `sold` is what was
/// due of it, where the sale is only simulated or its order was accepted, and nothing otherwise. What
/// was sold is gone from the holding, and its profit is entered where it is only simulated. With
/// nothing sold, nothing changes.
pub open spec fn is_look(
    before: Trader,
    period: u64,
    now: u64,
    price: Option<Float64>,
    accepted: bool,
    sold: Option<Sale>,
    after: Trader,
) -> bool {
    let trade = before.holdings()[period];
    let left = after.holdings()[period];
    let min_time = before.rules().min_time_remaining_seconds;
    let sells_now = before.holdings().dom().contains(period) && sells(trade, min_time, now, price)
        && (before.simulates() || accepted);
    match sold {
        Some(sale) => {
            &&& sells_now
            &&& is_due(trade, min_time, now, price, sale)
            &&& after.holdings() == before.holdings().insert(period, left)
            &&& if sells_off(trade, min_time, now) {
                is_sold_off(trade, left)
            } else {
                is_sold_down(trade, sale, left)
            }
            &&& if before.simulates() {
                is_gain(
                    before.profit(),
                    sale.price,
                    trade.purchase_price,
                    sale.units,
                    after.profit(),
                )
            } else {
                after.profit() == before.profit()
            }
            &&& after.rules() == before.rules()
            &&& after.simulates() == before.simulates()
            &&& after.purchases() == before.purchases()
        },
        None => !sells_now && after == before,
    }
}

/// The part of a holding that is to be sold at the given price, if it is one that the holding waits
/// for: its share of everything bought the first time, and of what is left after that.
pub fn due_sale(trade: &PendingTrade, price: Float64) -> (sale: Option<Sale>)
    ensures
        sale is Some <==> sells_at(*trade, price),
        sale matches Some(s) ==> is_sale(*trade, price, s),
{
    let next: usize = trade.next_sell_index;
    if finished(trade) || next >= trade.sell_percentages.len() {
        return None;
    }
    if !price.at_least(trade.sell_points[next]) {
        return None;
    }
    let share = trade.sell_percentages[next];
    let base = if next == 0 {
        trade.total_units
    } else {
        trade.remaining_units
    };
    Some(Sale { units: base.times(share), price })
}

/// The sale of all that is left of a holding, for what it brings.
pub fn sell_off(units: Float64) -> (sale: Sale)
    ensures
        sale.units == units,
        sale.price == (Float64 { bits: SELL_OFF_PRICE }),
{
    Sale { units, price: Float64 { bits: SELL_OFF_PRICE } }
}

/// Whether a token is among the winners of a market.
pub open spec fn wins(details: MarketDetails, token_id: Seq<char>) -> bool {
    exists|i: int|
        0 <= i < details.tokens.len() && (#[trigger] details.tokens@[i]).token_id@ == token_id
            && details.tokens@[i].winner
}

impl Trader {
    /// Whether a market is closed, and whether a token of it won.
    pub fn check_market_result(details: &MarketDetails, token_id: &str) -> (result: (bool, bool))
        ensures
            result.0 == details.closed,
            result.1 == wins(*details, token_id@),
    {
        let mut i: usize = 0;
        while i < details.tokens.len()
            invariant
                i <= details.tokens.len(),
                forall|j: int|
                    0 <= j < i ==> !((#[trigger] details.tokens@[j]).token_id@ == token_id@
                        && details.tokens@[j].winner),
            decreases details.tokens.len() - i,
        {
            if details.tokens[i].winner && text::same_text(details.tokens[i].token_id.as_str(), token_id) {
                return (details.closed, true);
            }
            i += 1;
        }
        (details.closed, false)
    }

    /// The profit of a sale, added to the total.
    fn add_profit(&mut self, price: Float64, cost: Float64, units: Float64)
        ensures
            is_gain(old(self).profit(), price, cost, units, final(self).profit()),
            final(self).rules() == old(self).rules(),
            final(self).simulates() == old(self).simulates(),
            final(self).purchases() == old(self).purchases(),
            final(self).holdings() == old(self).holdings(),
    {
        let value = price.times(units);
        let spent = cost.times(units);
        let profit = value.minus(spent);
        self.total_profit = self.total_profit.plus(profit);
    }

    /// What is to be sold of a holding at a time.
    fn due(&self, trade: &PendingTrade, now: u64, price: Option<Float64>) -> (sale: Option<Sale>)
        requires
            trade.market_timestamp + PERIOD_SECONDS <= u64::MAX,
        ensures
            sale is Some <==> sells(*trade, self.rules().min_time_remaining_seconds, now, price),
            sale matches Some(s) ==> is_due(
                *trade,
                self.rules().min_time_remaining_seconds,
                now,
                price,
                s,
            ),
    {
        if self.time_is_up(trade, now) {
            return Some(sell_off(trade.remaining_units));
        }
        match price {
            Some(price) => due_sale(trade, price),
            None => None,
        }
    }

    /// What is to be sold of the holding of a period, given the price that was asked for, if one was;
    /// and the order that has to be accepted before the sale counts, none where trades are only
    /// simulated.
    pub fn sell_order(&self, period: u64, now: u64, price: Option<Float64>) -> (planned: Option<
        (Sale, Option<MarketOrder>),
    >)
        requires
            self.well_formed(),
        ensures
            planned is Some <==> self.holdings().dom().contains(period) && sells(
                self.holdings()[period],
                self.rules().min_time_remaining_seconds,
                now,
                price,
            ),
            planned matches Some((sale, order)) ==> {
                &&& is_due(
                    self.holdings()[period],
                    self.rules().min_time_remaining_seconds,
                    now,
                    price,
                    sale,
                )
                &&& order is None <==> self.simulates()
                &&& order matches Some(o) ==> is_sell_order(
                    self.holdings()[period].token_id@,
                    sale.units,
                    o,
                )
            },
    {
        let trade = match self.pending_trade(period) {
            Some(trade) => trade,
            None => return None,
        };
        assert(holds(period, *trade));
        let sale = match self.due(trade, now, price) {
            Some(sale) => sale,
            None => return None,
        };
        let order = if self.simulation_mode {
            None
        } else {
            Some(
                MarketOrder {
                    token_id: trade.token_id.clone(),
                    amount: sale.units,
                    side: String::from_str("SELL"),
                    order_type: Some(String::from_str("FOK")),
                },
            )
        };
        Some((sale, order))
    }

    /// Looks at the holding of a period and sells what is due of it, given the price that was asked
    /// for, if one was, and whether the order was accepted, where one was placed. Returns what was
    /// sold. Whatever is sold, no holding appears or is lost, and no more is left of one than before.
    pub fn execute_sell(
        &mut self,
        period: u64,
        now: u64,
        price: Option<Float64>,
        accepted: bool,
    ) -> (sold: Option<Sale>)
        requires
            old(self).well_formed(),
        ensures
            final(self).well_formed(),
            is_look(*old(self), period, now, price, accepted, sold, *final(self)),
            final(self).holdings().dom() == old(self).holdings().dom(),
            all_sound(*old(self)) ==> all_sound(*final(self)) && only_shrinks(
                *old(self),
                *final(self),
            ),
    {
        let (sale, cost, all) = match self.pending_trade(period) {
            Some(trade) => {
                assert(holds(period, *trade));
                match self.due(trade, now, price) {
                    Some(sale) => (sale, trade.purchase_price, self.time_is_up(trade, now)),
                    None => {
                        proof {
                            lemma_look(*old(self), period, now, price, accepted, None, *self);
                        }
                        return None;
                    },
                }
            },
            None => {
                proof {
                    lemma_look(*old(self), period, now, price, accepted, None, *self);
                }
                return None;
            },
        };
        if !self.simulation_mode && !accepted {
            proof {
                lemma_look(*old(self), period, now, price, accepted, None, *self);
            }
            return None;
        }
        if self.simulation_mode {
            self.add_profit(sale.price, cost, sale.units);
        }
        if all {
            self.record_sell_off(period);
        } else {
            self.record_sale(period, sale);
        }
        proof {
            lemma_look(*old(self), period, now, price, accepted, Some(sale), *self);
        }
        Some(sale)
    }

    /// Enters that a part of a holding was sold. Where the holding is gone, or nothing is left of it
    /// to sell, nothing changes.
    fn record_sale(&mut self, period: u64, sale: Sale)
        requires
            old(self).well_formed(),
        ensures
            final(self).well_formed(),
            final(self).same_account(*old(self)),
            ({
                let before = old(self).holdings();
                if before.dom().contains(period) && !is_finished(before[period]) {
                    &&& final(self).holdings() == before.insert(
                        period,
                        final(self).holdings()[period],
                    )
                    &&& is_sold_down(before[period], sale, final(self).holdings()[period])
                } else {
                    final(self).holdings() == before
                }
            }),
    {
        broadcast use vstd::std_specs::hash::group_hash_axioms;

        let ghost before = self.holdings();
        if let Some(mut trade) = self.pending_trades.remove(&period) {
            assert(holds(period, before[period]));
            let advances = !finished(&trade);
            if advances {
                trade.remaining_units = trade.remaining_units.minus(sale.units);
                trade.next_sell_index = trade.next_sell_index + 1;
            }
            self.pending_trades.insert(period, trade);
            proof {
                if advances {
                    assert(self.holdings() =~= before.insert(period, trade));
                    lemma_one_changed(*old(self), *self, period);
                } else {
                    assert(self.holdings() =~= before);
                }
            }
        } else {
            assert(self.holdings() =~= before);
        }
    }

    /// Enters that all of a holding was sold off. Where the holding is gone, or nothing is left of
    /// it to sell, nothing changes.
    fn record_sell_off(&mut self, period: u64)
        requires
            old(self).well_formed(),
        ensures
            final(self).well_formed(),
            final(self).same_account(*old(self)),
            ({
                let before = old(self).holdings();
                if before.dom().contains(period) && !is_finished(before[period]) {
                    &&& final(self).holdings() == before.insert(
                        period,
                        final(self).holdings()[period],
                    )
                    &&& is_sold_off(before[period], final(self).holdings()[period])
                } else {
                    final(self).holdings() == before
                }
            }),
    {
        broadcast use vstd::std_specs::hash::group_hash_axioms;

        let ghost before = self.holdings();
        if let Some(mut trade) = self.pending_trades.remove(&period) {
            assert(holds(period, before[period]));
            let sells = !finished(&trade);
            if sells {
                trade.remaining_units = Float64 { bits: 0 };
                trade.next_sell_index = trade.sell_points.len();
            }
            self.pending_trades.insert(period, trade);
            proof {
                if sells {
                    assert(self.holdings() =~= before.insert(period, trade));
                    lemma_one_changed(*old(self), *self, period);
                } else {
                    assert(self.holdings() =~= before);
                }
            }
        } else {
            assert(self.holdings() =~= before);
        }
    }

    /// The periods of the holdings whose markets are closing or have closed.
    pub fn check_market_closure(&self, now: u64) -> (due: Vec<u64>)
        requires
            self.well_formed(),
        ensures
            due@.no_duplicates(),
            forall|period: u64| #[trigger]
                due@.contains(period) <==> self.holdings().dom().contains(period) && now >= period
                    + PERIOD_SECONDS - CLOSING_SECONDS,
            forall|period: u64| #[trigger]
                self.holdings().dom().contains(period) && now >= period + 900 ==> due@.contains(
                    period,
                ),
            forall|period: u64| #[trigger] due@.contains(period) ==> now + 30 >= period + 900,
    {
        let periods = self.pending_periods();
        let mut due: Vec<u64> = Vec::new();
        let mut i: usize = 0;
        while i < periods.len()
            invariant
                i <= periods.len(),
                self.well_formed(),
                periods@.no_duplicates(),
                periods@.to_set() == self.holdings().dom(),
                due@.no_duplicates(),
                forall|period: u64| #[trigger]
                    due@.contains(period) <==> periods@.take(i as int).contains(period) && now
                        >= period + PERIOD_SECONDS - CLOSING_SECONDS,
            decreases periods.len() - i,
        {
            let period: u64 = periods[i];
            assert(periods@.to_set().contains(period));
            assert(holds(period, self.holdings()[period]));
            let ghost before = due@;
            let ghost seen = periods@.take(i as int);
            assert(periods@.take(i + 1) =~= seen.push(period));
            assert(!seen.contains(period));
            if now >= period + PERIOD_SECONDS - CLOSING_SECONDS {
                assert(!before.contains(period));
                due.push(period);
                assert forall|p: u64| #[trigger] due@.contains(p) == (before.contains(p) || p
                    == period) by {
                    if before.contains(p) {
                        let k = choose|k: int| 0 <= k < before.len() && before[k] == p;
                        assert(due@[k] == p);
                    }
                    assert(due@[before.len() as int] == period);
                }
            }
            assert forall|p: u64| #[trigger] seen.push(period).contains(p) == (seen.contains(p) || p
                == period) by {
                if seen.contains(p) {
                    let k = choose|k: int| 0 <= k < seen.len() && seen[k] == p;
                    assert(seen.push(period)[k] == p);
                }
                assert(seen.push(period)[seen.len() as int] == period);
            }
            i += 1;
        }
        assert(periods@.take(i as int) =~= periods@);
        assert forall|p: u64| periods@.contains(p) == self.holdings().dom().contains(p) by {
            assert(periods@.to_set().contains(p) == periods@.contains(p));
        }
        due
    }

    /// Settles the holding of a closed market that its token won: each unit left pays 1.0, and the
    /// holding is gone. Says whether it was settled.
    pub fn settle_market(&mut self, period: u64, closed: bool, winner: bool) -> (settled: bool)
        requires
            old(self).well_formed(),
        ensures
            final(self).well_formed(),
            settled <==> old(self).holdings().dom().contains(period) && pays_out(
                old(self).holdings()[period],
                closed,
                winner,
            ),
            !settled ==> *final(self) == *old(self),
            settled ==> {
                let trade = old(self).holdings()[period];
                &&& is_payout(
                    old(self).profit(),
                    trade.purchase_price,
                    trade.remaining_units,
                    final(self).profit(),
                )
                &&& final(self).holdings() == old(self).holdings().remove(period)
                &&& final(self).rules() == old(self).rules()
                &&& final(self).simulates() == old(self).simulates()
                &&& final(self).purchases() == old(self).purchases()
            },
            settled ==> {
                let units = old(self).holdings()[period].remaining_units;
                let cost = old(self).holdings()[period].purchase_price;
                forall|spent: Float64, gain: Float64|
                    #![trigger float::is_product(cost, units, spent), float::is_difference(units, spent, gain)]
                    units.is_finite() && cost.is_finite() && float::is_product(cost, units, spent)
                        && float::is_difference(units, spent, gain) && gain.is_number()
                        ==> float::is_sum(old(self).profit(), gain, final(self).profit())
            },
    {
        broadcast use vstd::std_specs::hash::group_hash_axioms;

        let (remaining, cost) = match self.pending_trades.get(&period) {
            Some(trade) => (trade.remaining_units, trade.purchase_price),
            None => return false,
        };
        if !closed || !winner || !(Float64 { bits: 0 }).less(remaining) {
            return false;
        }
        let value = remaining.times(Float64 { bits: ONE });
        let spent = cost.times(remaining);
        let profit = value.minus(spent);
        self.total_profit = self.total_profit.plus(profit);
        self.pending_trades.remove(&period);
        proof {
            lemma_one_removed(*old(self), *self, period);
            let total = old(self).profit();
            let units = old(self).holdings()[period].remaining_units;
            let new_total = self.profit();
            assert(is_payout(total, cost, units, new_total));
            assert forall|paid: Float64, gain: Float64|
                #![trigger float::is_product(cost, units, paid), float::is_difference(units, paid, gain)]
                units.is_finite() && cost.is_finite() && float::is_product(cost, units, paid)
                    && float::is_difference(units, paid, gain)
                    && gain.is_number() implies float::is_sum(total, gain, new_total) by {
                settlement_adds_to_the_total(total, cost, units, new_total, paid, gain);
            }
        }
        true
    }

    /// Drops the holding of a period that is over.
    pub fn reset_period(&mut self, old_period: u64)
        requires
            old(self).well_formed(),
        ensures
            final(self).well_formed(),
            final(self).same_account(*old(self)),
            final(self).holdings() == old(self).holdings().remove(old_period),
    {
        broadcast use vstd::std_specs::hash::group_hash_axioms;

        self.pending_trades.remove(&old_period);
        proof {
            lemma_one_removed(*old(self), *self, old_period);
        }
    }
}

/// Whether a holding pays out.
pub open spec fn pays_out(trade: PendingTrade, closed: bool, winner: bool) -> bool {
    closed && winner && (Float64 { bits: 0 }).lt(trade.remaining_units)
}

/// That `total` grew to `new_total` by a payout of 1.0 for each of `units` that were bought at
/// `cost`.
pub open spec fn is_payout(total: Float64, cost: Float64, units: Float64, new_total: Float64) -> bool {
    exists|value: Float64, spent: Float64, profit: Float64|
        {
            &&& #[trigger] float::is_product(units, Float64 { bits: ONE }, value)
            &&& #[trigger] float::is_product(cost, units, spent)
            &&& #[trigger] float::is_difference(value, spent, profit)
            &&& float::is_sum(total, profit, new_total)
        }
}

/// A trader stays well formed where a holding is dropped.
proof fn lemma_one_removed(before: Trader, after: Trader, period: u64)
    requires
        before.well_formed(),
        after.holdings() == before.holdings().remove(period),
    ensures
        after.well_formed(),
{
    assert forall|p: u64| #[trigger] after.holdings().dom().contains(p) implies holds(
        p,
        after.holdings()[p],
    ) by {
        assert(before.holdings().dom().contains(p));
    }
}

/// Every strategy has between one and five prices, each above the one before, and sells all that is
/// left at the last of them.
pub proof fn strategy_sells_everything(d: Float64)
    ensures
        1 <= sell_parts(d) <= 5,
        sell_levels().take(sell_parts(d)).len() == sell_parts(d),
        sell_shares(sell_parts(d)).len() == sell_parts(d),
        sell_shares(sell_parts(d)).last() == (Float64 { bits: ONE }),
        forall|i: int, j: int|
            0 <= i < j < sell_parts(d) ==> (#[trigger] sell_levels()[i]).lt(#[trigger] sell_levels()[j]),
{
}

/// No sale exceeds what is left of the holding.
pub proof fn sale_is_covered(period: u64, trade: PendingTrade, price: Float64, sale: Sale)
    requires
        holds(period, trade),
        trade.remaining_units.is_finite(),
        sells_at(trade, price),
        is_sale(trade, price, sale),
    ensures
        sale.units.is_finite(),
        0 <= sale.units.ticks() <= trade.remaining_units.ticks(),
{
    let zero = Float64 { bits: 0 };
    assert(zero.ticks() == 0);
    rounding::order_is_of_values(trade.remaining_units, zero);
    if trade.next_sell_index == trade.sell_points.len() - 1 {
        arithmetic::times_one(trade.remaining_units, sale.units);
    } else {
        arithmetic::half_is_less(trade.remaining_units, sale.units);
    }
}

/// No unit is lost or made up by a sale: what is sold and what is left are what there was. The count
/// of ticks is even for every number of units but the very smallest ones.
pub proof fn sale_keeps_count(
    period: u64,
    trade: PendingTrade,
    price: Float64,
    sale: Sale,
    after: PendingTrade,
)
    requires
        holds(period, trade),
        trade.remaining_units.is_finite(),
        trade.remaining_units.ticks() % 2 == 0,
        sells_at(trade, price),
        is_sale(trade, price, sale),
        is_sold_down(trade, sale, after),
    ensures
        sale.units.is_finite(),
        after.remaining_units.is_finite(),
        sale.units.ticks() + after.remaining_units.ticks() == trade.remaining_units.ticks(),
{
    let zero = Float64 { bits: 0 };
    assert(zero.ticks() == 0);
    rounding::order_is_of_values(trade.remaining_units, zero);
    if trade.next_sell_index == trade.sell_points.len() - 1 {
        arithmetic::times_one(trade.remaining_units, sale.units);
        arithmetic::less_itself(trade.remaining_units, sale.units, after.remaining_units);
    } else {
        arithmetic::half_is_exact(trade.remaining_units, sale.units, after.remaining_units);
    }
}

/// The sale at the last price leaves nothing of the holding.
pub proof fn last_sale_leaves_nothing(
    period: u64,
    trade: PendingTrade,
    price: Float64,
    sale: Sale,
    after: PendingTrade,
)
    requires
        holds(period, trade),
        trade.next_sell_index == trade.sell_points.len() - 1,
        trade.remaining_units.is_finite(),
        is_sale(trade, price, sale),
        is_sold_down(trade, sale, after),
    ensures
        after.remaining_units.is_finite(),
        after.remaining_units.ticks() == 0,
        is_finished(after),
{
    arithmetic::times_one(trade.remaining_units, sale.units);
    arithmetic::less_itself(trade.remaining_units, sale.units, after.remaining_units);
}

/// Once all of a holding is sold, or sold off, nothing is done about it any more, at any time and
/// at any price.
pub proof fn finished_holding_rests(
    trade: PendingTrade,
    min_time: u64,
    now: u64,
    price: Float64,
    step: TradeStep,
)
    requires
        is_finished(trade),
        is_step(trade, min_time, now, step),
    ensures
        step is Nothing,
        !sells_at(trade, price),
{
}

/// A holding that was sold off is finished.
pub proof fn sell_off_finishes(before: PendingTrade, after: PendingTrade)
    requires
        is_sold_off(before, after),
    ensures
        is_finished(after),
{
}

/// When the time to sell off has come, a holding of which anything is left is sold off, all of it.
pub proof fn time_runs_out(trade: PendingTrade, min_time: u64, now: u64, step: TradeStep)
    requires
        trade.next_sell_index < trade.sell_points.len(),
        (Float64 { bits: 0 }).lt(trade.remaining_units),
        now + min_time >= trade.market_timestamp + PERIOD_SECONDS,
        is_step(trade, min_time, now, step),
    ensures
        step matches TradeStep::SellOff { token_id, units } && token_id@ == trade.token_id@ && units
            == trade.remaining_units,
{
}

/// After a reset no holding of the period is left, and every other one is as it was.
pub proof fn reset_drops_one_period(before: Trader, after: Trader, old_period: u64, period: u64)
    requires
        before.well_formed(),
        after.holdings() == before.holdings().remove(old_period),
    ensures
        !after.holdings().dom().contains(old_period),
        period != old_period ==> (after.holdings().dom().contains(period)
            <==> before.holdings().dom().contains(period)),
        after.holdings().dom().contains(period) ==> after.holdings()[period]
            == before.holdings()[period] && after.holdings()[period].market_timestamp != old_period,
{
    if after.holdings().dom().contains(period) {
        assert(before.holdings().dom().contains(period));
        assert(holds(period, before.holdings()[period]));
    }
}

/// Neither a purchase nor the order for it costs more than the maximum, where one is set.
pub proof fn maximum_is_kept(
    buy: BuyOpportunity,
    rules: TradingConfig,
    max: Float64,
    now: u64,
    trade: PendingTrade,
    cost: Float64,
    order: MarketOrder,
    order_cost: Float64,
)
    requires
        rules.max_position_size == Some(max),
        buy.token_to_buy_price.is_finite(),
        is_purchase(buy, rules, now, trade),
        float::is_product(trade.total_units, buy.token_to_buy_price, cost),
        is_buy_order(buy, rules, order),
        float::is_product(order.amount, buy.token_to_buy_price, order_cost),
    ensures
        cost.le(max),
        order_cost.le(max),
{
    let price = buy.token_to_buy_price;
    assert(is_within(trade.total_units, price, max));
    let within = choose|within: Float64| #[trigger]
        float::is_product(trade.total_units, price, within) && within.le(max);
    lemma_one_product(trade.total_units, price, within, cost);
    assert(is_within(order.amount, price, max));
    let within = choose|within: Float64| #[trigger]
        float::is_product(order.amount, price, within) && within.le(max);
    lemma_one_product(order.amount, price, within, order_cost);
}

/// What is true of a holding whose units are a finite number that is not negative: nothing is left
/// of it once its last price is behind it.
pub open spec fn is_sound(trade: PendingTrade) -> bool {
    &&& trade.remaining_units.is_finite()
    &&& trade.remaining_units.ticks() >= 0
    &&& trade.next_sell_index == trade.sell_points.len() ==> trade.remaining_units.ticks() == 0
}

/// A purchase for an amount that is not negative is a sound holding, unless its units are too many
/// to be a finite number.
pub proof fn purchase_is_sound(
    buy: BuyOpportunity,
    rules: TradingConfig,
    now: u64,
    trade: PendingTrade,
)
    requires
        can_spend(rules),
        amount_to_spend(rules).is_finite(),
        amount_to_spend(rules).ticks() >= 0,
        buy.token_to_buy_price.is_finite(),
        !is_refused(buy.token_to_buy_price),
        is_purchase(buy, rules, now, trade),
        trade.total_units.is_finite(),
    ensures
        is_sound(trade),
{
    let zero = Float64 { bits: 0 };
    let amount = amount_to_spend(rules);
    let price = buy.token_to_buy_price;
    assert(zero.ticks() == 0);
    rounding::order_is_of_values(zero, price);
    let all = choose|all: Float64|
        {
            &&& #[trigger] float::is_quotient(amount, price, all)
            &&& match rules.max_position_size {
                Some(max) => is_cut(all, price, max, trade.total_units),
                None => trade.total_units == all,
            }
        };
    let num = amount.ticks() * float::one_ticks();
    rounding::lemma_two_to_positive(1074);
    assert(num >= 0) by (nonlinear_arith)
        requires
            num == amount.ticks() * float::one_ticks(),
            amount.ticks() >= 0,
            float::one_ticks() > 0,
    ;
    assert(0 * price.ticks() == 0);
    rounding::nearest_is_monotone(num, price.ticks(), all, zero);
    rounding::order_is_of_values(zero, all);
    if let Some(max) = rules.max_position_size {
        let units = trade.total_units;
        rounding::order_is_of_values(zero, units);
        if units.ticks() < 0 {
            rounding::order_is_of_values(units, zero);
            assert(zero.ticks() * price.ticks() == 0) by (nonlinear_arith)
                requires
                    zero.ticks() == 0,
            ;
            assert(0 * float::one_ticks() == 0);
            assert(float::is_nearest(0, float::one_ticks(), zero)) by {
                reveal(float::is_nearest);
            }
            assert(float::is_product(zero, price, zero));
            assert(is_within(zero, price, max));
        }
    }
}

/// That `after` is a holding after it was looked at once: it is as before, all of it was sold off,
/// or the part was sold that a price made due.
pub open spec fn is_checked(before: PendingTrade, after: PendingTrade) -> bool {
    ||| after == before
    ||| !is_finished(before) && is_sold_off(before, after)
    ||| exists|price: Float64, sale: Sale| #[trigger]
        is_sale(before, price, sale) && sells_at(before, price) && is_sold_down(before, sale, after)
}

/// That `after` holds what `before` did after each of the holdings was looked at once.
pub open spec fn is_pass(before: Trader, after: Trader) -> bool {
    &&& after.holdings().dom() == before.holdings().dom()
    &&& forall|period: u64| #[trigger]
        before.holdings().dom().contains(period) ==> is_checked(
            before.holdings()[period],
            after.holdings()[period],
        )
}

/// That every holding is sound.
pub open spec fn all_sound(trader: Trader) -> bool {
    forall|period: u64| #[trigger]
        trader.holdings().dom().contains(period) ==> is_sound(trader.holdings()[period])
}

/// That the holdings of `after` are those of `before`, with no more left of any of them, further on
/// in their prices, and untouched where they were finished.
pub open spec fn only_shrinks(before: Trader, after: Trader) -> bool {
    &&& after.holdings().dom() == before.holdings().dom()
    &&& forall|period: u64| #[trigger]
        before.holdings().dom().contains(period) ==> {
            let start = before.holdings()[period];
            let end = after.holdings()[period];
            &&& same_purchase(start, end)
            &&& 0 <= end.remaining_units.ticks() <= start.remaining_units.ticks()
            &&& start.next_sell_index <= end.next_sell_index <= end.sell_points.len()
            &&& is_finished(start) ==> end == start
        }
}

/// To look at the holding of one period is a pass: every other holding is as it was.
pub proof fn look_is_pass(
    before: Trader,
    period: u64,
    now: u64,
    price: Option<Float64>,
    accepted: bool,
    sold: Option<Sale>,
    after: Trader,
)
    requires
        is_look(before, period, now, price, accepted, sold, after),
    ensures
        is_pass(before, after),
{
    assert(after.holdings().dom() =~= before.holdings().dom());
    if let Some(sale) = sold {
        let trade = before.holdings()[period];
        if !sells_off(trade, before.rules().min_time_remaining_seconds, now) {
            assert(is_sale(trade, price->0, sale));
        }
    }
}

/// What a look keeps of all holdings.
proof fn lemma_look(
    before: Trader,
    period: u64,
    now: u64,
    price: Option<Float64>,
    accepted: bool,
    sold: Option<Sale>,
    after: Trader,
)
    requires
        before.well_formed(),
        is_look(before, period, now, price, accepted, sold, after),
    ensures
        after.holdings().dom() == before.holdings().dom(),
        all_sound(before) ==> all_sound(after) && only_shrinks(before, after),
{
    look_is_pass(before, period, now, price, accepted, sold, after);
    if all_sound(before) {
        holdings_only_shrink(seq![before, after]);
    }
}

/// After a purchase every holding is sound that was so before, and so is the new one, where the
/// amount is not negative and the units are a finite number.
pub proof fn purchase_keeps_holdings_sound(
    before: Trader,
    after: Trader,
    buy: BuyOpportunity,
    now: u64,
)
    requires
        all_sound(before),
        can_spend(before.rules()),
        amount_to_spend(before.rules()).is_finite(),
        amount_to_spend(before.rules()).ticks() >= 0,
        buy.token_to_buy_price.is_finite(),
        !is_refused(buy.token_to_buy_price),
        is_purchase(buy, before.rules(), now, after.holdings()[buy.period_timestamp]),
        after.holdings()[buy.period_timestamp].total_units.is_finite(),
        after.holdings() == before.holdings().insert(
            buy.period_timestamp,
            after.holdings()[buy.period_timestamp],
        ),
    ensures
        all_sound(after),
{
    let period = buy.period_timestamp;
    purchase_is_sound(buy, before.rules(), now, after.holdings()[period]);
    assert forall|p: u64| #[trigger] after.holdings().dom().contains(p) implies is_sound(
        after.holdings()[p],
    ) by {
        if p != period {
            assert(before.holdings().dom().contains(p));
        }
    }
}

/// A holding that is looked at once stays sound, and no more is left of it than before.
proof fn lemma_checked(period: u64, before: PendingTrade, after: PendingTrade)
    requires
        holds(period, before),
        is_sound(before),
        is_checked(before, after),
    ensures
        holds(period, after),
        is_sound(after),
        same_purchase(before, after),
        after.remaining_units.ticks() <= before.remaining_units.ticks(),
        before.next_sell_index <= after.next_sell_index <= after.sell_points.len(),
        is_finished(before) ==> after == before,
{
    let zero = Float64 { bits: 0 };
    assert(zero.ticks() == 0);
    if after != before && !is_sold_off(before, after) {
        let (price, sale) = choose|price: Float64, sale: Sale| #[trigger]
            is_sale(before, price, sale) && sells_at(before, price) && is_sold_down(
                before,
                sale,
                after,
            );
        sale_is_covered(period, before, price, sale);
        if before.next_sell_index == before.sell_points.len() - 1 {
            last_sale_leaves_nothing(period, before, price, sale, after);
        } else {
            let left = before.remaining_units.ticks() - sale.units.ticks();
            assert(sale.units.opposite().ticks() == -sale.units.ticks());
            rounding::nearest_is_monotone(left, 1, after.remaining_units, before.remaining_units);
            rounding::nearest_is_monotone(left, 1, after.remaining_units, zero);
            rounding::lemma_below_finite(after.remaining_units, before.remaining_units);
        }
    }
}

/// However often the holdings are looked at, and whatever is sold: no holding appears or is lost,
/// none has more left than before or less than nothing, the prices are passed one way, nothing is
/// left once the last price is passed, and a finished holding does not change.
pub proof fn holdings_only_shrink(traders: Seq<Trader>)
    requires
        traders.len() > 0,
        traders[0].well_formed(),
        all_sound(traders[0]),
        forall|i: int| 0 <= i < traders.len() - 1 ==> is_pass(#[trigger] traders[i], traders[i + 1]),
    ensures
        traders.last().well_formed(),
        all_sound(traders.last()),
        only_shrinks(traders[0], traders.last()),
    decreases traders.len(),
{
    let first = traders[0];
    let last = traders.last();
    if traders.len() > 1 {
        let earlier = traders.drop_last();
        assert forall|i: int| 0 <= i < earlier.len() - 1 implies is_pass(
            #[trigger] earlier[i],
            earlier[i + 1],
        ) by {
            assert(earlier[i] == traders[i]);
        }
        holdings_only_shrink(earlier);
        let before = earlier.last();
        assert(before == traders[traders.len() - 2]);
        assert(is_pass(before, last));
        assert forall|period: u64| #[trigger] last.holdings().dom().contains(period) implies holds(
            period,
            last.holdings()[period],
        ) && is_sound(last.holdings()[period]) by {
            assert(before.holdings().dom().contains(period));
            lemma_checked(period, before.holdings()[period], last.holdings()[period]);
        }
        assert forall|period: u64| #[trigger] first.holdings().dom().contains(period) implies ({
            let start = first.holdings()[period];
            let end = last.holdings()[period];
            &&& same_purchase(start, end)
            &&& 0 <= end.remaining_units.ticks() <= start.remaining_units.ticks()
            &&& start.next_sell_index <= end.next_sell_index <= end.sell_points.len()
            &&& is_finished(start) ==> end == start
        }) by {
            assert(before.holdings().dom().contains(period));
            assert(holds(period, before.holdings()[period]));
            assert(is_sound(before.holdings()[period]));
            lemma_checked(period, before.holdings()[period], last.holdings()[period]);
        }
    } else {
        assert forall|period: u64| #[trigger] first.holdings().dom().contains(period) implies is_sound(
            first.holdings()[period],
        ) && holds(period, first.holdings()[period]) by {}
    }
}

/// A sum has one value.
proof fn lemma_one_sum(a: Float64, b: Float64, r: Float64, s: Float64)
    requires
        float::is_sum(a, b, r),
        float::is_sum(a, b, s),
        r.is_number(),
    ensures
        r == s,
{
    if a.is_finite() && b.is_finite() {
        rounding::nearest_is_unique(a.ticks() + b.ticks(), 1, r, s);
        rounding::nearest_is_monotone(a.ticks() + b.ticks(), 1, s, r);
        rounding::value_and_sign(r, s);
    }
}

/// A product of finite numbers is a number.
proof fn lemma_product_is_number(a: Float64, b: Float64, r: Float64)
    requires
        a.is_finite(),
        b.is_finite(),
        float::is_product(a, b, r),
    ensures
        r.is_number(),
{
    let zero = Float64 { bits: 0 };
    rounding::lemma_two_to_positive(1074);
    rounding::nearest_is_monotone(a.ticks() * b.ticks(), float::one_ticks(), r, zero);
}

/// A settlement adds to the total: what the total grows by is the number of units that were left,
/// each of which pays one, less what they cost, whatever the total was before.
pub proof fn settlement_adds_to_the_total(
    total: Float64,
    cost: Float64,
    units: Float64,
    new_total: Float64,
    spent: Float64,
    gain: Float64,
)
    requires
        is_payout(total, cost, units, new_total),
        units.is_finite(),
        cost.is_finite(),
        float::is_product(cost, units, spent),
        float::is_difference(units, spent, gain),
        gain.is_number(),
    ensures
        float::is_sum(total, gain, new_total),
{
    let (value, paid, profit) = choose|value: Float64, paid: Float64, profit: Float64|
        {
            &&& #[trigger] float::is_product(units, Float64 { bits: ONE }, value)
            &&& #[trigger] float::is_product(cost, units, paid)
            &&& #[trigger] float::is_difference(value, paid, profit)
            &&& float::is_sum(total, profit, new_total)
        };
    arithmetic::times_one(units, value);
    rounding::value_and_sign(units, value);
    lemma_product_is_number(cost, units, spent);
    lemma_one_product(cost, units, spent, paid);
    lemma_one_sum(units, spent.opposite(), gain, profit);
}

/// A simulated sale adds to the total: what the total grows by is what the units bring at the price
/// less what they cost, whatever the total was before.
pub proof fn sale_adds_to_the_total(
    total: Float64,
    price: Float64,
    cost: Float64,
    units: Float64,
    new_total: Float64,
    value: Float64,
    spent: Float64,
    gain: Float64,
)
    requires
        is_gain(total, price, cost, units, new_total),
        price.is_finite(),
        units.is_finite(),
        cost.is_finite(),
        float::is_product(price, units, value),
        float::is_product(cost, units, spent),
        float::is_difference(value, spent, gain),
        gain.is_number(),
    ensures
        float::is_sum(total, gain, new_total),
{
    let (brought, paid, profit) = choose|brought: Float64, paid: Float64, profit: Float64|
        {
            &&& #[trigger] float::is_product(price, units, brought)
            &&& #[trigger] float::is_product(cost, units, paid)
            &&& #[trigger] float::is_difference(brought, paid, profit)
            &&& float::is_sum(total, profit, new_total)
        };
    lemma_product_is_number(price, units, value);
    lemma_product_is_number(cost, units, spent);
    lemma_one_product(price, units, value, brought);
    lemma_one_product(cost, units, spent, paid);
    lemma_one_sum(value, spent.opposite(), gain, profit);
}

/// Only the holding of a closed market whose token won pays, and only where anything is left of it.
pub proof fn only_winners_are_paid(trade: PendingTrade, closed: bool, winner: bool)
    requires
        trade.remaining_units.is_number(),
    ensures
        pays_out(trade, closed, winner) <==> closed && winner && trade.remaining_units.ticks() > 0,
{
    let zero = Float64 { bits: 0 };
    assert(zero.ticks() == 0);
    rounding::order_is_of_values(zero, trade.remaining_units);
}

/// A part of a holding waits for its own price: with `k` parts sold, a price makes the next one due
/// exactly where it is at least the `k`-th one that the holding waits for, counted from zero, and
/// anything is left.
pub proof fn part_waits_for_its_price(period: u64, trade: PendingTrade, price: Float64, k: int)
    requires
        holds(period, trade),
        trade.next_sell_index == k,
        k < trade.sell_points.len(),
        trade.remaining_units.is_number(),
    ensures
        price.lt(trade.sell_points@[k]) ==> !sells_at(trade, price),
        !price.is_number() ==> !sells_at(trade, price),
        sells_at(trade, price) <==> trade.remaining_units.ticks() > 0
            && trade.sell_points@[k].le(price),
{
    let zero = Float64 { bits: 0 };
    assert(zero.ticks() == 0);
    rounding::order_is_of_values(trade.remaining_units, zero);
}

/// One price sells one part, unless it reaches the next price too: after a sale, a price below the
/// next one that the holding waits for makes nothing due.
pub proof fn next_part_waits(
    period: u64,
    before: PendingTrade,
    price: Float64,
    sale: Sale,
    after: PendingTrade,
    later: Float64,
)
    requires
        holds(period, before),
        sells_at(before, price),
        is_sold_down(before, sale, after),
    ensures
        before.next_sell_index + 1 == before.sell_points.len() ==> !sells_at(after, later),
        before.next_sell_index + 1 < before.sell_points.len() && later.lt(
            before.sell_points@[before.next_sell_index + 1],
        ) ==> !sells_at(after, later),
{
}

/// A price that sells a part of a bought holding has reached every price before the one of that part
/// as well, and any higher price sells it too.
pub proof fn prices_are_passed_in_order(
    buy: BuyOpportunity,
    rules: TradingConfig,
    now: u64,
    bought: PendingTrade,
    trade: PendingTrade,
    price: Float64,
    higher: Float64,
    i: int,
)
    requires
        is_purchase(buy, rules, now, bought),
        same_purchase(bought, trade),
        sells_at(trade, price),
        price.le(higher),
        0 <= i <= trade.next_sell_index,
    ensures
        trade.sell_points@[i].le(price),
        sells_at(trade, higher),
{
    strategy_sells_everything(buy.difference_d);
    let k = trade.next_sell_index as int;
    assert(trade.sell_points@[i] == sell_levels()[i]);
    assert(trade.sell_points@[k] == sell_levels()[k]);
    if i < k {
        assert(sell_levels()[i].lt(sell_levels()[k]));
    }
}

/// A part is half of what is left, the last one all of it, and is sold at the price that was asked
/// for. The count of ticks is even for every number of units but the very smallest ones.
pub proof fn parts_are_halves(period: u64, trade: PendingTrade, price: Float64, sale: Sale)
    requires
        holds(period, trade),
        trade.remaining_units.is_finite(),
        trade.remaining_units.ticks() % 2 == 0,
        sells_at(trade, price),
        is_sale(trade, price, sale),
    ensures
        sale.price == price,
        trade.next_sell_index + 1 < trade.sell_points.len() ==> 2 * sale.units.ticks()
            == trade.remaining_units.ticks(),
        trade.next_sell_index + 1 == trade.sell_points.len() ==> sale.units.ticks()
            == trade.remaining_units.ticks(),
{
    let zero = Float64 { bits: 0 };
    assert(zero.ticks() == 0);
    rounding::order_is_of_values(trade.remaining_units, zero);
    if trade.next_sell_index + 1 == trade.sell_points.len() {
        arithmetic::times_one(trade.remaining_units, sale.units);
    } else {
        lemma_half_is_sold(trade.remaining_units, sale.units);
    }
}

/// Half of a number with an even count of ticks is half of its ticks.
proof fn lemma_half_is_sold(x: Float64, r: Float64)
    requires
        x.is_finite(),
        x.ticks() > 0,
        x.ticks() % 2 == 0,
        float::is_product(x, Float64 { bits: HALF }, r),
    ensures
        2 * r.ticks() == x.ticks(),
{
    arithmetic::one_and_half();
    arithmetic::half_is_less(x, r);
    let exact = x.ticks() - r.ticks();
    let rest = rounding::nearest_exists(exact, 1);
    let zero = Float64 { bits: 0 };
    assert(zero.ticks() == 0);
    rounding::nearest_is_monotone(exact, 1, rest, zero);
    rounding::order_is_of_values(zero, rest);
    let unsigned = if rest.is_negative() {
        rest.opposite()
    } else {
        rest
    };
    if rest.is_negative() {
        assert(rest.ticks() == 0);
        rounding::order_is_of_values(rest, zero);
    }
    reveal(float::is_nearest);
    assert(unsigned.ticks() == rest.ticks());
    assert(float::is_nearest(exact, 1, unsigned));
    assert(r.opposite().ticks() == -r.ticks());
    assert(x.ticks() + r.opposite().ticks() == exact);
    rounding::order_is_of_values(zero, x);
    arithmetic::half_is_exact(x, r, unsigned);
}

/// While more time is left than the least, nothing is sold off: what is sold is what the price makes
/// due, and without a price nothing is.
pub proof fn time_left_waits_for_prices(
    trade: PendingTrade,
    min_time: u64,
    now: u64,
    price: Option<Float64>,
    sale: Sale,
    step: TradeStep,
)
    requires
        now + min_time < trade.market_timestamp + PERIOD_SECONDS,
    ensures
        !sells_off(trade, min_time, now),
        is_step(trade, min_time, now, step) ==> !(step is SellOff),
        sells(trade, min_time, now, price) <==> price is Some && sells_at(trade, price->0),
        is_due(trade, min_time, now, price, sale) ==> price == Some(sale.price) && is_sale(
            trade,
            sale.price,
            sale,
        ),
{
}

/// When the time has come, all that is left of a holding is sold, for 0.01 a unit, whatever the price
/// is.
pub proof fn time_up_sells_everything(
    trade: PendingTrade,
    min_time: u64,
    now: u64,
    price: Option<Float64>,
    sale: Sale,
    cent: Float64,
)
    requires
        now + min_time >= trade.market_timestamp + PERIOD_SECONDS,
        trade.next_sell_index < trade.sell_points.len(),
        trade.remaining_units.is_number(),
        trade.remaining_units.ticks() > 0,
        float::is_nearest(float::one_ticks(), 100, cent),
    ensures
        sells(trade, min_time, now, price),
        is_due(trade, min_time, now, price, sale) ==> sale.units == trade.remaining_units
            && sale.price.ticks() == cent.ticks(),
{
    let zero = Float64 { bits: 0 };
    assert(zero.ticks() == 0);
    rounding::order_is_of_values(zero, trade.remaining_units);
    rounding::order_is_of_values(trade.remaining_units, zero);
    let price_of_all = Float64 { bits: SELL_OFF_PRICE };
    rounding::lemma_fraction(1, 100, 59, 0x800_0000_0000_0000, price_of_all);
    rounding::nearest_is_unique(float::one_ticks(), 100, price_of_all, cent);
}

/// The lesser of the fixed amount and the maximum is spent, and the fixed amount where no maximum is
/// set.
pub proof fn lesser_amount_is_spent(rules: TradingConfig)
    requires
        rules.fixed_trade_amount.is_number(),
        rules.max_position_size matches Some(max) ==> max.is_number(),
    ensures
        amount_to_spend(rules).le(rules.fixed_trade_amount),
        rules.max_position_size is None ==> amount_to_spend(rules) == rules.fixed_trade_amount,
        rules.max_position_size matches Some(max) ==> {
            &&& amount_to_spend(rules).le(max)
            &&& amount_to_spend(rules) == rules.fixed_trade_amount || amount_to_spend(rules) == max
        },
{
}

/// What is bought is as many units as the amount pays for at the price: no more, so that they cost no
/// more than the amount by more than rounding does, and no fewer. All of it is left at first, to be
/// sold from the first price on.
pub proof fn purchase_is_what_the_amount_pays(
    buy: BuyOpportunity,
    rules: TradingConfig,
    now: u64,
    trade: PendingTrade,
)
    requires
        is_purchase(buy, rules, now, trade),
        rules.max_position_size is None,
    ensures
        float::is_quotient(rules.fixed_trade_amount, buy.token_to_buy_price, trade.total_units),
        trade.investment_amount == rules.fixed_trade_amount,
        trade.remaining_units == trade.total_units,
        trade.purchase_price == buy.token_to_buy_price,
        trade.market_timestamp == buy.period_timestamp,
        trade.timestamp == now,
        trade.token_id@ == buy.token_to_buy_id@,
        trade.condition_id@ == buy.eth_condition_id@,
        trade.next_sell_index == 0,
        trade.sell_points.len() == trade.sell_percentages.len(),
        1 <= trade.sell_points.len() <= 5,
{
    strategy_sells_everything(buy.difference_d);
}

/// Nothing is bought below 0.001, and everything from it on.
pub proof fn least_price_is_a_tenth_of_a_cent(price: Float64, least: Float64)
    requires
        float::is_nearest(float::one_ticks(), 1000, least),
        price.is_number(),
    ensures
        is_refused(price) <==> price.ticks() < least.ticks(),
{
    let held = Float64 { bits: MIN_PRICE };
    rounding::lemma_fraction(1, 1000, 62, 0x4000_0000_0000_0000, held);
    rounding::nearest_is_unique(float::one_ticks(), 1000, held, least);
    rounding::order_is_of_values(price, held);
}

/// A holding waits for 0.03, 0.05, 0.07, 0.10 and 0.15, in this order.
pub proof fn levels_are_in_cents(i: int, cents: int, level: Float64)
    requires
        0 <= i < 5,
        cents == (if i == 0 {
            3int
        } else if i == 1 {
            5
        } else if i == 2 {
            7
        } else if i == 3 {
            10
        } else {
            15
        }),
        float::is_nearest(cents * float::one_ticks(), 100, level),
    ensures
        sell_levels().len() == 5,
        sell_levels()[i].is_finite(),
        sell_levels()[i].ticks() == level.ticks(),
{
    rounding::lemma_fraction(3, 100, 58, 0x400_0000_0000_0000, Float64 { bits: 0x3f9e_b851_eb85_1eb8 });
    rounding::lemma_fraction(5, 100, 57, 0x200_0000_0000_0000, Float64 { bits: 0x3fa9_9999_9999_999a });
    rounding::lemma_fraction(7, 100, 56, 0x100_0000_0000_0000, Float64 { bits: 0x3fb1_eb85_1eb8_51ec });
    rounding::lemma_fraction(10, 100, 56, 0x100_0000_0000_0000, Float64 { bits: 0x3fb9_9999_9999_999a });
    rounding::lemma_fraction(15, 100, 55, 0x80_0000_0000_0000, Float64 { bits: 0x3fc3_3333_3333_3333 });
    rounding::nearest_is_unique(cents * float::one_ticks(), 100, sell_levels()[i], level);
}

/// The number of parts follows the lead: one below 0.06 and from 0.85 on, two from 0.06 and from 0.8,
/// three from 0.1 and from 0.7, four from 0.2, and five from 0.35.
pub proof fn parts_follow_the_lead(d: Float64, bounds: Seq<Float64>)
    requires
        d.is_number(),
        bounds.len() == 7,
        float::is_nearest(6 * float::one_ticks(), 100, bounds[0]),
        float::is_nearest(10 * float::one_ticks(), 100, bounds[1]),
        float::is_nearest(20 * float::one_ticks(), 100, bounds[2]),
        float::is_nearest(35 * float::one_ticks(), 100, bounds[3]),
        float::is_nearest(70 * float::one_ticks(), 100, bounds[4]),
        float::is_nearest(80 * float::one_ticks(), 100, bounds[5]),
        float::is_nearest(85 * float::one_ticks(), 100, bounds[6]),
    ensures
        d.ticks() < bounds[0].ticks() ==> sell_parts(d) == 1,
        bounds[0].ticks() <= d.ticks() < bounds[1].ticks() ==> sell_parts(d) == 2,
        bounds[1].ticks() <= d.ticks() < bounds[2].ticks() ==> sell_parts(d) == 3,
        bounds[2].ticks() <= d.ticks() < bounds[3].ticks() ==> sell_parts(d) == 4,
        bounds[3].ticks() <= d.ticks() < bounds[4].ticks() ==> sell_parts(d) == 5,
        bounds[4].ticks() <= d.ticks() < bounds[5].ticks() ==> sell_parts(d) == 3,
        bounds[5].ticks() <= d.ticks() < bounds[6].ticks() ==> sell_parts(d) == 2,
        bounds[6].ticks() <= d.ticks() ==> sell_parts(d) == 1,
{
    rounding::lemma_fraction(6, 100, 57, 0x200_0000_0000_0000, Float64 { bits: 0x3fae_b851_eb85_1eb8 });
    rounding::nearest_is_unique(6 * float::one_ticks(), 100, Float64 { bits: 0x3fae_b851_eb85_1eb8 }, bounds[0]);
    rounding::order_is_of_values(d, Float64 { bits: 0x3fae_b851_eb85_1eb8 });
    rounding::order_is_of_values(Float64 { bits: 0x3fae_b851_eb85_1eb8 }, d);
    rounding::lemma_fraction(10, 100, 56, 0x100_0000_0000_0000, Float64 { bits: 0x3fb9_9999_9999_999a });
    rounding::nearest_is_unique(10 * float::one_ticks(), 100, Float64 { bits: 0x3fb9_9999_9999_999a }, bounds[1]);
    rounding::order_is_of_values(d, Float64 { bits: 0x3fb9_9999_9999_999a });
    rounding::order_is_of_values(Float64 { bits: 0x3fb9_9999_9999_999a }, d);
    rounding::lemma_fraction(20, 100, 55, 0x80_0000_0000_0000, Float64 { bits: 0x3fc9_9999_9999_999a });
    rounding::nearest_is_unique(20 * float::one_ticks(), 100, Float64 { bits: 0x3fc9_9999_9999_999a }, bounds[2]);
    rounding::order_is_of_values(d, Float64 { bits: 0x3fc9_9999_9999_999a });
    rounding::order_is_of_values(Float64 { bits: 0x3fc9_9999_9999_999a }, d);
    rounding::lemma_fraction(35, 100, 54, 0x40_0000_0000_0000, Float64 { bits: 0x3fd6_6666_6666_6666 });
    rounding::nearest_is_unique(35 * float::one_ticks(), 100, Float64 { bits: 0x3fd6_6666_6666_6666 }, bounds[3]);
    rounding::order_is_of_values(d, Float64 { bits: 0x3fd6_6666_6666_6666 });
    rounding::order_is_of_values(Float64 { bits: 0x3fd6_6666_6666_6666 }, d);
    rounding::lemma_fraction(70, 100, 53, 0x20_0000_0000_0000, Float64 { bits: 0x3fe6_6666_6666_6666 });
    rounding::nearest_is_unique(70 * float::one_ticks(), 100, Float64 { bits: 0x3fe6_6666_6666_6666 }, bounds[4]);
    rounding::order_is_of_values(d, Float64 { bits: 0x3fe6_6666_6666_6666 });
    rounding::order_is_of_values(Float64 { bits: 0x3fe6_6666_6666_6666 }, d);
    rounding::lemma_fraction(80, 100, 53, 0x20_0000_0000_0000, Float64 { bits: 0x3fe9_9999_9999_999a });
    rounding::nearest_is_unique(80 * float::one_ticks(), 100, Float64 { bits: 0x3fe9_9999_9999_999a }, bounds[5]);
    rounding::order_is_of_values(d, Float64 { bits: 0x3fe9_9999_9999_999a });
    rounding::order_is_of_values(Float64 { bits: 0x3fe9_9999_9999_999a }, d);
    rounding::lemma_fraction(85, 100, 53, 0x20_0000_0000_0000, Float64 { bits: 0x3feb_3333_3333_3333 });
    rounding::nearest_is_unique(85 * float::one_ticks(), 100, Float64 { bits: 0x3feb_3333_3333_3333 }, bounds[6]);
    rounding::order_is_of_values(d, Float64 { bits: 0x3feb_3333_3333_3333 });
    rounding::order_is_of_values(Float64 { bits: 0x3feb_3333_3333_3333 }, d);
}

/// A quotient has one value.
proof fn lemma_one_quotient(a: Float64, b: Float64, r: Float64, s: Float64)
    requires
        a.is_finite(),
        b.is_finite(),
        b.ticks() > 0,
        float::is_quotient(a, b, r),
        float::is_quotient(a, b, s),
    ensures
        r == s,
        r.is_number(),
{
    let zero = Float64 { bits: 0 };
    assert(zero.ticks() == 0);
    rounding::order_is_of_values(zero, b);
    let num = a.ticks() * float::one_ticks();
    rounding::nearest_is_unique(num, b.ticks(), r, s);
    rounding::nearest_is_monotone(num, b.ticks(), r, zero);
    rounding::nearest_is_monotone(num, b.ticks(), s, zero);
    rounding::value_and_sign(r, s);
}

/// To four decimal places a number of units has one value.
proof fn lemma_one_rounding(units: Float64, r: Float64, s: Float64)
    requires
        units.is_finite(),
        is_to_four_places(units, r),
        is_to_four_places(units, s),
        r.is_finite(),
    ensures
        r == s,
{
    let parts = Float64 { bits: TEN_THOUSAND };
    let zero = Float64 { bits: 0 };
    assert(zero.ticks() == 0);
    rounding::order_is_of_values(zero, parts);
    let (scaled, whole) = choose|scaled: Float64, whole: Float64|
        {
            &&& #[trigger] float::is_product(units, parts, scaled)
            &&& #[trigger] float::is_whole(scaled, whole)
            &&& float::is_quotient(whole, parts, r)
        };
    let (other_scaled, other_whole) = choose|scaled: Float64, whole: Float64|
        {
            &&& #[trigger] float::is_product(units, parts, scaled)
            &&& #[trigger] float::is_whole(scaled, whole)
            &&& float::is_quotient(whole, parts, s)
        };
    lemma_product_is_number(units, parts, scaled);
    lemma_one_product(units, parts, scaled, other_scaled);
    if scaled.is_finite() {
        rounding::value_and_sign(whole, other_whole);
    }
    if whole.is_finite() {
        lemma_one_quotient(whole, parts, r, s);
    }
}

/// A maximum that does not bind changes nothing: where the units to four decimal places cost no more
/// than it, and neither do those to two that are posted of them, the order is the one that is placed
/// without a maximum.
pub proof fn loose_maximum_changes_nothing(
    rules: TradingConfig,
    free: TradingConfig,
    max: Float64,
    price: Float64,
    units: Float64,
    amount: Float64,
    free_amount: Float64,
)
    requires
        rules.max_position_size == Some(max),
        free.max_position_size is None,
        price.is_finite(),
        units.is_finite(),
        free_amount.is_finite(),
        is_order_amount(rules, price, units, amount),
        is_order_amount(free, price, units, free_amount),
        is_within(free_amount, price, max),
        forall|scaled: Float64, whole: Float64, posted: Float64|
            {
                &&& #[trigger] float::is_product(free_amount, Float64 { bits: HUNDRED }, scaled)
                &&& #[trigger] float::is_whole(scaled, whole)
                &&& #[trigger] float::is_quotient(whole, Float64 { bits: HUNDRED }, posted)
            } ==> is_within(posted, price, max),
    ensures
        amount == free_amount,
{
    let rounded = choose|rounded: Float64| #[trigger]
        is_to_four_places(units, rounded) && is_capped_amount(units, rounded, price, max, amount);
    lemma_one_rounding(units, free_amount, rounded);
}

/// A look counts once: an order that was not accepted changes nothing; a real sale leaves the count of
/// profit alone; a simulated one adds what it brings less what it cost to it. Only what was due is
/// sold.
pub proof fn looks_count_once(
    before: Trader,
    period: u64,
    now: u64,
    price: Option<Float64>,
    accepted: bool,
    sold: Option<Sale>,
    after: Trader,
    value: Float64,
    spent: Float64,
    gain: Float64,
)
    requires
        is_look(before, period, now, price, accepted, sold, after),
    ensures
        !before.simulates() && !accepted ==> sold is None && after == before,
        sold is None ==> after == before,
        !before.simulates() ==> after.profit() == before.profit(),
        !before.holdings().dom().contains(period) ==> sold is None,
        sold matches Some(sale) ==> {
            let cost = before.holdings()[period].purchase_price;
            before.simulates() && sale.price.is_finite() && sale.units.is_finite() && cost.is_finite()
                && float::is_product(sale.price, sale.units, value) && float::is_product(
                cost,
                sale.units,
                spent,
            ) && float::is_difference(value, spent, gain) && gain.is_number() ==> float::is_sum(
                before.profit(),
                gain,
                after.profit(),
            )
        },
        after.purchases() == before.purchases(),
        after.rules() == before.rules(),
{
    if let Some(sale) = sold {
        let cost = before.holdings()[period].purchase_price;
        if before.simulates() && sale.price.is_finite() && sale.units.is_finite()
            && cost.is_finite() && float::is_product(sale.price, sale.units, value)
            && float::is_product(cost, sale.units, spent) && float::is_difference(
            value,
            spent,
            gain,
        ) && gain.is_number() {
            sale_adds_to_the_total(
                before.profit(),
                sale.price,
                cost,
                sale.units,
                after.profit(),
                value,
                spent,
                gain,
            );
        }
    }
}

/// A token wins exactly where the market lists it as a winner; one that the market does not list, or
/// lists without winning, does not.
pub proof fn listed_winners_win(details: MarketDetails, token_id: Seq<char>, i: int)
    ensures
        0 <= i < details.tokens.len() && details.tokens@[i].token_id@ == token_id
            && details.tokens@[i].winner ==> wins(details, token_id),
        (forall|j: int| 0 <= j < details.tokens.len() ==> !(#[trigger] details.tokens@[j]).winner)
            ==> !wins(details, token_id),
        (forall|j: int|
            0 <= j < details.tokens.len() ==> (#[trigger] details.tokens@[j]).token_id@ != token_id)
            ==> !wins(details, token_id),
{
}

/// A purchase is refused only for its price or for a maximum that is no finite amount above zero.
pub proof fn purchases_are_refused_for_a_reason(rules: TradingConfig)
    ensures
        rules.max_position_size is None ==> can_spend(rules),
        rules.max_position_size matches Some(max) ==> (can_spend(rules) <==> max.is_finite()
            && max.ticks() > 0),
{
    if let Some(max) = rules.max_position_size {
        let zero = Float64 { bits: 0 };
        assert(zero.ticks() == 0);
        if max.is_finite() {
            rounding::order_is_of_values(zero, max);
        }
    }
}

/// Purchases buy and sales sell, each the token of the holding, to be filled at once or not at all;
/// a sale is for the very units that were due.
pub proof fn orders_buy_and_sell(
    buy: BuyOpportunity,
    rules: TradingConfig,
    bought: MarketOrder,
    token_id: Seq<char>,
    units: Float64,
    sold: MarketOrder,
)
    requires
        is_buy_order(buy, rules, bought),
        is_sell_order(token_id, units, sold),
    ensures
        bought.token_id@ == buy.token_to_buy_id@,
        bought.side@ == "BUY"@,
        bought.order_type is Some && bought.order_type->0@ == "FOK"@,
        sold.token_id@ == token_id,
        sold.amount == units,
        sold.side@ == "SELL"@,
        sold.order_type is Some && sold.order_type->0@ == "FOK"@,
{
}

/// A sale at one of the prices moves the holding on by one price and takes just the units that were
/// sold from it; everything else about the holding stays.
pub proof fn sales_move_on_by_one(before: PendingTrade, sale: Sale, after: PendingTrade)
    requires
        is_sold_down(before, sale, after),
        before.remaining_units.is_finite(),
        sale.units.is_finite(),
    ensures
        after.next_sell_index == before.next_sell_index + 1,
        float::is_nearest(
            before.remaining_units.ticks() - sale.units.ticks(),
            1,
            after.remaining_units,
        ),
        after.total_units == before.total_units,
        after.purchase_price == before.purchase_price,
        after.token_id == before.token_id,
        after.condition_id == before.condition_id,
        after.market_timestamp == before.market_timestamp,
        after.sell_points == before.sell_points,
        after.sell_percentages == before.sell_percentages,
        after.investment_amount == before.investment_amount,
{
    assert(sale.units.opposite().ticks() == -sale.units.ticks());
}

} // verus!
