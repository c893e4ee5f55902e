//! Buying the cheap token of the ETH market when its other token is nearly certain to win and the
//! BTC market does not agree.
use crate::arithmetic;
use crate::float::{self, Float64};
use crate::models::TokenPrice;
use crate::monitor::MarketSnapshot;
use crate::rounding;
use vstd::prelude::*;
use vstd::string::*;

verus! {

/// The least lead of the ETH price over the BTC price to buy for, 0.01.
pub const MIN_DIFFERENCE: u64 = 0x3f84_7ae1_47ae_147b;

/// The lead from which on it does not matter how much time is left, 0.06.
pub const TIMELESS_DIFFERENCE: u64 = 0x3fae_b851_eb85_1eb8;

/// Waits for the price at which a token of the ETH market is nearly certain to win.
#[derive(Clone, Debug)]
pub struct PriceDetector {
    trigger_price: Float64,
    min_time_remaining_seconds: u64,
    current_period_bought: Option<u64>,
}

/// What to buy.
#[derive(Clone, Debug)]
pub struct BuyOpportunity {
    pub eth_condition_id: String,
    /// The token to buy, the opposite of the one with the higher price.
    pub token_to_buy_id: String,
    pub token_to_buy_price: Float64,
    /// By how much the price of the higher ETH token leads that of the BTC token.
    pub difference_d: Float64,
    pub period_timestamp: u64,
    pub time_remaining_seconds: u64,
}

/// The price that a token is taken to have, in ticks.
pub open spec fn price_ticks(token: TokenPrice) -> int {
    match token.ask {
        Some(ask) => float::decimal_ticks(ask),
        None => 0,
    }
}

/// Whether the price that a token is taken to have is negative.
pub open spec fn is_price_negative(token: TokenPrice) -> bool {
    token.ask is Some && token.ask->0.m() < 0
}

/// Whether all four tokens of a snapshot have prices.
pub open spec fn quoted(snapshot: MarketSnapshot) -> bool {
    &&& snapshot.eth_market.up_token is Some
    &&& snapshot.eth_market.down_token is Some
    &&& snapshot.btc_market.up_token is Some
    &&& snapshot.btc_market.down_token is Some
}

/// Whether the ETH market's higher token is the one for up.
pub open spec fn up_is_higher(snapshot: MarketSnapshot) -> bool {
    price_ticks(snapshot.eth_market.up_token->0) > price_ticks(snapshot.eth_market.down_token->0)
}

/// The ETH market's higher token.
pub open spec fn higher_token(snapshot: MarketSnapshot) -> TokenPrice {
    if up_is_higher(snapshot) {
        snapshot.eth_market.up_token->0
    } else {
        snapshot.eth_market.down_token->0
    }
}

/// The ETH market's other token.
pub open spec fn lower_token(snapshot: MarketSnapshot) -> TokenPrice {
    if up_is_higher(snapshot) {
        snapshot.eth_market.down_token->0
    } else {
        snapshot.eth_market.up_token->0
    }
}

/// The BTC market's token for the same direction as the ETH market's higher token.
pub open spec fn corresponding_token(snapshot: MarketSnapshot) -> TokenPrice {
    if up_is_higher(snapshot) {
        snapshot.btc_market.up_token->0
    } else {
        snapshot.btc_market.down_token->0
    }
}

/// By how much the ETH market's higher token leads the corresponding one, in ticks.
pub open spec fn difference_ticks(snapshot: MarketSnapshot) -> int {
    float::rounded_ticks(
        price_ticks(higher_token(snapshot)) - price_ticks(corresponding_token(snapshot)),
        1,
    )
}

/// Whether a lead is one for which enough time has to be left.
pub open spec fn needs_time(difference: int) -> bool {
    difference < (Float64 { bits: TIMELESS_DIFFERENCE }).ticks()
}

/// That `buy` is the purchase that a snapshot calls for.
pub open spec fn is_opportunity(snapshot: MarketSnapshot, buy: BuyOpportunity) -> bool {
    &&& buy.eth_condition_id@ == snapshot.eth_market.condition_id@
    &&& buy.token_to_buy_id@ == lower_token(snapshot).token_id@
    &&& buy.token_to_buy_price.is_finite()
    &&& buy.token_to_buy_price.ticks() == price_ticks(lower_token(snapshot))
    &&& buy.token_to_buy_price.is_negative() == is_price_negative(lower_token(snapshot))
    &&& buy.difference_d.is_number()
    &&& buy.difference_d.ticks() == difference_ticks(snapshot)
    &&& buy.period_timestamp == snapshot.period_timestamp
    &&& buy.time_remaining_seconds == snapshot.time_remaining_seconds
}

/// A token's price: its ask, or zero where there is none.
fn price_of(token: &TokenPrice) -> (price: Float64)
    ensures
        price.is_finite(),
        price.ticks() == price_ticks(*token),
        price.is_negative() == is_price_negative(*token),
{
    match token.ask {
        Some(ask) => Float64::of_decimal(ask),
        None => Float64 { bits: 0 },
    }
}

impl PriceDetector {
    /// The price that the higher token has to reach.
    pub closed spec fn trigger(self) -> Float64 {
        self.trigger_price
    }

    /// The time that has to be left for a small lead.
    pub closed spec fn min_time(self) -> u64 {
        self.min_time_remaining_seconds
    }

    /// The period in which the last purchase was made.
    pub closed spec fn bought_period(self) -> Option<u64> {
        self.current_period_bought
    }

    /// Whether the higher token reached the price to wait for. A threshold that is no number is
    /// always reached.
    pub open spec fn is_reached(self, snapshot: MarketSnapshot) -> bool {
        self.trigger().is_number() ==> price_ticks(higher_token(snapshot)) >= self.trigger().ticks()
    }

    /// Whether a snapshot calls for a purchase.
    pub open spec fn buys(self, snapshot: MarketSnapshot) -> bool {
        &&& snapshot.time_remaining_seconds > 0
        &&& self.bought_period() != Some(snapshot.period_timestamp)
        &&& quoted(snapshot)
        &&& self.is_reached(snapshot)
        &&& difference_ticks(snapshot) >= (Float64 { bits: MIN_DIFFERENCE }).ticks()
        &&& needs_time(difference_ticks(snapshot)) ==> snapshot.time_remaining_seconds
            > self.min_time()
    }

    /// A detector that has not bought yet.
    pub fn new(trigger_price: Float64, min_time_remaining_seconds: u64) -> (detector: PriceDetector)
        ensures
            detector.trigger() == trigger_price,
            detector.min_time() == min_time_remaining_seconds,
            detector.bought_period() is None,
    {
        PriceDetector { trigger_price, min_time_remaining_seconds, current_period_bought: None }
    }

    /// The purchase that a snapshot calls for: the lower token of the ETH market, once the higher
    /// one reached the trigger price and leads the BTC market by enough.
    pub fn detect_opportunity(&self, snapshot: &MarketSnapshot) -> (opportunity: Option<
        BuyOpportunity,
    >)
        ensures
            opportunity is Some <==> self.buys(*snapshot),
            opportunity matches Some(buy) ==> is_opportunity(*snapshot, buy),
    {
        if snapshot.time_remaining_seconds == 0 {
            return None;
        }
        if let Some(period) = self.current_period_bought {
            if period == snapshot.period_timestamp {
                return None;
            }
        }
        let (eth_up, eth_down) = match (
            &snapshot.eth_market.up_token,
            &snapshot.eth_market.down_token,
        ) {
            (Some(up), Some(down)) => (up, down),
            _ => return None,
        };
        let eth_up_price = price_of(eth_up);
        let eth_down_price = price_of(eth_down);
        proof {
            rounding::order_is_of_values(eth_down_price, eth_up_price);
        }
        let up = eth_down_price.less(eth_up_price);
        let higher_price = if up {
            eth_up_price
        } else {
            eth_down_price
        };
        proof {
            if self.trigger_price.is_number() {
                rounding::order_is_of_values(higher_price, self.trigger_price);
            }
        }
        if higher_price.less(self.trigger_price) {
            return None;
        }
        let (btc_up, btc_down) = match (
            &snapshot.btc_market.up_token,
            &snapshot.btc_market.down_token,
        ) {
            (Some(up), Some(down)) => (up, down),
            _ => return None,
        };
        let difference_d = if up {
            eth_up_price.minus(price_of(btc_up))
        } else {
            eth_down_price.minus(price_of(btc_down))
        };
        let least = Float64 { bits: MIN_DIFFERENCE };
        let timeless = Float64 { bits: TIMELESS_DIFFERENCE };
        proof {
            rounding::order_is_of_values(difference_d, least);
            rounding::order_is_of_values(difference_d, timeless);
        }
        if difference_d.less(least) {
            return None;
        }
        if difference_d.less(timeless) && snapshot.time_remaining_seconds
            <= self.min_time_remaining_seconds {
            return None;
        }
        let (token, price) = if up {
            (eth_down, eth_down_price)
        } else {
            (eth_up, eth_up_price)
        };
        Some(
            BuyOpportunity {
                eth_condition_id: snapshot.eth_market.condition_id.clone(),
                token_to_buy_id: token.token_id.clone(),
                token_to_buy_price: price,
                difference_d,
                period_timestamp: snapshot.period_timestamp,
                time_remaining_seconds: snapshot.time_remaining_seconds,
            },
        )
    }

    /// Remembers that a purchase was made in a period.
    pub fn mark_period_bought(&mut self, period_timestamp: u64)
        ensures
            final(self).bought_period() == Some(period_timestamp),
            final(self).trigger() == old(self).trigger(),
            final(self).min_time() == old(self).min_time(),
    {
        self.current_period_bought = Some(period_timestamp);
    }

    /// Forgets the last purchase, for a new period.
    pub fn reset_period(&mut self)
        ensures
            final(self).bought_period() is None,
            final(self).trigger() == old(self).trigger(),
            final(self).min_time() == old(self).min_time(),
    {
        self.current_period_bought = None;
    }
}

/// At most one purchase is made in a period: once it is remembered, no snapshot of the period calls
/// for another.
pub proof fn one_purchase_per_period(detector: PriceDetector, snapshot: MarketSnapshot)
    requires
        detector.bought_period() == Some(snapshot.period_timestamp),
    ensures
        !detector.buys(snapshot),
{
}

/// A purchase is only made on a real lead: the price of the ETH market's higher token is above that
/// of the corresponding token of the BTC market.
pub proof fn purchase_needs_a_lead(detector: PriceDetector, snapshot: MarketSnapshot)
    requires
        detector.buys(snapshot),
    ensures
        price_ticks(higher_token(snapshot)) > price_ticks(corresponding_token(snapshot)),
        higher_token(snapshot).ask_units() > corresponding_token(snapshot).ask_units(),
{
    let higher = higher_token(snapshot);
    let other = corresponding_token(snapshot);
    let exact = price_ticks(higher) - price_ticks(other);
    let zero = Float64 { bits: 0 };
    let least = Float64 { bits: MIN_DIFFERENCE };
    assert(zero.ticks() == 0);
    rounding::order_is_of_values(zero, least);
    assert(least.ticks() > 0);
    let r = rounding::nearest_exists(exact, 1);
    rounding::nearest_is_rounded(exact, 1, r);
    rounding::nearest_is_monotone(exact, 1, r, zero);
    assert(exact > 0);
    if higher.ask_units() <= other.ask_units() {
        lemma_prices_keep_order(higher, other);
    }
}

/// Of two tokens the one that is not dearer is not dearer in floating point either.
proof fn lemma_prices_keep_order(a: TokenPrice, b: TokenPrice)
    requires
        a.ask_units() <= b.ask_units(),
    ensures
        price_ticks(a) <= price_ticks(b),
{
    match (a.ask, b.ask) {
        (Some(x), Some(y)) => arithmetic::decimals_keep_order(x, y),
        (Some(x), None) => arithmetic::decimal_of_sign(x),
        (None, Some(y)) => arithmetic::decimal_of_sign(y),
        (None, None) => {},
    }
}

/// The least lead to buy for is the number nearest to 0.01, and the one from which on time does not
/// matter the number nearest to 0.06.
pub proof fn leads_are_in_cents()
    ensures
        float::is_nearest(float::one_ticks(), 100, Float64 { bits: MIN_DIFFERENCE }),
        float::is_nearest(6 * float::one_ticks(), 100, Float64 { bits: TIMELESS_DIFFERENCE }),
{
    rounding::lemma_fraction(
        1,
        100,
        59,
        0x800_0000_0000_0000,
        Float64 { bits: MIN_DIFFERENCE },
    );
    rounding::lemma_fraction(
        6,
        100,
        57,
        0x200_0000_0000_0000,
        Float64 { bits: TIMELESS_DIFFERENCE },
    );
}

/// That `b` shows what `a` does with up and down exchanged in both markets.
pub open spec fn is_mirrored(a: MarketSnapshot, b: MarketSnapshot) -> bool {
    &&& b.eth_market.up_token == a.eth_market.down_token
    &&& b.eth_market.down_token == a.eth_market.up_token
    &&& b.btc_market.up_token == a.btc_market.down_token
    &&& b.btc_market.down_token == a.btc_market.up_token
    &&& b.eth_market.condition_id@ == a.eth_market.condition_id@
    &&& b.time_remaining_seconds == a.time_remaining_seconds
    &&& b.period_timestamp == a.period_timestamp
}

/// The two directions are treated alike: with up and down exchanged in both markets, and the two
/// ETH tokens at different prices, the same token is bought at the same price and for the same lead,
/// or nothing either way.
pub proof fn directions_are_alike(
    detector: PriceDetector,
    a: MarketSnapshot,
    b: MarketSnapshot,
    bought: BuyOpportunity,
    mirrored: BuyOpportunity,
)
    requires
        is_mirrored(a, b),
        price_ticks(a.eth_market.up_token->0) != price_ticks(a.eth_market.down_token->0),
    ensures
        detector.buys(a) == detector.buys(b),
        is_opportunity(a, bought) && is_opportunity(b, mirrored) ==> {
            &&& bought.token_to_buy_id@ == mirrored.token_to_buy_id@
            &&& bought.token_to_buy_price.ticks() == mirrored.token_to_buy_price.ticks()
            &&& bought.difference_d.ticks() == mirrored.difference_d.ticks()
            &&& bought.eth_condition_id@ == mirrored.eth_condition_id@
        },
{
}

/// What was bought, by the four prices: if the ETH market's Up token is the dearer one, its Down
/// token, for the lead of the Up token over the BTC market's Up token; and otherwise its Up token,
/// for the lead of the Down token over the BTC market's Down token. The dearer one has reached the
/// trigger price.
pub proof fn purchase_by_the_prices(
    detector: PriceDetector,
    snapshot: MarketSnapshot,
    eth_up: TokenPrice,
    eth_down: TokenPrice,
    btc_up: TokenPrice,
    btc_down: TokenPrice,
    buy: BuyOpportunity,
)
    requires
        snapshot.eth_market.up_token == Some(eth_up),
        snapshot.eth_market.down_token == Some(eth_down),
        snapshot.btc_market.up_token == Some(btc_up),
        snapshot.btc_market.down_token == Some(btc_down),
        eth_up.ask is Some,
        eth_down.ask is Some,
        btc_up.ask is Some,
        btc_down.ask is Some,
        detector.trigger().is_number(),
        detector.buys(snapshot),
        is_opportunity(snapshot, buy),
    ensures
        ({
            let eu = float::decimal_ticks(eth_up.ask->0);
            let ed = float::decimal_ticks(eth_down.ask->0);
            let bu = float::decimal_ticks(btc_up.ask->0);
            let bd = float::decimal_ticks(btc_down.ask->0);
            &&& eu >= detector.trigger().ticks() || ed >= detector.trigger().ticks()
            &&& eu > ed ==> {
                &&& buy.token_to_buy_id@ == eth_down.token_id@
                &&& buy.token_to_buy_price.ticks() == ed
                &&& float::is_nearest(eu - bu, 1, buy.difference_d)
                &&& eu > bu
            }
            &&& eu <= ed ==> {
                &&& buy.token_to_buy_id@ == eth_up.token_id@
                &&& buy.token_to_buy_price.ticks() == eu
                &&& float::is_nearest(ed - bd, 1, buy.difference_d)
                &&& ed > bd
            }
        }),
        buy.eth_condition_id@ == snapshot.eth_market.condition_id@,
        buy.period_timestamp == snapshot.period_timestamp,
        buy.time_remaining_seconds == snapshot.time_remaining_seconds,
        (Float64 { bits: 0x3f84_7ae1_47ae_147b }).le(buy.difference_d),
{
    purchase_needs_a_lead(detector, snapshot);
    let eu = float::decimal_ticks(eth_up.ask->0);
    let ed = float::decimal_ticks(eth_down.ask->0);
    let bu = float::decimal_ticks(btc_up.ask->0);
    let bd = float::decimal_ticks(btc_down.ask->0);
    let exact = if eu > ed {
        eu - bu
    } else {
        ed - bd
    };
    let r = rounding::nearest_exists(exact, 1);
    rounding::nearest_is_rounded(exact, 1, r);
    let zero = Float64 { bits: 0 };
    assert(zero.ticks() == 0);
    rounding::order_is_of_values(zero, Float64 { bits: MIN_DIFFERENCE });
    lemma_same_rounding(exact, r, buy.difference_d);
    rounding::order_is_of_values(Float64 { bits: MIN_DIFFERENCE }, buy.difference_d);
}

/// A number of the same value as the nearest one is nearest too, where the value is not zero.
proof fn lemma_same_rounding(exact: int, r: Float64, x: Float64)
    requires
        float::is_nearest(exact, 1, r),
        x.is_number(),
        x.ticks() == r.ticks(),
        x.ticks() > 0,
    ensures
        float::is_nearest(exact, 1, x),
{
    let zero = Float64 { bits: 0 };
    assert(zero.ticks() == 0);
    rounding::nearest_is_monotone(exact, 1, r, zero);
    rounding::order_is_of_values(zero, r);
    rounding::order_is_of_values(zero, x);
    rounding::value_and_sign(r, x);
}

/// Where neither ETH token costs more than the BTC token of the same direction, nothing is bought,
/// whatever else the prices are.
pub proof fn agreement_is_not_bought(detector: PriceDetector, snapshot: MarketSnapshot)
    requires
        quoted(snapshot),
        snapshot.eth_market.up_token->0.ask_units() <= snapshot.btc_market.up_token->0.ask_units(),
        snapshot.eth_market.down_token->0.ask_units()
            <= snapshot.btc_market.down_token->0.ask_units(),
    ensures
        !detector.buys(snapshot),
{
    if detector.buys(snapshot) {
        purchase_needs_a_lead(detector, snapshot);
    }
}

/// Whenever a purchase is called for it is made: in a period without one, with time left, once a
/// token of the ETH market that costs more than the other has reached the trigger price and leads the
/// BTC token of its direction by a cent, where enough time is left or it leads by six cents.
pub proof fn every_lead_is_bought(
    detector: PriceDetector,
    snapshot: MarketSnapshot,
    up: bool,
    cent: Float64,
    six_cents: Float64,
)
    requires
        quoted(snapshot),
        snapshot.time_remaining_seconds > 0,
        detector.bought_period() != Some(snapshot.period_timestamp),
        float::is_nearest(float::one_ticks(), 100, cent),
        float::is_nearest(6 * float::one_ticks(), 100, six_cents),
        ({
            let higher = if up {
                snapshot.eth_market.up_token->0
            } else {
                snapshot.eth_market.down_token->0
            };
            let lower = if up {
                snapshot.eth_market.down_token->0
            } else {
                snapshot.eth_market.up_token->0
            };
            let other = if up {
                snapshot.btc_market.up_token->0
            } else {
                snapshot.btc_market.down_token->0
            };
            &&& price_ticks(higher) > price_ticks(lower)
            &&& price_ticks(higher) >= detector.trigger().ticks()
            &&& price_ticks(higher) - price_ticks(other) >= cent.ticks()
            &&& snapshot.time_remaining_seconds > detector.min_time() || price_ticks(higher)
                - price_ticks(other) >= six_cents.ticks()
        }),
    ensures
        detector.buys(snapshot),
{
    leads_are_in_cents();
    let least = Float64 { bits: MIN_DIFFERENCE };
    let timeless = Float64 { bits: TIMELESS_DIFFERENCE };
    rounding::nearest_is_unique(float::one_ticks(), 100, cent, least);
    rounding::nearest_is_unique(6 * float::one_ticks(), 100, six_cents, timeless);
    let exact = price_ticks(higher_token(snapshot)) - price_ticks(corresponding_token(snapshot));
    let r = rounding::nearest_exists(exact, 1);
    rounding::nearest_is_rounded(exact, 1, r);
    rounding::nearest_is_monotone(exact, 1, r, least);
    rounding::nearest_is_monotone(exact, 1, r, timeless);
}

/// With more time left a purchase is still made, and with a lower trigger price too.
pub proof fn purchases_stay_with_more_time(
    detector: PriceDetector,
    patient: PriceDetector,
    snapshot: MarketSnapshot,
    earlier: MarketSnapshot,
)
    requires
        detector.buys(snapshot),
        earlier.eth_market == snapshot.eth_market,
        earlier.btc_market == snapshot.btc_market,
        earlier.period_timestamp == snapshot.period_timestamp,
        earlier.time_remaining_seconds >= snapshot.time_remaining_seconds,
        patient.bought_period() == detector.bought_period(),
        patient.min_time() <= detector.min_time(),
        patient.trigger() == detector.trigger() || (patient.trigger().is_number()
            && detector.trigger().is_number() && patient.trigger().ticks()
            <= detector.trigger().ticks()),
    ensures
        patient.buys(earlier),
{
}

/// A small lead, of less than six cents, is not bought without enough time, no lead is bought after
/// the end, and none below the trigger price.
pub proof fn small_leads_need_time(
    detector: PriceDetector,
    snapshot: MarketSnapshot,
    buy: BuyOpportunity,
    six_cents: Float64,
)
    requires
        detector.buys(snapshot),
        is_opportunity(snapshot, buy),
        float::is_nearest(6 * float::one_ticks(), 100, six_cents),
    ensures
        buy.difference_d.lt(six_cents) ==> buy.time_remaining_seconds > detector.min_time(),
        buy.time_remaining_seconds > 0,
        detector.bought_period() != Some(buy.period_timestamp),
{
    leads_are_in_cents();
    let timeless = Float64 { bits: TIMELESS_DIFFERENCE };
    rounding::same_value_same_order(
        6 * float::one_ticks(),
        100,
        six_cents,
        timeless,
        buy.difference_d,
    );
    rounding::order_is_of_values(buy.difference_d, timeless);
}

} // verus!
