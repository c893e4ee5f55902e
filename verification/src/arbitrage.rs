//! Buying opposite tokens of the two markets together for less than the 1.0 that one of them pays.
use crate::decimal::{self, Decimal};
use crate::models::{ArbitrageOpportunity, ArbitrageStrategy, TokenPrice};
use crate::monitor::MarketSnapshot;
use vstd::prelude::*;
use vstd::string::*;

verus! {

/// Watches two markets for pairs of opposite tokens that are cheap together.
#[derive(Clone, Debug)]
pub struct ArbitrageDetector {
    min_profit_threshold: Decimal,
    min_time_remaining_to_trade_seconds: u64,
    danger_signal_time_threshold_seconds: u64,
    danger_signal_min_token_price: Decimal,
    danger_period: u64,
    danger_triggered: bool,
}

/// What a pair of tokens costs together, in units.
pub open spec fn cost_units(first: TokenPrice, second: TokenPrice) -> int {
    decimal::rounded_units(
        first.ask_units() + second.ask_units(),
        vstd::math::max(first.ask_scale(), second.ask_scale()),
    )
}

/// How many fractional digits that cost has.
pub open spec fn cost_scale(first: TokenPrice, second: TokenPrice) -> int {
    decimal::result_scale(
        first.ask_units(),
        first.ask_scale(),
        second.ask_units(),
        second.ask_scale(),
        first.ask_units() + second.ask_units(),
    )
}

/// What is left of 1.0 after paying for a pair of tokens, in units.
pub open spec fn profit_units(first: TokenPrice, second: TokenPrice) -> int {
    decimal::rounded_units(
        decimal::one_units() - cost_units(first, second),
        vstd::math::max(1, cost_scale(first, second)),
    )
}

/// How many fractional digits that rest has.
pub open spec fn profit_scale(first: TokenPrice, second: TokenPrice) -> int {
    decimal::result_scale(
        decimal::one_units(),
        1,
        cost_units(first, second),
        cost_scale(first, second),
        decimal::one_units() - cost_units(first, second),
    )
}

/// Whether the asks of two tokens can be added.
pub open spec fn can_add(first: Option<TokenPrice>, second: Option<TokenPrice>) -> bool {
    first is Some && second is Some ==> decimal::result_fits(
        first->0.ask_units() + second->0.ask_units(),
    )
}

impl ArbitrageDetector {
    /// The least profit to buy for, in units.
    pub closed spec fn min_profit_units(self) -> int {
        self.min_profit_threshold.units()
    }

    /// The most seconds that may be left of the period.
    pub closed spec fn max_time_remaining(self) -> u64 {
        self.min_time_remaining_to_trade_seconds
    }

    /// With fewer seconds left than this, two cheap tokens are a danger signal.
    pub closed spec fn danger_time(self) -> u64 {
        self.danger_signal_time_threshold_seconds
    }

    /// Up to this price, in units, a token counts as cheap for the danger signal.
    pub closed spec fn danger_price_units(self) -> int {
        self.danger_signal_min_token_price.units()
    }

    /// The period of the last danger signal or reset, and whether there was a signal in it.
    pub closed spec fn danger_state(self) -> (u64, bool) {
        (self.danger_period, self.danger_triggered)
    }

    /// Whether two detectors are set up the same way.
    pub open spec fn same_settings(self, other: ArbitrageDetector) -> bool {
        &&& self.min_profit_units() == other.min_profit_units()
        &&& self.max_time_remaining() == other.max_time_remaining()
        &&& self.danger_time() == other.danger_time()
        &&& self.danger_price_units() == other.danger_price_units()
    }

    /// Whether there was a danger signal in the given period.
    pub open spec fn blocked_in(self, period: u64) -> bool {
        self.danger_state() == (period, true)
    }

    /// Whether a pair of tokens is a danger signal: little time is left and both are cheap.
    pub open spec fn is_danger(
        self,
        first: TokenPrice,
        second: TokenPrice,
        time_remaining: u64,
    ) -> bool {
        &&& time_remaining < self.danger_time()
        &&& first.ask_units() <= self.danger_price_units()
        &&& second.ask_units() <= self.danger_price_units()
    }

    /// Whether a pair of tokens is worth buying: it is no danger signal, the dearer one costs at
    /// least 0.65, both cost less than 1.0 together, and what is left is profit enough.
    pub open spec fn worth_buying(
        self,
        first: TokenPrice,
        second: TokenPrice,
        time_remaining: u64,
    ) -> bool {
        &&& !self.is_danger(first, second, time_remaining)
        &&& first.ask_units() >= 65 * decimal::step_units(2) || second.ask_units() >= 65
            * decimal::step_units(2)
        &&& cost_units(first, second) < decimal::one_units()
        &&& profit_units(first, second) >= self.min_profit_units()
    }

    /// Whether trading is open at all: there was no danger signal in the period and little enough
    /// of it is left.
    pub open spec fn is_open(self, snapshot: MarketSnapshot) -> bool {
        !self.blocked_in(snapshot.period_timestamp) && snapshot.time_remaining_seconds
            <= self.max_time_remaining()
    }

    /// A detector that has seen no danger signal. A threshold that is no decimal number is replaced
    /// by its default: 0.01 for the profit, 0.45 for the danger signal.
    pub fn new(
        min_profit_threshold: Option<Decimal>,
        min_time_remaining_to_trade_seconds: u64,
        danger_signal_time_threshold_seconds: u64,
        danger_signal_min_token_price: Option<Decimal>,
    ) -> (detector: ArbitrageDetector)
        ensures
            detector.min_profit_units() == match min_profit_threshold {
                Some(threshold) => threshold.units(),
                None => decimal::step_units(2),
            },
            detector.max_time_remaining() == min_time_remaining_to_trade_seconds,
            detector.danger_time() == danger_signal_time_threshold_seconds,
            detector.danger_price_units() == match danger_signal_min_token_price {
                Some(price) => price.units(),
                None => 45 * decimal::step_units(2),
            },
            detector.danger_state() == (0u64, false),
    {
        ArbitrageDetector {
            min_profit_threshold: match min_profit_threshold {
                Some(threshold) => threshold,
                None => Decimal::of(1, 2),
            },
            min_time_remaining_to_trade_seconds,
            danger_signal_time_threshold_seconds,
            danger_signal_min_token_price: match danger_signal_min_token_price {
                Some(price) => price,
                None => Decimal::of(45, 2),
            },
            danger_period: 0,
            danger_triggered: false,
        }
    }

    /// Forgets any danger signal and turns to a new period.
    pub fn reset_period(&mut self, new_period_timestamp: u64)
        ensures
            final(self).danger_state() == (new_period_timestamp, false),
            final(self).same_settings(*old(self)),
    {
        self.danger_period = new_period_timestamp;
        self.danger_triggered = false;
    }

    fn is_danger_signal_triggered(&self, current_period_timestamp: u64) -> (triggered: bool)
        ensures
            triggered == self.blocked_in(current_period_timestamp),
    {
        self.danger_period == current_period_timestamp && self.danger_triggered
    }

    fn trigger_danger_signal(&mut self, current_period_timestamp: u64)
        ensures
            final(self).danger_state() == (current_period_timestamp, true),
            final(self).same_settings(*old(self)),
    {
        if self.danger_period != current_period_timestamp {
            self.danger_period = current_period_timestamp;
        }
        self.danger_triggered = true;
    }

    /// Judges one pair of tokens. A danger signal is remembered for the rest of the period.
    fn check_arbitrage(
        &mut self,
        token1: &TokenPrice,
        token2: &TokenPrice,
        condition1: &str,
        condition2: &str,
        strategy: ArbitrageStrategy,
        time_remaining_seconds: u64,
        period_timestamp: u64,
    ) -> (opportunity: Option<ArbitrageOpportunity>)
        requires
            decimal::result_fits(token1.ask_units() + token2.ask_units()),
        ensures
            final(self).same_settings(*old(self)),
            final(self).danger_state() == if old(self).is_danger(
                *token1,
                *token2,
                time_remaining_seconds,
            ) {
                (period_timestamp, true)
            } else {
                old(self).danger_state()
            },
            opportunity is Some <==> old(self).worth_buying(
                *token1,
                *token2,
                time_remaining_seconds,
            ),
            opportunity matches Some(found) ==> is_opportunity(
                *token1,
                *token2,
                condition1@,
                condition2@,
                strategy,
                found,
            ),
    {
        let price1 = token1.ask_price();
        let price2 = token2.ask_price();
        let total_cost = price1.plus(price2);
        let dollar = Decimal::one();
        let min_price_threshold = Decimal::of(6, 1);
        let min_higher_token_price = Decimal::of(65, 2);

        if time_remaining_seconds < self.danger_signal_time_threshold_seconds {
            if self.danger_signal_min_token_price.at_least(price1)
                && self.danger_signal_min_token_price.at_least(price2) {
                self.trigger_danger_signal(period_timestamp);
                return None;
            }
        }
        proof {
            decimal::lemma_step(1);
            decimal::lemma_step(2);
        }
        if price1.less(min_price_threshold) && price2.less(min_price_threshold) {
            return None;
        }
        let higher_price = price1.max(price2);
        if higher_price.less(min_higher_token_price) {
            return None;
        }
        if total_cost.less(dollar) {
            proof {
                lemma_cost_leaves_room(price1, price2);
            }
            let expected_profit = dollar.minus(total_cost);
            if expected_profit.at_least(self.min_profit_threshold) {
                return Some(
                    ArbitrageOpportunity {
                        strategy,
                        eth_token_price: price1,
                        btc_token_price: price2,
                        total_cost,
                        expected_profit,
                        eth_token_id: token1.token_id.clone(),
                        btc_token_id: token2.token_id.clone(),
                        eth_condition_id: condition1.to_owned(),
                        btc_condition_id: condition2.to_owned(),
                    },
                );
            }
        }
        None
    }

    /// The pairs that a snapshot offers and that are worth buying: ETH Up with BTC Down first, then
    /// ETH Down with BTC Up.
    pub fn detect_opportunities(&mut self, snapshot: &MarketSnapshot) -> (opportunities: Vec<
        ArbitrageOpportunity,
    >)
        requires
            old(self).is_open(*snapshot) ==> {
                &&& can_add(snapshot.eth_market.up_token, snapshot.btc_market.down_token)
                &&& can_add(snapshot.eth_market.down_token, snapshot.btc_market.up_token)
            },
        ensures
            final(self).same_settings(*old(self)),
            final(self).danger_state() == old(self).danger_after(*snapshot),
            opportunities@.len() == (if old(self).finds(
                *snapshot,
                ArbitrageStrategy::EthUpBtcDown,
            ) {
                1int
            } else {
                0
            }) + (if old(self).finds(*snapshot, ArbitrageStrategy::EthDownBtcUp) {
                1int
            } else {
                0
            }),
            old(self).finds(*snapshot, ArbitrageStrategy::EthUpBtcDown) ==> is_opportunity_in(
                *snapshot,
                ArbitrageStrategy::EthUpBtcDown,
                opportunities@[0],
            ),
            old(self).finds(*snapshot, ArbitrageStrategy::EthDownBtcUp) ==> is_opportunity_in(
                *snapshot,
                ArbitrageStrategy::EthDownBtcUp,
                opportunities@.last(),
            ),
    {
        let mut opportunities: Vec<ArbitrageOpportunity> = Vec::new();
        if self.is_danger_signal_triggered(snapshot.period_timestamp) {
            return opportunities;
        }
        if snapshot.time_remaining_seconds > self.min_time_remaining_to_trade_seconds {
            return opportunities;
        }
        if let (Some(eth_up), Some(btc_down)) = (
            &snapshot.eth_market.up_token,
            &snapshot.btc_market.down_token,
        ) {
            let found = self.check_arbitrage(
                eth_up,
                btc_down,
                snapshot.eth_market.condition_id.as_str(),
                snapshot.btc_market.condition_id.as_str(),
                ArbitrageStrategy::EthUpBtcDown,
                snapshot.time_remaining_seconds,
                snapshot.period_timestamp,
            );
            if let Some(opportunity) = found {
                opportunities.push(opportunity);
            }
        }
        if let (Some(eth_down), Some(btc_up)) = (
            &snapshot.eth_market.down_token,
            &snapshot.btc_market.up_token,
        ) {
            let found = self.check_arbitrage(
                eth_down,
                btc_up,
                snapshot.eth_market.condition_id.as_str(),
                snapshot.btc_market.condition_id.as_str(),
                ArbitrageStrategy::EthDownBtcUp,
                snapshot.time_remaining_seconds,
                snapshot.period_timestamp,
            );
            if let Some(opportunity) = found {
                opportunities.push(opportunity);
            }
        }
        opportunities
    }

    /// Whether a snapshot offers the pair of a strategy and it is worth buying now.
    pub open spec fn finds(self, snapshot: MarketSnapshot, strategy: ArbitrageStrategy) -> bool {
        let (first, second) = pair(snapshot, strategy);
        &&& self.is_open(snapshot)
        &&& first is Some
        &&& second is Some
        &&& self.worth_buying(first->0, second->0, snapshot.time_remaining_seconds)
    }

    /// Whether a snapshot offers the pair of a strategy and it is a danger signal.
    pub open spec fn signals_danger(
        self,
        snapshot: MarketSnapshot,
        strategy: ArbitrageStrategy,
    ) -> bool {
        let (first, second) = pair(snapshot, strategy);
        &&& self.is_open(snapshot)
        &&& first is Some
        &&& second is Some
        &&& self.is_danger(first->0, second->0, snapshot.time_remaining_seconds)
    }

    /// The state of the danger signal after a snapshot.
    pub open spec fn danger_after(self, snapshot: MarketSnapshot) -> (u64, bool) {
        if self.signals_danger(snapshot, ArbitrageStrategy::EthUpBtcDown) || self.signals_danger(
            snapshot,
            ArbitrageStrategy::EthDownBtcUp,
        ) {
            (snapshot.period_timestamp, true)
        } else {
            self.danger_state()
        }
    }
}

/// The two tokens that a strategy buys.
pub open spec fn pair(snapshot: MarketSnapshot, strategy: ArbitrageStrategy) -> (
    Option<TokenPrice>,
    Option<TokenPrice>,
) {
    match strategy {
        ArbitrageStrategy::EthUpBtcDown => (
            snapshot.eth_market.up_token,
            snapshot.btc_market.down_token,
        ),
        ArbitrageStrategy::EthDownBtcUp => (
            snapshot.eth_market.down_token,
            snapshot.btc_market.up_token,
        ),
    }
}

/// That an opportunity describes buying the two tokens in the two markets.
pub open spec fn is_opportunity(
    first: TokenPrice,
    second: TokenPrice,
    eth_condition: Seq<char>,
    btc_condition: Seq<char>,
    strategy: ArbitrageStrategy,
    found: ArbitrageOpportunity,
) -> bool {
    &&& found.strategy == strategy
    &&& found.eth_token_price.units() == first.ask_units()
    &&& found.eth_token_price.s() == first.ask_scale()
    &&& found.btc_token_price.units() == second.ask_units()
    &&& found.btc_token_price.s() == second.ask_scale()
    &&& found.total_cost.units() == cost_units(first, second)
    &&& found.total_cost.s() == cost_scale(first, second)
    &&& found.expected_profit.units() == profit_units(first, second)
    &&& found.expected_profit.s() == profit_scale(first, second)
    &&& found.eth_token_id@ == first.token_id@
    &&& found.btc_token_id@ == second.token_id@
    &&& found.eth_condition_id@ == eth_condition
    &&& found.btc_condition_id@ == btc_condition
}

/// That an opportunity describes buying the pair of a strategy as a snapshot offers it.
pub open spec fn is_opportunity_in(
    snapshot: MarketSnapshot,
    strategy: ArbitrageStrategy,
    found: ArbitrageOpportunity,
) -> bool {
    let (first, second) = pair(snapshot, strategy);
    is_opportunity(
        first->0,
        second->0,
        snapshot.eth_market.condition_id@,
        snapshot.btc_market.condition_id@,
        strategy,
        found,
    )
}

/// With one of two prices at 0.65 or more and a cost below one, the profit can be computed.
proof fn lemma_cost_leaves_room(a: Decimal, b: Decimal)
    requires
        a.valid(),
        b.valid(),
        a.units() >= 65 * decimal::step_units(2) || b.units() >= 65 * decimal::step_units(2),
        decimal::rounded_units(a.units() + b.units(), vstd::math::max(a.s(), b.s()))
            < decimal::one_units(),
    ensures
        decimal::result_fits(
            decimal::one_units() - decimal::rounded_units(
                a.units() + b.units(),
                vstd::math::max(a.s(), b.s()),
            ),
        ),
{
    decimal::lemma_step(1);
    decimal::lemma_step(2);
    decimal::lemma_units_bound(a);
    decimal::lemma_units_bound(b);
    let one = decimal::one_units();
    let limit = decimal::MANTISSA_LIMIT as int;
    assert((limit - 1) * one == limit * one - one) by (nonlinear_arith);
    assert(-(20 * limit - 33) * one == -20 * (limit * one) + 33 * one) by (nonlinear_arith);
    decimal::lemma_rest_of_one_fits(a.units() + b.units(), vstd::math::max(a.s(), b.s()));
}

/// A danger signal blocks the rest of its period: the detector that comes out of it is blocked.
pub proof fn danger_blocks_the_period(
    before: ArbitrageDetector,
    snapshot: MarketSnapshot,
    strategy: ArbitrageStrategy,
    after: ArbitrageDetector,
)
    requires
        before.signals_danger(snapshot, strategy),
        after.danger_state() == before.danger_after(snapshot),
    ensures
        after.blocked_in(snapshot.period_timestamp),
{
}

/// A detector that is blocked in a period finds nothing in any snapshot of that period, and stays
/// blocked in it.
pub proof fn block_lasts(
    before: ArbitrageDetector,
    snapshot: MarketSnapshot,
    strategy: ArbitrageStrategy,
    after: ArbitrageDetector,
)
    requires
        before.blocked_in(snapshot.period_timestamp),
        after.danger_state() == before.danger_after(snapshot),
    ensures
        !before.finds(snapshot, strategy),
        after.blocked_in(snapshot.period_timestamp),
{
}

/// Of a pair that is worth buying at prices that are not negative, the cost and the profit are
/// exact: the two prices make the cost, and the cost and the profit make one. The profit is what it
/// has to be, and there is one.
pub proof fn pair_pays(
    detector: ArbitrageDetector,
    first: TokenPrice,
    second: TokenPrice,
    time_remaining: u64,
)
    requires
        detector.worth_buying(first, second, time_remaining),
        first.ask is Some ==> first.ask->0.valid() && first.ask_units() >= 0,
        second.ask is Some ==> second.ask->0.valid() && second.ask_units() >= 0,
    ensures
        cost_units(first, second) == first.ask_units() + second.ask_units(),
        profit_units(first, second) == decimal::one_units() - first.ask_units()
            - second.ask_units(),
        profit_units(first, second) >= detector.min_profit_units(),
        profit_units(first, second) > 0,
{
    let cost = first.ask_units() + second.ask_units();
    let scale = vstd::math::max(first.ask_scale(), second.ask_scale());
    decimal::lemma_step(2);
    decimal::lemma_step(0);
    match (first.ask, second.ask) {
        (Some(a), Some(b)) => {
            decimal::sums_below_one_are_exact(a, b);
            decimal::numbers_are_whole_steps(a, scale);
            decimal::numbers_are_whole_steps(b, scale);
        },
        (Some(a), None) => {
            lemma_alone(a, scale);
        },
        (None, Some(b)) => {
            lemma_alone(b, scale);
        },
        (None, None) => {},
    }
    lemma_profit_is_exact(first, second);
}

/// A price alone is its own cost.
proof fn lemma_alone(price: Decimal, scale: int)
    requires
        price.valid(),
        price.units() >= 0,
        scale == price.s(),
        decimal::rounded_units(price.units(), scale) < decimal::one_units(),
    ensures
        decimal::rounded_units(price.units(), scale) == price.units(),
        price.units() % decimal::step_units(scale) == 0,
{
    decimal::exact_as_it_is(price);
}

/// What is left of one is exact for a cost that is.
proof fn lemma_profit_is_exact(first: TokenPrice, second: TokenPrice)
    requires
        first.ask is Some ==> first.ask->0.valid() && first.ask_units() >= 0,
        second.ask is Some ==> second.ask->0.valid() && second.ask_units() >= 0,
        cost_units(first, second) == first.ask_units() + second.ask_units(),
        cost_units(first, second) < decimal::one_units(),
    ensures
        profit_units(first, second) == decimal::one_units() - cost_units(first, second),
{
    let cost = first.ask_units() + second.ask_units();
    let scale = cost_scale(first, second);
    let wide = vstd::math::max(first.ask_scale(), second.ask_scale());
    match (first.ask, second.ask) {
        (Some(a), Some(b)) => {
            decimal::sums_below_one_are_exact(a, b);
            decimal::whole_steps_of_sum(a, b);
            decimal::exact_as_it_is(a);
            decimal::exact_as_it_is(b);
        },
        (Some(a), None) => {
            decimal::exact_as_it_is(a);
        },
        (None, Some(b)) => {
            decimal::exact_as_it_is(b);
        },
        (None, None) => {
            decimal::lemma_step(0);
        },
    }
    decimal::rest_of_one_is_exact(cost, scale);
}

/// Which of two tokens is the ETH one does not matter to what they cost together, to whether they
/// are worth buying, and to whether they are a danger signal.
pub proof fn tokens_of_a_pair_are_alike(
    detector: ArbitrageDetector,
    first: TokenPrice,
    second: TokenPrice,
    time_remaining: u64,
)
    ensures
        cost_units(first, second) == cost_units(second, first),
        detector.is_danger(first, second, time_remaining) == detector.is_danger(
            second,
            first,
            time_remaining,
        ),
        detector.worth_buying(first, second, time_remaining) == detector.worth_buying(
            second,
            first,
            time_remaining,
        ),
{
    decimal::lemma_step(2);
}

/// Every cheap pair is found: one whose dearer token costs at least 0.65, that costs less than one,
/// leaves the least profit, and is no danger signal since there is time or one of the tokens is not
/// cheap.
pub proof fn every_cheap_pair_is_bought(
    detector: ArbitrageDetector,
    first: TokenPrice,
    second: TokenPrice,
    a: Decimal,
    b: Decimal,
    time_remaining: u64,
)
    requires
        first.ask == Some(a),
        second.ask == Some(b),
        a.valid(),
        b.valid(),
        a.units() >= 0,
        b.units() >= 0,
        100 * a.units() >= 65 * decimal::one_units() || 100 * b.units() >= 65
            * decimal::one_units(),
        a.units() + b.units() < decimal::one_units(),
        a.units() + b.units() + detector.min_profit_units() <= decimal::one_units(),
        time_remaining >= detector.danger_time() || a.units() > detector.danger_price_units()
            || b.units() > detector.danger_price_units(),
    ensures
        detector.worth_buying(first, second, time_remaining),
{
    let scale = vstd::math::max(a.s(), b.s());
    decimal::lemma_step(1);
    decimal::lemma_step(2);
    decimal::whole_steps_of_sum(a, b);
    decimal::small_results_are_exact(a.units() + b.units(), scale);
    lemma_profit_is_exact(first, second);
}

/// A pair that is bought costs what its tokens do, and with the profit that makes one. The profit is
/// the least one or more, the dearer token costs at least 0.65, and the two tokens are opposite ones
/// of the two markets, each bought in its own market and at its own price.
pub proof fn found_pair_pays(
    detector: ArbitrageDetector,
    snapshot: MarketSnapshot,
    strategy: ArbitrageStrategy,
    found: ArbitrageOpportunity,
    eth: TokenPrice,
    btc: TokenPrice,
)
    requires
        detector.finds(snapshot, strategy),
        is_opportunity_in(snapshot, strategy, found),
        match strategy {
            ArbitrageStrategy::EthUpBtcDown => snapshot.eth_market.up_token == Some(eth)
                && snapshot.btc_market.down_token == Some(btc),
            ArbitrageStrategy::EthDownBtcUp => snapshot.eth_market.down_token == Some(eth)
                && snapshot.btc_market.up_token == Some(btc),
        },
        eth.ask is Some,
        eth.ask->0.valid(),
        eth.ask->0.units() >= 0,
        btc.ask is Some,
        btc.ask->0.valid(),
        btc.ask->0.units() >= 0,
    ensures
        found.strategy == strategy,
        found.eth_token_id@ == eth.token_id@,
        found.btc_token_id@ == btc.token_id@,
        found.eth_condition_id@ == snapshot.eth_market.condition_id@,
        found.btc_condition_id@ == snapshot.btc_market.condition_id@,
        found.eth_token_price.units() == eth.ask->0.units(),
        found.btc_token_price.units() == btc.ask->0.units(),
        found.total_cost.units() == eth.ask->0.units() + btc.ask->0.units(),
        found.total_cost.units() + found.expected_profit.units() == decimal::one_units(),
        found.expected_profit.units() > 0,
        found.expected_profit.units() >= detector.min_profit_units(),
        100 * eth.ask->0.units() >= 65 * decimal::one_units() || 100 * btc.ask->0.units() >= 65
            * decimal::one_units(),
        snapshot.time_remaining_seconds <= detector.max_time_remaining(),
        snapshot.time_remaining_seconds >= detector.danger_time() || eth.ask->0.units()
            > detector.danger_price_units() || btc.ask->0.units() > detector.danger_price_units(),
        detector.danger_state() != (snapshot.period_timestamp, true),
{
    decimal::lemma_step(1);
    decimal::lemma_step(2);
    pair_pays(detector, eth, btc, snapshot.time_remaining_seconds);
}

/// In an open period, with little enough time left, whatever pair of opposite tokens is worth buying
/// is found; a missing token leaves only its own pair out.
pub proof fn worthy_pairs_are_found(
    detector: ArbitrageDetector,
    snapshot: MarketSnapshot,
    eth: TokenPrice,
    btc: TokenPrice,
)
    requires
        snapshot.time_remaining_seconds <= detector.max_time_remaining(),
        detector.danger_state() != (snapshot.period_timestamp, true),
        detector.worth_buying(eth, btc, snapshot.time_remaining_seconds),
    ensures
        snapshot.eth_market.up_token == Some(eth) && snapshot.btc_market.down_token == Some(btc)
            ==> detector.finds(snapshot, ArbitrageStrategy::EthUpBtcDown),
        snapshot.eth_market.down_token == Some(eth) && snapshot.btc_market.up_token == Some(btc)
            ==> detector.finds(snapshot, ArbitrageStrategy::EthDownBtcUp),
{
}

/// The two strategies are treated alike: with up and down exchanged in both markets, each finds what
/// the other one did, and the danger signal is the same. With the two markets exchanged it is so
/// too.
pub proof fn strategies_are_alike(
    detector: ArbitrageDetector,
    a: MarketSnapshot,
    b: MarketSnapshot,
)
    requires
        b.period_timestamp == a.period_timestamp,
        b.time_remaining_seconds == a.time_remaining_seconds,
        ({
            &&& b.eth_market.up_token == a.eth_market.down_token
            &&& b.eth_market.down_token == a.eth_market.up_token
            &&& b.btc_market.up_token == a.btc_market.down_token
            &&& b.btc_market.down_token == a.btc_market.up_token
        }) || (b.eth_market == a.btc_market && b.btc_market == a.eth_market),
    ensures
        detector.finds(a, ArbitrageStrategy::EthUpBtcDown) == detector.finds(
            b,
            ArbitrageStrategy::EthDownBtcUp,
        ),
        detector.finds(a, ArbitrageStrategy::EthDownBtcUp) == detector.finds(
            b,
            ArbitrageStrategy::EthUpBtcDown,
        ),
        detector.danger_after(a) == detector.danger_after(b),
{
    let time = a.time_remaining_seconds;
    tokens_of_a_pair_are_alike(
        detector,
        a.eth_market.up_token->0,
        a.btc_market.down_token->0,
        time,
    );
    tokens_of_a_pair_are_alike(
        detector,
        a.eth_market.down_token->0,
        a.btc_market.up_token->0,
        time,
    );
}

/// Two opposite tokens that are both cheap late in a period block it, and nothing else does: where
/// there is time, or one token of each pair that is offered is not cheap, the danger state stays.
pub proof fn late_cheap_pairs_are_danger(
    detector: ArbitrageDetector,
    snapshot: MarketSnapshot,
    eth: TokenPrice,
    btc: TokenPrice,
)
    requires
        (snapshot.eth_market.up_token == Some(eth) && snapshot.btc_market.down_token == Some(btc))
            || (snapshot.eth_market.down_token == Some(eth) && snapshot.btc_market.up_token
            == Some(btc)),
        snapshot.time_remaining_seconds <= detector.max_time_remaining(),
    ensures
        snapshot.time_remaining_seconds < detector.danger_time() && eth.ask_units()
            <= detector.danger_price_units() && btc.ask_units() <= detector.danger_price_units()
            ==> detector.danger_after(snapshot) == (snapshot.period_timestamp, true),
        snapshot.time_remaining_seconds >= detector.danger_time() ==> detector.danger_after(
            snapshot,
        ) == detector.danger_state(),
        detector.danger_after(snapshot) != detector.danger_state() ==> exists|cheap: TokenPrice|
            (snapshot.eth_market.up_token == Some(cheap) || snapshot.eth_market.down_token == Some(
                cheap,
            )) && #[trigger] cheap.ask_units() <= detector.danger_price_units(),
        detector.danger_after(snapshot) != detector.danger_state() ==> exists|cheap: TokenPrice|
            (snapshot.btc_market.up_token == Some(cheap) || snapshot.btc_market.down_token == Some(
                cheap,
            )) && #[trigger] cheap.ask_units() <= detector.danger_price_units(),
{
    let eth_up = snapshot.eth_market.up_token->0;
    let eth_down = snapshot.eth_market.down_token->0;
    let btc_up = snapshot.btc_market.up_token->0;
    let btc_down = snapshot.btc_market.down_token->0;
    if detector.signals_danger(snapshot, ArbitrageStrategy::EthUpBtcDown) {
        assert(eth_up.ask_units() <= detector.danger_price_units());
        assert(btc_down.ask_units() <= detector.danger_price_units());
    }
    if detector.signals_danger(snapshot, ArbitrageStrategy::EthDownBtcUp) {
        assert(eth_down.ask_units() <= detector.danger_price_units());
        assert(btc_up.ask_units() <= detector.danger_price_units());
    }
}

/// A cheaper pair is as good as a dearer one that is bought, as long as its dearer token costs 0.65
/// and it is no danger signal; and who asks for less profit buys it as well.
pub proof fn cheaper_pairs_are_bought(
    detector: ArbitrageDetector,
    modest: ArbitrageDetector,
    first: TokenPrice,
    second: TokenPrice,
    cheaper: TokenPrice,
    time_remaining: u64,
)
    requires
        detector.worth_buying(first, second, time_remaining),
        modest.min_profit_units() <= detector.min_profit_units(),
        modest.danger_time() == detector.danger_time(),
        modest.danger_price_units() == detector.danger_price_units(),
        first.ask is Some && first.ask->0.valid() && first.ask->0.units() >= 0,
        second.ask is Some && second.ask->0.valid() && second.ask->0.units() >= 0,
        cheaper.ask is Some && cheaper.ask->0.valid() && 0 <= cheaper.ask->0.units()
            <= second.ask->0.units(),
        100 * first.ask->0.units() >= 65 * decimal::one_units(),
        time_remaining >= detector.danger_time() || first.ask->0.units()
            > detector.danger_price_units(),
    ensures
        modest.worth_buying(first, cheaper, time_remaining),
{
    pair_pays(detector, first, second, time_remaining);
    every_cheap_pair_is_bought(
        modest,
        first,
        cheaper,
        first.ask->0,
        cheaper.ask->0,
        time_remaining,
    );
}

} // verus!
