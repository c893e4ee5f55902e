//! Same-trend trading: buy the higher token once both markets have agreed on a direction for a
//! number of observations.
use crate::decimal::{self, Decimal};
use crate::models::{MarketData, TokenPrice, TrendOpportunity, TrendStrategy};
use crate::monitor::MarketSnapshot;
use std::collections::VecDeque;
use vstd::prelude::*;

verus! {

/// One observation of the duration analysis.
#[derive(Clone, Copy, Debug)]
pub struct DataPoint {
    pub eth_higher_price: Decimal,
    pub btc_higher_price: Decimal,
    /// When it was made, in nanoseconds on the monotonic clock.
    pub timestamp: u64,
}

/// Watches two markets for a common trend.
#[derive(Debug)]
pub struct TrendDetector {
    trend_detection_threshold: Decimal,
    duration_analysis_seconds: u64,
    min_passed_data_points: u64,
    min_profit_threshold: Decimal,
    period_timestamp: u64,
    data_points: VecDeque<DataPoint>,
    analysis_active: bool,
    collection_started_at: Option<u64>,
}

/// Whether both tokens of a market have prices.
pub open spec fn quoted(market: MarketData) -> bool {
    market.up_token is Some && market.down_token is Some
}

/// Whether a market's Up token costs more than its Down token.
pub open spec fn up_leads(market: MarketData) -> bool {
    market.up_token->0.ask_units() > market.down_token->0.ask_units()
}

/// The token of a market that costs more, the Down token where both cost the same.
pub open spec fn leader(market: MarketData) -> TokenPrice {
    if up_leads(market) {
        market.up_token->0
    } else {
        market.down_token->0
    }
}

/// Whether both markets are quoted and lean the same way.
pub open spec fn same_trend(snapshot: MarketSnapshot) -> bool {
    &&& quoted(snapshot.eth_market)
    &&& quoted(snapshot.btc_market)
    &&& up_leads(snapshot.eth_market) == up_leads(snapshot.btc_market)
}

/// What is gained, in units, on a token bought at its ask if it wins and pays 1.0.
pub open spec fn profit_units(token: TokenPrice) -> int {
    decimal::rounded_units(
        decimal::one_units() - token.ask_units(),
        vstd::math::max(1, token.ask_scale()),
    )
}

impl TrendDetector {
    /// The price that both leading tokens have to reach, in units.
    pub closed spec fn threshold_units(self) -> int {
        self.trend_detection_threshold.units()
    }

    /// The profit that both leading tokens have to promise, in units.
    pub closed spec fn min_profit_units(self) -> int {
        self.min_profit_threshold.units()
    }

    /// How many observations an analysis takes.
    pub closed spec fn target(self) -> nat {
        (self.duration_analysis_seconds as usize) as nat
    }

    /// How many observations have to pass.
    pub closed spec fn required(self) -> nat {
        (self.min_passed_data_points as usize) as nat
    }

    /// The period that the current analysis belongs to.
    pub closed spec fn period(self) -> u64 {
        self.period_timestamp
    }

    /// The observations made so far.
    pub closed spec fn points(self) -> Seq<DataPoint> {
        self.data_points@
    }

    /// When the current analysis was begun, if one is under way.
    pub closed spec fn started(self) -> Option<u64> {
        self.collection_started_at
    }

    /// That the observations all passed and are fewer than an analysis takes, and that there are
    /// none while no analysis is under way.
    pub closed spec fn well_formed(self) -> bool {
        &&& self.analysis_active == (self.collection_started_at is Some)
        &&& !self.analysis_active ==> self.data_points@.len() == 0
        &&& self.data_points@.len() == 0 || self.data_points@.len() < self.target()
        &&& forall|i: int|
            0 <= i < self.data_points@.len() ==> self.passed(#[trigger] self.data_points@[i])
    }

    /// Whether an observation passes: both prices have reached the threshold.
    pub closed spec fn passed(self, point: DataPoint) -> bool {
        &&& point.eth_higher_price.units() >= self.threshold_units()
        &&& point.btc_higher_price.units() >= self.threshold_units()
    }

    /// Whether two detectors are set up the same way.
    pub open spec fn same_settings(self, other: TrendDetector) -> bool {
        &&& self.threshold_units() == other.threshold_units()
        &&& self.min_profit_units() == other.min_profit_units()
        &&& self.target() == other.target()
        &&& self.required() == other.required()
    }

    /// That no analysis is under way in the given period.
    pub open spec fn idle_in(self, period: u64) -> bool {
        self.period() == period && self.points() == Seq::<DataPoint>::empty() && self.started()
            is None
    }

    /// Whether a snapshot counts as an observation: the markets agree on a direction and both
    /// leading tokens have reached the threshold.
    pub open spec fn qualifies(self, snapshot: MarketSnapshot) -> bool {
        &&& same_trend(snapshot)
        &&& leader(snapshot.eth_market).ask_units() >= self.threshold_units()
        &&& leader(snapshot.btc_market).ask_units() >= self.threshold_units()
    }

    /// The observations that one made now joins: those of the same period.
    pub open spec fn points_before(self, snapshot: MarketSnapshot) -> Seq<DataPoint> {
        if self.period() == snapshot.period_timestamp {
            self.points()
        } else {
            Seq::empty()
        }
    }

    /// Whether a snapshot completes an analysis.
    pub open spec fn completes(self, snapshot: MarketSnapshot) -> bool {
        self.qualifies(snapshot) && self.points_before(snapshot).len() + 1 >= self.target()
    }

    /// Whether a snapshot completes an analysis with enough observations passed. All of them do,
    /// since only those that pass are collected.
    pub open spec fn confirms(self, snapshot: MarketSnapshot) -> bool {
        self.completes(snapshot) && self.target() >= self.required()
    }

    /// That this detector has come from `before` by collecting one observation, made at `now`.
    pub open spec fn records(
        self,
        before: TrendDetector,
        snapshot: MarketSnapshot,
        now: u64,
    ) -> bool {
        &&& self.period() == snapshot.period_timestamp
        &&& self.points().len() == before.points_before(snapshot).len() + 1
        &&& self.points().drop_last() == before.points_before(snapshot)
        &&& self.points().last().eth_higher_price.units() == leader(snapshot.eth_market).ask_units()
        &&& self.points().last().btc_higher_price.units() == leader(snapshot.btc_market).ask_units()
        &&& self.points().last().timestamp == now
        &&& self.started() == if before.period() == snapshot.period_timestamp && before.started()
            is Some {
            before.started()
        } else {
            Some(now)
        }
    }

    /// That this detector has come from `before` by a snapshot that was seen at `now`. One that shows
    /// no common trend changes nothing. One that qualifies is recorded, unless it completes the
    /// analysis; then, or where it does not qualify, no analysis is under way any more.
    pub open spec fn follows(
        self,
        before: TrendDetector,
        snapshot: MarketSnapshot,
        now: u64,
    ) -> bool {
        if !same_trend(snapshot) {
            self == before
        } else if before.qualifies(snapshot) && !before.completes(snapshot) {
            self.records(before, snapshot, now)
        } else {
            self.idle_in(snapshot.period_timestamp)
        }
    }

    /// Whether a snapshot is one to buy on.
    pub open spec fn buys_on(self, snapshot: MarketSnapshot) -> bool {
        &&& self.confirms(snapshot)
        &&& profit_units(leader(snapshot.eth_market)) >= self.min_profit_units()
        &&& profit_units(leader(snapshot.btc_market)) >= self.min_profit_units()
    }

    /// A detector with no analysis under way. A threshold that is no decimal number is replaced by
    /// its default: 0.7 for the price, 0.04 for the profit.
    pub fn new(
        trend_detection_threshold: Option<Decimal>,
        duration_analysis_seconds: u64,
        min_passed_data_points: u64,
        min_profit_threshold: Option<Decimal>,
    ) -> (detector: TrendDetector)
        ensures
            detector.well_formed(),
            detector.idle_in(0),
            detector.threshold_units() == match trend_detection_threshold {
                Some(threshold) => threshold.units(),
                None => 7 * decimal::step_units(1),
            },
            detector.min_profit_units() == match min_profit_threshold {
                Some(threshold) => threshold.units(),
                None => 4 * decimal::step_units(2),
            },
            detector.target() == (duration_analysis_seconds as usize),
            detector.required() == (min_passed_data_points as usize),
    {
        TrendDetector {
            trend_detection_threshold: match trend_detection_threshold {
                Some(threshold) => threshold,
                None => Decimal::of(7, 1),
            },
            duration_analysis_seconds,
            min_passed_data_points,
            min_profit_threshold: match min_profit_threshold {
                Some(threshold) => threshold,
                None => Decimal::of(4, 2),
            },
            period_timestamp: 0,
            data_points: VecDeque::new(),
            analysis_active: false,
            collection_started_at: None,
        }
    }

    /// Drops the analysis under way and turns to a new period.
    pub fn reset_period(&mut self, new_period_timestamp: u64)
        ensures
            final(self).well_formed(),
            final(self).idle_in(new_period_timestamp),
            final(self).same_settings(*old(self)),
    {
        self.period_timestamp = new_period_timestamp;
        self.stop_analysis();
    }

    fn stop_analysis(&mut self)
        ensures
            final(self).well_formed(),
            final(self).idle_in(old(self).period()),
            final(self).same_settings(*old(self)),
    {
        self.data_points = VecDeque::new();
        self.analysis_active = false;
        self.collection_started_at = None;
    }

    /// How many of some observations pass.
    pub closed spec fn passed_count(self, points: Seq<DataPoint>) -> nat
        decreases points.len(),
    {
        if points.len() == 0 {
            0
        } else {
            self.passed_count(points.drop_last()) + if self.passed(points.last()) {
                1nat
            } else {
                0nat
            }
        }
    }

    proof fn lemma_all_passed(self, points: Seq<DataPoint>)
        requires
            forall|i: int| 0 <= i < points.len() ==> self.passed(#[trigger] points[i]),
        ensures
            self.passed_count(points) == points.len(),
        decreases points.len(),
    {
        if points.len() > 0 {
            assert(self.passed(points[points.len() - 1]));
            self.lemma_all_passed(points.drop_last());
        }
    }

    /// Counts the observations of a batch that pass.
    fn count_passed(&self, batch: &VecDeque<DataPoint>) -> (count: usize)
        ensures
            count == self.passed_count(batch@),
    {
        let mut count: usize = 0;
        let mut i: usize = 0;
        while i < batch.len()
            invariant
                count <= i <= batch@.len(),
                count == self.passed_count(batch@.take(i as int)),
            decreases batch@.len() - i,
        {
            let point = &batch[i];
            assert(batch@.take(i + 1).drop_last() == batch@.take(i as int));
            if point.eth_higher_price.at_least(self.trend_detection_threshold)
                && point.btc_higher_price.at_least(self.trend_detection_threshold) {
                count += 1;
            }
            i += 1;
        }
        assert(batch@.take(i as int) == batch@);
        count
    }

    /// Records an observation and, once enough of them are made, decides on the batch. Returns
    /// whether the batch was completed with enough observations passed.
    fn observe(&mut self, point: DataPoint) -> (confirmed: bool)
        requires
            old(self).well_formed(),
            old(self).passed(point),
        ensures
            final(self).well_formed(),
            final(self).same_settings(*old(self)),
            final(self).period() == old(self).period(),
            old(self).points().len() + 1 < old(self).target() ==> {
                &&& !confirmed
                &&& final(self).points() == old(self).points().push(point)
                &&& final(self).started() == match old(self).started() {
                    Some(started) => Some(started),
                    None => Some(point.timestamp),
                }
            },
            old(self).points().len() + 1 >= old(self).target() ==> {
                &&& confirmed == (old(self).target() >= old(self).required())
                &&& final(self).idle_in(old(self).period())
            },
    {
        if !self.analysis_active {
            self.analysis_active = true;
            self.collection_started_at = Some(point.timestamp);
            self.data_points = VecDeque::new();
            assert(self.data_points@ == old(self).data_points@);
        }
        self.data_points.push_back(point);
        assert(self.data_points@ == old(self).points().push(point));
        assert forall|i: int| 0 <= i < self.data_points@.len() implies self.passed(
            #[trigger] self.data_points@[i],
        ) by {
            if i < old(self).data_points@.len() {
                assert(old(self).passed(old(self).data_points@[i]));
            }
        }
        let target_points: usize = self.duration_analysis_seconds as usize;
        if self.data_points.len() < target_points {
            return false;
        }
        let mut batch: VecDeque<DataPoint> = VecDeque::new();
        let ghost collected = self.data_points@;
        let mut taken: usize = 0;
        while taken < target_points
            invariant
                taken <= target_points <= collected.len(),
                forall|i: int| 0 <= i < collected.len() ==> self.passed(#[trigger] collected[i]),
                batch@ == collected.take(taken as int),
                self.data_points@ == collected.skip(taken as int),
                self.same_settings(*old(self)),
                self.period() == old(self).period(),
            decreases target_points - taken,
        {
            match self.data_points.pop_front() {
                Some(first) => {
                    batch.push_back(first);
                },
                None => {
                    assert(false);
                },
            }
            taken += 1;
        }
        assert(batch@ == collected.take(target_points as int));
        let passed_points = self.count_passed(&batch);
        proof {
            assert forall|i: int| 0 <= i < batch@.len() implies self.passed(#[trigger] batch@[i]) by {
                assert(batch@[i] == collected[i]);
            }
            self.lemma_all_passed(batch@);
        }
        let min_required: usize = self.min_passed_data_points as usize;
        let enough_passed = passed_points >= min_required;
        self.stop_analysis();
        enough_passed
    }

    /// Takes notice of a snapshot and returns the token to buy, if the snapshot is one to buy on.
    /// `now` is the time of the call, in nanoseconds on the monotonic clock.
    pub fn detect_opportunities(&mut self, snapshot: &MarketSnapshot, now: u64) -> (opportunity:
        Option<TrendOpportunity>)
        requires
            old(self).well_formed(),
            old(self).confirms(*snapshot) ==> {
                &&& decimal::result_fits(
                    decimal::one_units() - leader(snapshot.eth_market).ask_units(),
                )
                &&& decimal::result_fits(
                    decimal::one_units() - leader(snapshot.btc_market).ask_units(),
                )
            },
        ensures
            final(self).well_formed(),
            final(self).same_settings(*old(self)),
            opportunity is Some <==> old(self).buys_on(*snapshot),
            opportunity matches Some(found) ==> is_opportunity(*snapshot, found),
            final(self).follows(*old(self), *snapshot, now),
    {
        let (eth_up, eth_down, btc_up, btc_down) = match (
            &snapshot.eth_market.up_token,
            &snapshot.eth_market.down_token,
            &snapshot.btc_market.up_token,
            &snapshot.btc_market.down_token,
        ) {
            (Some(eth_up), Some(eth_down), Some(btc_up), Some(btc_down)) => (
                eth_up,
                eth_down,
                btc_up,
                btc_down,
            ),
            _ => {
                return None;
            },
        };
        let eth_higher_is_up = eth_down.ask_price().less(eth_up.ask_price());
        let eth_higher = if eth_higher_is_up {
            eth_up
        } else {
            eth_down
        };
        let btc_higher_is_up = btc_down.ask_price().less(btc_up.ask_price());
        let btc_higher = if btc_higher_is_up {
            btc_up
        } else {
            btc_down
        };
        assert(*eth_higher == leader(snapshot.eth_market));
        assert(*btc_higher == leader(snapshot.btc_market));
        if eth_higher_is_up != btc_higher_is_up {
            return None;
        }
        let strategy = if eth_higher_is_up {
            TrendStrategy::BothUp
        } else {
            TrendStrategy::BothDown
        };
        let eth_higher_price = eth_higher.ask_price();
        let btc_higher_price = btc_higher.ask_price();

        if self.period_timestamp != snapshot.period_timestamp {
            self.reset_period(snapshot.period_timestamp);
        }
        assert(self.points() == old(self).points_before(*snapshot));
        let both_above_threshold = eth_higher_price.at_least(self.trend_detection_threshold)
            && btc_higher_price.at_least(self.trend_detection_threshold);
        if !both_above_threshold {
            if self.analysis_active {
                self.stop_analysis();
            }
            assert(self.points() =~= Seq::empty());
            return None;
        }
        let point = DataPoint { eth_higher_price, btc_higher_price, timestamp: now };
        let ghost before = self.points();
        assert(before.push(point).drop_last() == before);
        if !self.observe(point) {
            return None;
        }
        let eth_profit = Decimal::one().minus(eth_higher_price);
        let btc_profit = Decimal::one().minus(btc_higher_price);
        if eth_profit.less(self.min_profit_threshold) || btc_profit.less(
            self.min_profit_threshold,
        ) {
            return None;
        }
        let (selected, selected_token_price, selected_condition_id) = if eth_higher_price.at_least(
            btc_higher_price,
        ) {
            (eth_higher, eth_higher_price, snapshot.eth_market.condition_id.clone())
        } else {
            (btc_higher, btc_higher_price, snapshot.btc_market.condition_id.clone())
        };
        Some(
            TrendOpportunity {
                strategy,
                eth_higher_token_price: eth_higher_price,
                btc_higher_token_price: btc_higher_price,
                eth_higher_token_id: eth_higher.token_id.clone(),
                btc_higher_token_id: btc_higher.token_id.clone(),
                eth_condition_id: snapshot.eth_market.condition_id.clone(),
                btc_condition_id: snapshot.btc_market.condition_id.clone(),
                selected_token_id: selected.token_id.clone(),
                selected_token_price,
                selected_condition_id,
            },
        )
    }
}

/// That an opportunity names the leading tokens of a snapshot and selects the dearer one, the ETH
/// token where both cost the same.
pub open spec fn is_opportunity(snapshot: MarketSnapshot, found: TrendOpportunity) -> bool {
    let eth = leader(snapshot.eth_market);
    let btc = leader(snapshot.btc_market);
    let eth_selected = eth.ask_units() >= btc.ask_units();
    &&& found.strategy == if up_leads(snapshot.eth_market) {
        TrendStrategy::BothUp
    } else {
        TrendStrategy::BothDown
    }
    &&& found.eth_higher_token_price.units() == eth.ask_units()
    &&& found.eth_higher_token_price.s() == eth.ask_scale()
    &&& found.btc_higher_token_price.units() == btc.ask_units()
    &&& found.btc_higher_token_price.s() == btc.ask_scale()
    &&& found.eth_higher_token_id@ == eth.token_id@
    &&& found.btc_higher_token_id@ == btc.token_id@
    &&& found.eth_condition_id@ == snapshot.eth_market.condition_id@
    &&& found.btc_condition_id@ == snapshot.btc_market.condition_id@
    &&& found.selected_token_id@ == if eth_selected {
        eth.token_id@
    } else {
        btc.token_id@
    }
    &&& found.selected_token_price.units() == if eth_selected {
        eth.ask_units()
    } else {
        btc.ask_units()
    }
    &&& found.selected_token_price.s() == if eth_selected {
        eth.ask_scale()
    } else {
        btc.ask_scale()
    }
    &&& found.selected_condition_id@ == if eth_selected {
        snapshot.eth_market.condition_id@
    } else {
        snapshot.btc_market.condition_id@
    }
}

/// Of a token that costs between zero and one, the profit is exact: what is left of one.
pub proof fn profit_is_exact(token: TokenPrice)
    requires
        token.ask is Some ==> token.ask->0.valid(),
        0 <= token.ask_units() <= decimal::one_units(),
    ensures
        profit_units(token) == decimal::one_units() - token.ask_units(),
{
    match token.ask {
        Some(ask) => {
            decimal::exact_as_it_is(ask);
        },
        None => {
            decimal::lemma_step(0);
        },
    }
    decimal::rest_of_one_is_exact(token.ask_units(), token.ask_scale());
}

/// How many of the first `n` snapshots of a run were bought on.
pub open spec fn purchases(
    states: Seq<TrendDetector>,
    snapshots: Seq<MarketSnapshot>,
    n: nat,
) -> nat
    decreases n,
{
    if n == 0 {
        0
    } else {
        purchases(states, snapshots, (n - 1) as nat) + if states[n - 1].buys_on(snapshots[n - 1]) {
            1nat
        } else {
            0nat
        }
    }
}

/// How many of the first `n` snapshots of a run qualified as observations.
pub open spec fn observations(
    states: Seq<TrendDetector>,
    snapshots: Seq<MarketSnapshot>,
    n: nat,
) -> nat
    decreases n,
{
    if n == 0 {
        0
    } else {
        observations(states, snapshots, (n - 1) as nat) + if states[n - 1].qualifies(
            snapshots[n - 1],
        ) {
            1nat
        } else {
            0nat
        }
    }
}

/// That a detector went through `states` as it saw `snapshots` at `times`.
pub open spec fn is_run(
    states: Seq<TrendDetector>,
    snapshots: Seq<MarketSnapshot>,
    times: Seq<u64>,
) -> bool {
    &&& states.len() == snapshots.len() + 1
    &&& times.len() == snapshots.len()
    &&& forall|i: int|
        0 <= i < snapshots.len() ==> (#[trigger] states[i + 1]).follows(
            states[i],
            snapshots[i],
            times[i],
        ) && states[i + 1].same_settings(states[i])
}

/// Each purchase takes a whole analysis of its own: over any run from a detector with nothing
/// recorded, there are at least as many qualifying snapshots as the purchases made times the
/// observations that an analysis takes.
pub proof fn purchases_take_whole_analyses(
    states: Seq<TrendDetector>,
    snapshots: Seq<MarketSnapshot>,
    times: Seq<u64>,
    n: nat,
)
    requires
        is_run(states, snapshots, times),
        states[0].points().len() == 0,
        n <= snapshots.len(),
    ensures
        purchases(states, snapshots, n) * states[0].target() + states[n as int].points().len()
            <= observations(states, snapshots, n),
        states[n as int].target() == states[0].target(),
    decreases n,
{
    if n > 0 {
        let last = n - 1;
        purchases_take_whole_analyses(states, snapshots, times, last as nat);
        let before = states[last];
        let snapshot = snapshots[last];
        let after = states[last + 1];
        assert(after.follows(before, snapshot, times[last]) && after.same_settings(before));
        let target = states[0].target() as int;
        let bought = purchases(states, snapshots, last as nat) as int;
        assert((bought + 1) * target == bought * target + target) by (nonlinear_arith);
        if same_trend(snapshot) && !(before.qualifies(snapshot) && !before.completes(snapshot)) {
            assert(after.points().len() == 0);
        }
        assert(before.points_before(snapshot).len() <= before.points().len());
        assert(after.points().len() + (if before.buys_on(snapshot) {
            target
        } else {
            0
        }) <= before.points().len() + (if before.qualifies(snapshot) {
            1int
        } else {
            0
        }));
    } else {
        assert(0 * states[0].target() == 0);
    }
}

/// Whether every snapshot is of the given period, qualifies as an observation and promises enough
/// profit.
pub open spec fn all_favourable(
    detector: TrendDetector,
    snapshots: Seq<MarketSnapshot>,
    period: u64,
) -> bool {
    forall|i: int|
        0 <= i < snapshots.len() ==> {
            &&& (#[trigger] snapshots[i]).period_timestamp == period
            &&& detector.qualifies(snapshots[i])
            &&& profit_units(leader(snapshots[i].eth_market)) >= detector.min_profit_units()
            &&& profit_units(leader(snapshots[i].btc_market)) >= detector.min_profit_units()
        }
}

/// What the next number leaves of a window.
proof fn lemma_next_of_window(n: nat, window: nat)
    requires
        window >= 1,
    ensures
        (n + 1) % window == (if n % window + 1 == window {
            0nat
        } else {
            n % window + 1
        }),
{
    let q = n as int / window as int;
    let r = n as int % window as int;
    vstd::arithmetic::div_mod::lemma_fundamental_div_mod(n as int, window as int);
    if r + 1 == window {
        assert(n + 1 == (q + 1) * window) by (nonlinear_arith)
            requires
                n == window * q + r,
                r + 1 == window,
        ;
        vstd::arithmetic::div_mod::lemma_fundamental_div_mod_converse(
            n as int + 1,
            window as int,
            q + 1,
            0,
        );
    } else {
        assert(n + 1 == q * window + (r + 1)) by (nonlinear_arith)
            requires
                n == window * q + r,
        ;
        vstd::arithmetic::div_mod::lemma_fundamental_div_mod_converse(
            n as int + 1,
            window as int,
            q,
            r + 1,
        );
    }
}

/// How far a run of favourable snapshots has filled its window.
proof fn lemma_window_fills(
    states: Seq<TrendDetector>,
    snapshots: Seq<MarketSnapshot>,
    times: Seq<u64>,
    period: u64,
    n: nat,
)
    requires
        is_run(states, snapshots, times),
        states[0].points().len() == 0,
        states[0].target() >= 1,
        all_favourable(states[0], snapshots, period),
        n <= snapshots.len(),
    ensures
        states[n as int].same_settings(states[0]),
        states[n as int].points().len() == n % states[0].target(),
        n > 0 ==> states[n as int].period() == period,
    decreases n,
{
    let window = states[0].target();
    if n == 0 {
        vstd::arithmetic::div_mod::lemma_small_mod(0, window);
    } else {
        let last = (n - 1) as nat;
        lemma_window_fills(states, snapshots, times, period, last);
        lemma_next_of_window(last, window);
        if last == 0 {
            vstd::arithmetic::div_mod::lemma_small_mod(0, window);
        }
        let before = states[last as int];
        let snapshot = snapshots[last as int];
        let after = states[last as int + 1];
        vstd::arithmetic::div_mod::lemma_mod_bound(last as int, window as int);
        assert(after.follows(before, snapshot, times[last as int]) && after.same_settings(before));
        assert(before.qualifies(snapshot));
        assert(before.points_before(snapshot).len() == before.points().len());
    }
}

/// On a run of snapshots of one period that all qualify and promise enough profit, each purchase uses
/// up a whole window: from a detector with nothing recorded, the `k`-th snapshot is bought on exactly
/// where no more observations have to pass than a window takes and `k` completes a window. Where more
/// have to, none ever is.
pub proof fn windows_are_bought(
    states: Seq<TrendDetector>,
    snapshots: Seq<MarketSnapshot>,
    times: Seq<u64>,
    period: u64,
    k: nat,
)
    requires
        is_run(states, snapshots, times),
        states[0].points().len() == 0,
        states[0].target() >= 1,
        all_favourable(states[0], snapshots, period),
        1 <= k <= snapshots.len(),
    ensures
        states[k - 1].buys_on(snapshots[k - 1]) <==> states[0].required() <= states[0].target() && k
            % states[0].target() == 0,
{
    let window = states[0].target();
    let last = (k - 1) as nat;
    lemma_window_fills(states, snapshots, times, period, last);
    lemma_next_of_window(last, window);
    vstd::arithmetic::div_mod::lemma_mod_bound(last as int, window as int);
    let before = states[last as int];
    let snapshot = snapshots[last as int];
    assert(before.qualifies(snapshot));
    assert(before.points_before(snapshot).len() == before.points().len());
}

/// The dearer of the two leading tokens is selected, in either direction of the trend, in its own
/// market: the ETH one where both cost the same.
pub proof fn dearer_leader_is_selected(snapshot: MarketSnapshot, found: TrendOpportunity)
    requires
        is_opportunity(snapshot, found),
    ensures
        found.selected_token_price.units() == vstd::math::max(
            found.eth_higher_token_price.units(),
            found.btc_higher_token_price.units(),
        ),
        found.eth_higher_token_price.units() >= found.btc_higher_token_price.units() ==> {
            &&& found.selected_token_id@ == found.eth_higher_token_id@
            &&& found.selected_condition_id@ == found.eth_condition_id@
        },
        found.eth_higher_token_price.units() < found.btc_higher_token_price.units() ==> {
            &&& found.selected_token_id@ == found.btc_higher_token_id@
            &&& found.selected_condition_id@ == found.btc_condition_id@
        },
{
}

/// The leading tokens are the dearer ones of their markets, by the four prices; the trend is up where
/// the Up tokens lead and down otherwise, and the condition identifiers are those of the markets.
pub proof fn leaders_by_the_prices(
    detector: TrendDetector,
    snapshot: MarketSnapshot,
    eth_up: TokenPrice,
    eth_down: TokenPrice,
    btc_up: TokenPrice,
    btc_down: TokenPrice,
    found: TrendOpportunity,
)
    requires
        snapshot.eth_market.up_token == Some(eth_up),
        snapshot.eth_market.down_token == Some(eth_down),
        snapshot.btc_market.up_token == Some(btc_up),
        snapshot.btc_market.down_token == Some(btc_down),
        detector.buys_on(snapshot),
        is_opportunity(snapshot, found),
    ensures
        found.eth_higher_token_price.units() == vstd::math::max(
            eth_up.ask_units(),
            eth_down.ask_units(),
        ),
        found.btc_higher_token_price.units() == vstd::math::max(
            btc_up.ask_units(),
            btc_down.ask_units(),
        ),
        found.eth_higher_token_price.units() >= detector.threshold_units(),
        found.btc_higher_token_price.units() >= detector.threshold_units(),
        found.eth_condition_id@ == snapshot.eth_market.condition_id@,
        found.btc_condition_id@ == snapshot.btc_market.condition_id@,
        found.strategy == TrendStrategy::BothUp ==> {
            &&& eth_up.ask_units() > eth_down.ask_units()
            &&& btc_up.ask_units() > btc_down.ask_units()
            &&& found.eth_higher_token_id@ == eth_up.token_id@
            &&& found.btc_higher_token_id@ == btc_up.token_id@
        },
        found.strategy == TrendStrategy::BothDown ==> {
            &&& eth_up.ask_units() <= eth_down.ask_units()
            &&& btc_up.ask_units() <= btc_down.ask_units()
            &&& found.eth_higher_token_id@ == eth_down.token_id@
            &&& found.btc_higher_token_id@ == btc_down.token_id@
        },
{
}

/// At prices between zero and one, each leading token that is bought on leaves the least profit of
/// the one that it pays.
pub proof fn leaders_leave_profit(
    detector: TrendDetector,
    snapshot: MarketSnapshot,
    found: TrendOpportunity,
)
    requires
        detector.buys_on(snapshot),
        is_opportunity(snapshot, found),
        leader(snapshot.eth_market).ask is Some && leader(snapshot.eth_market).ask->0.valid(),
        leader(snapshot.btc_market).ask is Some && leader(snapshot.btc_market).ask->0.valid(),
        0 <= found.eth_higher_token_price.units() <= decimal::one_units(),
        0 <= found.btc_higher_token_price.units() <= decimal::one_units(),
    ensures
        found.eth_higher_token_price.units() + detector.min_profit_units() <= decimal::one_units(),
        found.btc_higher_token_price.units() + detector.min_profit_units() <= decimal::one_units(),
        found.selected_token_price.units() + detector.min_profit_units() <= decimal::one_units(),
{
    profit_is_exact(leader(snapshot.eth_market));
    profit_is_exact(leader(snapshot.btc_market));
}

/// A snapshot is an observation by its four prices alone: the same token leads in both markets, and
/// both leading tokens have reached the threshold.
pub proof fn observations_by_the_prices(
    detector: TrendDetector,
    snapshot: MarketSnapshot,
    eth_up: TokenPrice,
    eth_down: TokenPrice,
    btc_up: TokenPrice,
    btc_down: TokenPrice,
)
    requires
        snapshot.eth_market.up_token == Some(eth_up),
        snapshot.eth_market.down_token == Some(eth_down),
        snapshot.btc_market.up_token == Some(btc_up),
        snapshot.btc_market.down_token == Some(btc_down),
    ensures
        ({
            let up = eth_up.ask_units() > eth_down.ask_units() && btc_up.ask_units()
                > btc_down.ask_units();
            let down = eth_up.ask_units() <= eth_down.ask_units() && btc_up.ask_units()
                <= btc_down.ask_units();
            &&& same_trend(snapshot) <==> up || down
            &&& detector.qualifies(snapshot) <==> (up && eth_up.ask_units()
                >= detector.threshold_units() && btc_up.ask_units() >= detector.threshold_units())
                || (down && eth_down.ask_units() >= detector.threshold_units()
                && btc_down.ask_units() >= detector.threshold_units())
        }),
{
}

/// Without one of the four prices nothing is observed and nothing changes.
pub proof fn missing_prices_change_nothing(
    before: TrendDetector,
    snapshot: MarketSnapshot,
    now: u64,
    after: TrendDetector,
)
    requires
        snapshot.eth_market.up_token is None || snapshot.eth_market.down_token is None
            || snapshot.btc_market.up_token is None || snapshot.btc_market.down_token is None,
        after.follows(before, snapshot, now),
    ensures
        after == before,
        !before.buys_on(snapshot),
{
}

/// The two markets are treated alike but for equal prices: with the markets exchanged, a snapshot is
/// bought on as it was, and the token that is selected has the same price.
pub proof fn markets_are_alike(
    detector: TrendDetector,
    a: MarketSnapshot,
    b: MarketSnapshot,
    found: TrendOpportunity,
    exchanged: TrendOpportunity,
)
    requires
        b.eth_market == a.btc_market,
        b.btc_market == a.eth_market,
        b.period_timestamp == a.period_timestamp,
    ensures
        detector.qualifies(a) == detector.qualifies(b),
        detector.buys_on(a) == detector.buys_on(b),
        is_opportunity(a, found) && is_opportunity(b, exchanged) ==> {
            &&& found.selected_token_price.units() == exchanged.selected_token_price.units()
            &&& found.eth_higher_token_price.units() != found.btc_higher_token_price.units()
                ==> found.selected_token_id@ == exchanged.selected_token_id@
        },
{
}

/// The two directions are treated alike: with up and down exchanged in both markets, and no two
/// tokens of a market at the same price, a snapshot is bought on as it was and the same token is
/// selected.
pub proof fn trends_are_alike(
    detector: TrendDetector,
    a: MarketSnapshot,
    b: MarketSnapshot,
    found: TrendOpportunity,
    mirrored: TrendOpportunity,
)
    requires
        quoted(a.eth_market),
        quoted(a.btc_market),
        a.eth_market.up_token->0.ask_units() != a.eth_market.down_token->0.ask_units(),
        a.btc_market.up_token->0.ask_units() != a.btc_market.down_token->0.ask_units(),
        b.eth_market.up_token == a.eth_market.down_token,
        b.eth_market.down_token == a.eth_market.up_token,
        b.btc_market.up_token == a.btc_market.down_token,
        b.btc_market.down_token == a.btc_market.up_token,
        b.eth_market.condition_id@ == a.eth_market.condition_id@,
        b.btc_market.condition_id@ == a.btc_market.condition_id@,
        b.period_timestamp == a.period_timestamp,
    ensures
        detector.qualifies(a) == detector.qualifies(b),
        detector.buys_on(a) == detector.buys_on(b),
        is_opportunity(a, found) && is_opportunity(b, mirrored) ==> {
            &&& found.selected_token_id@ == mirrored.selected_token_id@
            &&& found.selected_condition_id@ == mirrored.selected_condition_id@
            &&& found.selected_token_price.units() == mirrored.selected_token_price.units()
            &&& found.strategy != mirrored.strategy
        },
{
}

/// A common trend below the threshold ends the analysis, and so does a new period: what is observed
/// next is the first observation of its own. A snapshot without a common trend ends nothing.
pub proof fn analyses_start_over(
    before: TrendDetector,
    snapshot: MarketSnapshot,
    now: u64,
    after: TrendDetector,
)
    requires
        before.well_formed(),
        after.well_formed(),
        after.same_settings(before),
        after.follows(before, snapshot, now),
    ensures
        same_trend(snapshot) && (leader(snapshot.eth_market).ask_units() < before.threshold_units()
            || leader(snapshot.btc_market).ask_units() < before.threshold_units())
            ==> after.points().len() == 0,
        snapshot.period_timestamp != before.period() ==> after.points().len() <= 1 || after
            == before,
        after.points().len() <= before.points().len() + 1,
        after.points().len() > 0 ==> after.points().len() < before.target(),
        same_trend(snapshot) ==> after.period() == snapshot.period_timestamp,
        !same_trend(snapshot) ==> after.points() == before.points() && after.period()
            == before.period(),
{
}

/// Each observation of a period counts once towards a window, and a full window is used up whether it
/// is bought on or not: the next one starts from nothing.
pub proof fn windows_are_used_up(
    before: TrendDetector,
    snapshot: MarketSnapshot,
    now: u64,
    after: TrendDetector,
)
    requires
        before.well_formed(),
        after.follows(before, snapshot, now),
        before.qualifies(snapshot),
        snapshot.period_timestamp == before.period(),
    ensures
        before.points().len() + 1 >= before.target() ==> after.points().len() == 0,
        before.points().len() + 1 < before.target() ==> {
            &&& after.points().len() == before.points().len() + 1
            &&& after.points().take(before.points().len() as int) == before.points()
            &&& after.points().last().eth_higher_price.units() == vstd::math::max(
                snapshot.eth_market.up_token->0.ask_units(),
                snapshot.eth_market.down_token->0.ask_units(),
            )
            &&& after.points().last().btc_higher_price.units() == vstd::math::max(
                snapshot.btc_market.up_token->0.ask_units(),
                snapshot.btc_market.down_token->0.ask_units(),
            )
        },
        before.buys_on(snapshot) ==> before.points().len() + 1 >= before.target(),
{
    if before.points().len() + 1 < before.target() {
        assert(after.points().take(before.points().len() as int) =~= after.points().drop_last());
    }
}

} // verus!
