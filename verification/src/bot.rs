//! The strategy as a whole: what a purchase and a new period mean to all of its parts.
use crate::detector::{BuyOpportunity, PriceDetector};
use crate::models::Market;
use crate::monitor::{self, MarketMonitor, MarketSnapshot};
use crate::period::{self, PERIOD_SECONDS};
use crate::trader::{self, TradeError, Trader};
use vstd::prelude::*;

verus! {

/// Completes a purchase whose order was filled or is only simulated: it becomes the holding of its
/// period, and no other one is made in that period. One that is refused leaves everything as it is.
pub fn complete_purchase(
    trader: &mut Trader,
    detector: &mut PriceDetector,
    opportunity: &BuyOpportunity,
    now: u64,
) -> (result: Result<(), TradeError>)
    requires
        old(trader).well_formed(),
        old(trader).purchases() < u64::MAX,
        opportunity.period_timestamp + PERIOD_SECONDS <= u64::MAX,
    ensures
        final(trader).well_formed(),
        result is Ok <==> !trader::is_refused(opportunity.token_to_buy_price) && trader::can_spend(
            old(trader).rules(),
        ),
        result matches Err(error) ==> trader::is_refusal(
            old(trader).rules(),
            opportunity.token_to_buy_price,
            error,
        ),
        result is Err ==> *final(trader) == *old(trader) && *final(detector) == *old(detector),
        result is Ok ==> {
            let period = opportunity.period_timestamp;
            &&& final(detector).bought_period() == Some(period)
            &&& final(detector).trigger() == old(detector).trigger()
            &&& final(detector).min_time() == old(detector).min_time()
            &&& final(trader).rules() == old(trader).rules()
            &&& final(trader).simulates() == old(trader).simulates()
            &&& final(trader).profit() == old(trader).profit()
            &&& final(trader).purchases() == old(trader).purchases() + 1
            &&& trader::is_purchase(
                *opportunity,
                old(trader).rules(),
                now,
                final(trader).holdings()[period],
            )
            &&& trader::keeps_maximum(
                old(trader).rules(),
                opportunity.token_to_buy_price,
                final(trader).holdings()[period].total_units,
            )
            &&& final(trader).holdings() == old(trader).holdings().insert(
                period,
                final(trader).holdings()[period],
            )
        },
{
    match trader.execute_buy(opportunity, now) {
        Ok(()) => {
            detector.mark_period_bought(opportunity.period_timestamp);
            Ok(())
        },
        Err(error) => Err(error),
    }
}

/// How many seconds there are until the period after that of the current markets starts.
pub fn seconds_to_next_period(monitor: &MarketMonitor, current_time: u64) -> (seconds: u64)
    requires
        monitor::slug_timestamp(monitor.eth().slug@) + PERIOD_SECONDS <= u64::MAX,
    ensures
        seconds == period::left_of(
            monitor::slug_timestamp(monitor.eth().slug@) as int,
            current_time as int,
        ),
{
    period::seconds_left(monitor.get_current_market_timestamp(), current_time)
}

/// Goes over to the markets of a new period: the holding of the period `old_period` is dropped, and
/// a purchase can be made again.
pub fn enter_period(
    monitor: &mut MarketMonitor,
    trader: &mut Trader,
    detector: &mut PriceDetector,
    eth_market: Market,
    btc_market: Market,
    old_period: u64,
    current_time: u64,
)
    requires
        old(trader).well_formed(),
    ensures
        final(monitor).eth() == eth_market,
        final(monitor).btc() == btc_market,
        final(monitor).interval() == old(monitor).interval(),
        final(monitor).is_unlooked(),
        final(monitor).stored_period() == period::start_of(current_time as int),
        final(trader).well_formed(),
        final(trader).same_account(*old(trader)),
        final(trader).holdings() == old(trader).holdings().remove(old_period),
        final(detector).bought_period() is None,
        final(detector).trigger() == old(detector).trigger(),
        final(detector).min_time() == old(detector).min_time(),
{
    monitor.update_markets(eth_market, btc_market, current_time);
    trader.reset_period(old_period);
    detector.reset_period();
}

/// After a new period was entered, what the prices call for is bought again, whatever was bought
/// before.
pub proof fn new_period_opens_again(
    before: PriceDetector,
    after: PriceDetector,
    snapshot: MarketSnapshot,
)
    requires
        after.bought_period() is None,
        after.trigger() == before.trigger(),
        after.min_time() == before.min_time(),
        before.buys(snapshot),
    ensures
        after.buys(snapshot),
{
}

} // verus!
