//! Finding the markets of the current 15-minute period.
use crate::models::Market;
use crate::monitor;
use crate::period::{self, PERIOD_SECONDS};
use crate::text;
use vstd::prelude::*;
use vstd::string::*;

verus! {

/// How many earlier periods are tried where the current one has no market yet.
pub const EARLIER_PERIODS: u64 = 3;

/// Why no pair of markets was found.
#[derive(Clone, Debug)]
pub enum DiscoveryError {
    /// Neither the current period nor the ones before have a fitting market of this name.
    NotFound { market_name: String },
    /// Both markets have this condition identifier.
    SameCondition { condition_id: String },
}

impl DiscoveryError {
    /// The error in words.
    pub open spec fn words(self) -> Seq<char> {
        match self {
            DiscoveryError::NotFound { market_name } => "Could not find active "@ + market_name@
                + " 15-minute up/down market. Please set condition_id in config.json"@,
            DiscoveryError::SameCondition { condition_id } =>
                "ETH and BTC markets have the same condition ID: "@ + condition_id@
                    + ". This is incorrect. Please set condition IDs manually in config.json"@,
        }
    }

    /// The error in words.
    pub fn message(&self) -> (message: String)
        ensures
            message@ == self.words(),
    {
        let mut message = String::new();
        match self {
            DiscoveryError::NotFound { market_name } => {
                message.append("Could not find active ");
                message.append(market_name.as_str());
                message.append(
                    " 15-minute up/down market. Please set condition_id in config.json",
                );
            },
            DiscoveryError::SameCondition { condition_id } => {
                message.append("ETH and BTC markets have the same condition ID: ");
                message.append(condition_id.as_str());
                message.append(
                    ". This is incorrect. Please set condition IDs manually in config.json",
                );
            },
        }
        message
    }
}

/// The slug of the market of an asset that runs from the given time on.
pub open spec fn slug_text(prefix: Seq<char>, start: u64) -> Seq<char> {
    prefix + "-updown-15m-"@ + text::digits(start as nat)
}

/// The slug of the market of an asset that runs from the given time on.
pub fn market_slug(prefix: &str, start: u64) -> (slug: String)
    ensures
        slug@ == slug_text(prefix@, start),
{
    let mut slug = text::joined(prefix, "-updown-15m-");
    text::append_number(&mut slug, start);
    slug
}

/// A search for the market of an asset, by its slug: first of the current period, then of the ones
/// before.
#[derive(Clone, Debug)]
pub struct MarketSearch {
    market_name: String,
    slug_prefix: String,
    period: u64,
    back: u64,
}

/// What comes after a slug was looked up.
#[derive(Clone, Debug)]
pub enum SearchStep {
    /// This is the market.
    Found(Market),
    /// Look up the slug of this search.
    Continue(MarketSearch),
    /// There is no such market.
    Failed(DiscoveryError),
}

/// Whether one of the condition identifiers is the given one.
pub open spec fn is_seen(seen: Seq<String>, condition_id: Seq<char>) -> bool {
    exists|i: int| 0 <= i < seen.len() && (#[trigger] seen[i])@ == condition_id
}

/// Whether a market can be traded on: it is open, and none that was seen before.
pub open spec fn is_fitting(market: Market, seen: Seq<String>) -> bool {
    !is_seen(seen, market.condition_id@) && market.active && !market.closed
}

/// Whether one of the condition identifiers is the given one.
fn was_seen(seen: &Vec<String>, condition_id: &String) -> (found: bool)
    ensures
        found == is_seen(seen@, condition_id@),
{
    let mut i: usize = 0;
    while i < seen.len()
        invariant
            i <= seen.len(),
            forall|j: int| 0 <= j < i ==> (#[trigger] seen@[j])@ != condition_id@,
        decreases seen.len() - i,
    {
        if text::same_text(seen[i].as_str(), condition_id.as_str()) {
            return true;
        }
        i += 1;
    }
    false
}

impl MarketSearch {
    /// What the market is called.
    pub closed spec fn name(self) -> Seq<char> {
        self.market_name@
    }

    /// What the slugs start with.
    pub closed spec fn prefix(self) -> Seq<char> {
        self.slug_prefix@
    }

    /// The start of the current period.
    pub closed spec fn current(self) -> u64 {
        self.period
    }

    /// How many periods before the current one the search is at.
    pub closed spec fn behind(self) -> u64 {
        self.back
    }

    /// The start of the period that the search is at.
    pub open spec fn start(self) -> u64 {
        (self.current() - self.behind() * PERIOD_SECONDS) as u64
    }

    /// That the search is at a period that it looks at and that can be written.
    pub open spec fn well_formed(self) -> bool {
        &&& self.behind() <= EARLIER_PERIODS
        &&& self.current() >= self.behind() * PERIOD_SECONDS
    }

    /// A search that starts with the period that a time falls into.
    pub fn new(market_name: &str, slug_prefix: &str, current_time: u64) -> (search: MarketSearch)
        ensures
            search.well_formed(),
            search.name() == market_name@,
            search.prefix() == slug_prefix@,
            search.current() == period::start_of(current_time as int),
            search.behind() == 0,
    {
        MarketSearch {
            market_name: market_name.to_owned(),
            slug_prefix: slug_prefix.to_owned(),
            period: period::period_start(current_time),
            back: 0,
        }
    }

    /// The slug to look up.
    pub fn slug(&self) -> (slug: String)
        requires
            self.well_formed(),
        ensures
            slug@ == slug_text(self.prefix(), self.start()),
    {
        market_slug(self.slug_prefix.as_str(), self.period - self.back * PERIOD_SECONDS)
    }

    /// What comes after the slug was looked up and `found` was there. Where the search has to go
    /// on, there must be an earlier period.
    pub fn discover_market(self, found: Option<Market>, seen: &Vec<String>) -> (step: SearchStep)
        requires
            self.well_formed(),
            (found is Some && is_fitting(found->0, seen@)) || self.behind() == EARLIER_PERIODS
                || self.start() >= PERIOD_SECONDS,
        ensures
            match step {
                SearchStep::Found(market) => found == Some(market) && is_fitting(market, seen@),
                SearchStep::Continue(next) => {
                    &&& !(found is Some && is_fitting(found->0, seen@))
                    &&& self.behind() < EARLIER_PERIODS
                    &&& next.well_formed()
                    &&& next.behind() == self.behind() + 1
                    &&& next.name() == self.name()
                    &&& next.prefix() == self.prefix()
                    &&& next.current() == self.current()
                },
                SearchStep::Failed(error) => {
                    &&& !(found is Some && is_fitting(found->0, seen@))
                    &&& self.behind() == EARLIER_PERIODS
                    &&& error matches DiscoveryError::NotFound { market_name }
                    &&& market_name@ == self.name()
                },
            },
    {
        if let Some(market) = found {
            if !was_seen(seen, &market.condition_id) && market.active && !market.closed {
                return SearchStep::Found(market);
            }
        }
        if self.back < EARLIER_PERIODS {
            SearchStep::Continue(
                MarketSearch {
                    market_name: self.market_name,
                    slug_prefix: self.slug_prefix,
                    period: self.period,
                    back: self.back + 1,
                },
            )
        } else {
            SearchStep::Failed(DiscoveryError::NotFound { market_name: self.market_name })
        }
    }
}

/// The pair of markets to start with, which must not be the same one.
pub fn get_or_discover_markets(eth_market: Market, btc_market: Market) -> (markets: Result<
    (Market, Market),
    DiscoveryError,
>)
    ensures
        match markets {
            Ok(pair) => {
                &&& pair == (eth_market, btc_market)
                &&& eth_market.condition_id@ != btc_market.condition_id@
            },
            Err(error) => {
                &&& eth_market.condition_id@ == btc_market.condition_id@
                &&& error matches DiscoveryError::SameCondition { condition_id }
                &&& condition_id@ == eth_market.condition_id@
            },
        },
{
    if text::same_text(eth_market.condition_id.as_str(), btc_market.condition_id.as_str()) {
        Err(DiscoveryError::SameCondition { condition_id: eth_market.condition_id })
    } else {
        Ok((eth_market, btc_market))
    }
}

/// The time that went into a slug is the time that is read from it.
pub proof fn slug_round_trip(prefix: Seq<char>, start: u64)
    ensures
        monitor::slug_timestamp(slug_text(prefix, start)) == start,
{
    reveal_strlit("-updown-15m-");
    let middle = "-updown-15m-"@;
    let number = text::digits(start as nat);
    let slug = slug_text(prefix, start);
    let dash = prefix.len() as int + 11;
    text::digits_round_trip(start as nat);
    text::number_text_round_trip(start);
    text::last_position_is_last(slug, '-');
    assert(slug[dash] == middle[11]);
    assert forall|i: int| dash < i < slug.len() implies slug[i] != '-' by {
        assert(slug[i] == number[i - dash - 1]);
        assert(text::is_digit(number[i - dash - 1]));
    }
    assert(text::last_position(slug, '-') == dash);
    assert(slug.skip(dash + 1) =~= number);
}

/// A market that was found while another was set aside is not that other one, so that the two make
/// a pair.
pub proof fn found_markets_differ(first: Market, second: Market, seen: Seq<String>)
    requires
        is_seen(seen, first.condition_id@),
        is_fitting(second, seen),
    ensures
        first.condition_id@ != second.condition_id@,
{
}

/// A search looks at the current period and the three before it and no others.
pub proof fn search_stays_near(search: MarketSearch)
    requires
        search.well_formed(),
    ensures
        search.current() - EARLIER_PERIODS * PERIOD_SECONDS <= search.start(),
        search.start() <= search.current(),
        (search.current() - search.start()) % PERIOD_SECONDS as int == 0,
{
}

/// A market is taken exactly where it is active, not closed, and has none of the condition
/// identifiers that were set aside.
pub proof fn open_unseen_markets_fit(market: Market, seen: Seq<String>)
    ensures
        is_fitting(market, seen) <==> market.active && !market.closed && forall|i: int|
            0 <= i < seen.len() ==> (#[trigger] seen[i])@ != market.condition_id@,
{
}

/// Each step of a search goes back by one period: what it looks up next is the market that ran just
/// before.
pub proof fn search_goes_back_by_one_period(search: MarketSearch, next: MarketSearch)
    requires
        search.well_formed(),
        next.well_formed(),
        next.current() == search.current(),
        next.behind() == search.behind() + 1,
    ensures
        next.start() + 900 == search.start(),
        search.behind() == 0 ==> search.start() == search.current(),
{
}

/// The slugs of different periods differ, and so the period of a market can be told from its slug.
pub proof fn slugs_tell_periods(prefix: Seq<char>, other: Seq<char>, start: u64, later: u64)
    requires
        start != later,
    ensures
        slug_text(prefix, start) != slug_text(other, later),
        slug_text(prefix, start).take(prefix.len() as int) == prefix,
{
    slug_round_trip(prefix, start);
    slug_round_trip(other, later);
    assert(slug_text(prefix, start).take(prefix.len() as int) =~= prefix);
}

/// A search looks at four periods, the current one and the three quarters of an hour before it.
pub proof fn search_covers_an_hour(search: MarketSearch)
    requires
        search.well_formed(),
    ensures
        search.behind() <= 3,
        search.current() - search.start() == 900 * search.behind(),
        search.current() < search.start() + 3600,
{
}

} // verus!
