//! Market state over 15-minute periods and snapshots of its prices.
use crate::decimal::Decimal;
use crate::models::{Market, MarketData, MarketDetails, MarketToken, TokenPrice};
use crate::period::{self, PERIOD_SECONDS};
use crate::text;
use vstd::prelude::*;
use vstd::string::*;

verus! {

/// After how many nanoseconds the tokens of the markets are looked up again.
pub const REFRESH_NANOSECONDS: u64 = 900_000_000_000;

/// The prices of both markets at one moment.
#[derive(Clone, Debug)]
pub struct MarketSnapshot {
    pub eth_market: MarketData,
    pub btc_market: MarketData,
    /// When the snapshot was taken, in nanoseconds on the monotonic clock.
    pub timestamp: u64,
    /// How much of the current 15-minute period is left.
    pub time_remaining_seconds: u64,
    /// The start of the 15-minute period, in seconds since the epoch.
    pub period_timestamp: u64,
}

/// What a token can be bought and sold for, as far as it is known.
#[derive(Clone, Copy, Debug)]
pub struct Quote {
    pub buy: Option<Decimal>,
    pub sell: Option<Decimal>,
}

/// The quotes of the four tokens.
#[derive(Clone, Copy, Debug)]
pub struct Quotes {
    pub eth_up: Quote,
    pub eth_down: Quote,
    pub btc_up: Quote,
    pub btc_down: Quote,
}

/// Follows one ETH and one BTC market at a time.
#[derive(Clone, Debug)]
pub struct MarketMonitor {
    eth_market: Market,
    btc_market: Market,
    check_interval_ms: u64,
    eth_tokens: TokenIds,
    btc_tokens: TokenIds,
    last_market_refresh: Option<u64>,
    current_period_timestamp: u64,
}

/// The tokens of a market, as far as they are known.
#[derive(Clone, Debug)]
pub struct TokenIds {
    pub up: Option<String>,
    pub down: Option<String>,
}

/// The text of an optional string.
pub open spec fn text_of(s: Option<String>) -> Option<Seq<char>> {
    match s {
        Some(t) => Some(t@),
        None => None,
    }
}

/// The time that a market's slug ends in, after its last dash, or 0 where it ends in no number.
pub open spec fn slug_timestamp(slug: Seq<char>) -> u64 {
    let dash = text::last_position(slug, '-');
    if dash < 0 {
        0
    } else {
        match text::unsigned_value(slug.skip(dash + 1)) {
            Some(timestamp) => timestamp,
            None => 0,
        }
    }
}

/// Which way a market goes.
#[derive(Clone, Copy, Debug, PartialEq, Eq, Structural)]
pub enum Direction {
    Up,
    Down,
}

/// The direction that a text in upper case names: up where it holds `UP` or is `1`, and otherwise
/// down where it holds `DOWN` or is `0`.
pub open spec fn direction_of(upper: Seq<char>) -> Option<Direction> {
    if text::contains_text(upper, "UP"@) || upper == "1"@ {
        Some(Direction::Up)
    } else if text::contains_text(upper, "DOWN"@) || upper == "0"@ {
        Some(Direction::Down)
    } else {
        None
    }
}

/// The direction that a text in upper case names.
pub fn direction(upper: &str) -> (direction: Option<Direction>)
    ensures
        direction == direction_of(upper@),
{
    if text::contains(upper, "UP") || text::same_text(upper, "1") {
        Some(Direction::Up)
    } else if text::contains(upper, "DOWN") || text::same_text(upper, "0") {
        Some(Direction::Down)
    } else {
        None
    }
}

/// The last of the tokens whose outcome names the direction, or what was known before.
pub open spec fn last_token(
    tokens: Seq<MarketToken>,
    direction: Direction,
    before: Option<Seq<char>>,
) -> Option<Seq<char>>
    decreases tokens.len(),
{
    if tokens.len() == 0 {
        before
    } else if direction_of(text::uppercase_of(tokens.last().outcome@)) == Some(direction) {
        Some(tokens.last().token_id@)
    } else {
        last_token(tokens.drop_last(), direction, before)
    }
}

/// That `after` is what is known of a market's tokens after its details came, if they came.
pub open spec fn is_updated(before: TokenIds, details: Option<&MarketDetails>, after: TokenIds) -> bool {
    match details {
        Some(d) => {
            &&& text_of(after.up) == last_token(d.tokens@, Direction::Up, text_of(before.up))
            &&& text_of(after.down) == last_token(
                d.tokens@,
                Direction::Down,
                text_of(before.down),
            )
        },
        None => after == before,
    }
}

/// That `price` is what a quote says of a token. Buying costs the ask, and selling brings the bid;
/// there is no price where the token or both sides are unknown.
pub open spec fn is_token_price(
    token_id: Option<String>,
    quote: Quote,
    price: Option<TokenPrice>,
) -> bool {
    if token_id is Some && (quote.buy is Some || quote.sell is Some) {
        &&& price matches Some(p)
        &&& p.token_id@ == token_id->0@
        &&& p.bid == quote.sell
        &&& p.ask == quote.buy
    } else {
        price is None
    }
}

/// That `data` is what the quotes of a market's tokens say.
pub open spec fn is_market_data(
    market: Market,
    name: Seq<char>,
    tokens: TokenIds,
    up: Quote,
    down: Quote,
    data: MarketData,
) -> bool {
    &&& data.condition_id@ == market.condition_id@
    &&& data.market_name@ == name
    &&& is_token_price(tokens.up, up, data.up_token)
    &&& is_token_price(tokens.down, down, data.down_token)
}

/// How a remaining time is written: minutes, where there are any, and seconds.
pub open spec fn remaining_text(seconds: u64) -> Seq<char> {
    if seconds < 60 {
        text::digits(seconds as nat) + "s"@
    } else {
        text::digits((seconds / 60) as nat) + "m "@ + text::digits((seconds % 60) as nat) + "s"@
    }
}

/// A remaining time in words.
pub fn format_remaining_time(seconds: u64) -> (words: String)
    ensures
        words@ == remaining_text(seconds),
{
    let mut words = String::new();
    if seconds >= 60 {
        text::append_number(&mut words, seconds / 60);
        words.append("m ");
        text::append_number(&mut words, seconds % 60);
        words.append("s");
    } else {
        text::append_number(&mut words, seconds);
        words.append("s");
    }
    words
}

/// What a quote says of a token.
pub fn token_price(token_id: &Option<String>, quote: &Quote) -> (price: Option<TokenPrice>)
    ensures
        is_token_price(*token_id, *quote, price),
{
    match token_id {
        Some(id) => {
            if quote.buy.is_some() || quote.sell.is_some() {
                Some(TokenPrice { token_id: id.clone(), bid: quote.sell, ask: quote.buy })
            } else {
                None
            }
        },
        None => None,
    }
}

/// What is known of a market's tokens after its details came.
fn updated_tokens(before: TokenIds, details: &MarketDetails) -> (after: TokenIds)
    ensures
        is_updated(before, Some(details), after),
{
    let mut after = before;
    let mut i: usize = 0;
    while i < details.tokens.len()
        invariant
            i <= details.tokens.len(),
            text_of(after.up) == last_token(
                details.tokens@.take(i as int),
                Direction::Up,
                text_of(before.up),
            ),
            text_of(after.down) == last_token(
                details.tokens@.take(i as int),
                Direction::Down,
                text_of(before.down),
            ),
        decreases details.tokens.len() - i,
    {
        let token = &details.tokens[i];
        let ghost seen = details.tokens@.take(i + 1);
        assert(seen.drop_last() =~= details.tokens@.take(i as int));
        assert(seen.last() == *token);
        let upper = text::to_uppercase(token.outcome.as_str());
        match direction(upper.as_str()) {
            Some(Direction::Up) => {
                after.up = Some(token.token_id.clone());
            },
            Some(Direction::Down) => {
                after.down = Some(token.token_id.clone());
            },
            None => {},
        }
        i += 1;
    }
    assert(details.tokens@.take(i as int) =~= details.tokens@);
    after
}

impl MarketMonitor {
    pub closed spec fn eth(self) -> Market {
        self.eth_market
    }

    pub closed spec fn btc(self) -> Market {
        self.btc_market
    }

    /// The tokens of the ETH market.
    pub closed spec fn eth_ids(self) -> TokenIds {
        self.eth_tokens
    }

    /// The tokens of the BTC market.
    pub closed spec fn btc_ids(self) -> TokenIds {
        self.btc_tokens
    }

    /// How long to wait between two looks at the prices.
    pub closed spec fn interval(self) -> u64 {
        self.check_interval_ms
    }

    /// When the tokens were looked up last.
    pub closed spec fn refreshed(self) -> Option<u64> {
        self.last_market_refresh
    }

    /// The start of the period that the markets are of.
    pub closed spec fn stored_period(self) -> u64 {
        self.current_period_timestamp
    }

    /// That no token is known and none was looked up.
    pub open spec fn is_unlooked(self) -> bool {
        &&& self.eth_ids().up is None
        &&& self.eth_ids().down is None
        &&& self.btc_ids().up is None
        &&& self.btc_ids().down is None
        &&& self.refreshed() is None
    }

    /// Whether the tokens are due to be looked up.
    pub open spec fn is_due(self, now: u64) -> bool {
        match self.refreshed() {
            Some(last) => now - last >= REFRESH_NANOSECONDS,
            None => true,
        }
    }

    /// A monitor of two markets whose tokens are not known yet.
    pub fn new(
        eth_market: Market,
        btc_market: Market,
        check_interval_ms: u64,
        current_time: u64,
    ) -> (monitor: MarketMonitor)
        ensures
            monitor.eth() == eth_market,
            monitor.btc() == btc_market,
            monitor.interval() == check_interval_ms,
            monitor.is_unlooked(),
            monitor.stored_period() == period::start_of(current_time as int),
    {
        MarketMonitor {
            eth_market,
            btc_market,
            check_interval_ms,
            eth_tokens: TokenIds { up: None, down: None },
            btc_tokens: TokenIds { up: None, down: None },
            last_market_refresh: None,
            current_period_timestamp: period::period_start(current_time),
        }
    }

    /// Goes over to the markets of a new period. Their tokens are not known yet.
    pub fn update_markets(&mut self, eth_market: Market, btc_market: Market, current_time: u64)
        ensures
            final(self).eth() == eth_market,
            final(self).btc() == btc_market,
            final(self).interval() == old(self).interval(),
            final(self).is_unlooked(),
            final(self).stored_period() == period::start_of(current_time as int),
    {
        self.eth_market = eth_market;
        self.btc_market = btc_market;
        self.eth_tokens = TokenIds { up: None, down: None };
        self.btc_tokens = TokenIds { up: None, down: None };
        self.last_market_refresh = None;
        self.current_period_timestamp = period::period_start(current_time);
    }

    /// Whether a time falls into another period than the one that the markets are of.
    pub fn should_discover_new_markets(&self, current_time: u64) -> (discover: bool)
        ensures
            discover == (period::start_of(current_time as int) != self.stored_period()),
    {
        period::period_start(current_time) != self.current_period_timestamp
    }

    /// The condition identifiers of the ETH and of the BTC market.
    pub fn get_current_condition_ids(&self) -> (ids: (String, String))
        ensures
            ids.0@ == self.eth().condition_id@,
            ids.1@ == self.btc().condition_id@,
    {
        (self.eth_market.condition_id.clone(), self.btc_market.condition_id.clone())
    }

    /// The time in the slug of the ETH market.
    pub fn get_current_market_timestamp(&self) -> (timestamp: u64)
        ensures
            timestamp == slug_timestamp(self.eth().slug@),
    {
        Self::extract_timestamp_from_slug(self.eth_market.slug.as_str())
    }

    /// How long to wait between two looks at the prices, in milliseconds.
    pub fn check_interval_ms(&self) -> (interval: u64)
        ensures
            interval == self.interval(),
    {
        self.check_interval_ms
    }

    /// The tokens of the ETH market.
    pub fn eth_token_ids(&self) -> (ids: &TokenIds)
        ensures
            *ids == self.eth_ids(),
    {
        &self.eth_tokens
    }

    /// The tokens of the BTC market.
    pub fn btc_token_ids(&self) -> (ids: &TokenIds)
        ensures
            *ids == self.btc_ids(),
    {
        &self.btc_tokens
    }

    /// Whether the tokens are due to be looked up, which they are once each period. `now` is in
    /// nanoseconds on the monotonic clock.
    pub fn needs_refresh(&self, now: u64) -> (due: bool)
        ensures
            due == self.is_due(now),
    {
        match self.last_market_refresh {
            Some(last) => now >= last && now - last >= REFRESH_NANOSECONDS,
            None => true,
        }
    }

    /// Takes the tokens out of the details of the markets, as far as the details could be had.
    pub fn refresh_market_tokens(
        &mut self,
        eth: Option<&MarketDetails>,
        btc: Option<&MarketDetails>,
        now: u64,
    )
        ensures
            is_updated(old(self).eth_ids(), eth, final(self).eth_ids()),
            is_updated(old(self).btc_ids(), btc, final(self).btc_ids()),
            final(self).refreshed() == Some(now),
            final(self).eth() == old(self).eth(),
            final(self).btc() == old(self).btc(),
            final(self).interval() == old(self).interval(),
            final(self).stored_period() == old(self).stored_period(),
    {
        if let Some(details) = eth {
            let before = TokenIds { up: self.eth_tokens.up.take(), down: self.eth_tokens.down.take() };
            self.eth_tokens = updated_tokens(before, details);
        }
        if let Some(details) = btc {
            let before = TokenIds { up: self.btc_tokens.up.take(), down: self.btc_tokens.down.take() };
            self.btc_tokens = updated_tokens(before, details);
        }
        self.last_market_refresh = Some(now);
    }

    /// The snapshot that the quotes of the four tokens make. The remaining time and the period are
    /// those of the ETH market.
    pub fn fetch_market_data(&self, quotes: &Quotes, current_time: u64, timestamp: u64) -> (snapshot:
        MarketSnapshot)
        requires
            slug_timestamp(self.eth().slug@) + PERIOD_SECONDS <= u64::MAX,
        ensures
            is_market_data(
                self.eth(),
                "ETH"@,
                self.eth_ids(),
                quotes.eth_up,
                quotes.eth_down,
                snapshot.eth_market,
            ),
            is_market_data(
                self.btc(),
                "BTC"@,
                self.btc_ids(),
                quotes.btc_up,
                quotes.btc_down,
                snapshot.btc_market,
            ),
            snapshot.timestamp == timestamp,
            snapshot.period_timestamp == slug_timestamp(self.eth().slug@),
            snapshot.time_remaining_seconds == period::left_of(
                slug_timestamp(self.eth().slug@) as int,
                current_time as int,
            ),
            current_time < snapshot.period_timestamp + 900 ==> current_time
                + snapshot.time_remaining_seconds == snapshot.period_timestamp + 900,
            snapshot.eth_market.up_token matches Some(p) ==> p.ask == quotes.eth_up.buy,
            snapshot.eth_market.down_token matches Some(p) ==> p.ask == quotes.eth_down.buy,
            snapshot.btc_market.up_token matches Some(p) ==> p.ask == quotes.btc_up.buy,
            snapshot.btc_market.down_token matches Some(p) ==> p.ask == quotes.btc_down.buy,
    {
        let market_timestamp: u64 = self.get_current_market_timestamp();
        let (eth_condition_id, btc_condition_id) = self.get_current_condition_ids();
        MarketSnapshot {
            eth_market: MarketData {
                condition_id: eth_condition_id,
                market_name: String::from_str("ETH"),
                up_token: token_price(&self.eth_tokens.up, &quotes.eth_up),
                down_token: token_price(&self.eth_tokens.down, &quotes.eth_down),
            },
            btc_market: MarketData {
                condition_id: btc_condition_id,
                market_name: String::from_str("BTC"),
                up_token: token_price(&self.btc_tokens.up, &quotes.btc_up),
                down_token: token_price(&self.btc_tokens.down, &quotes.btc_down),
            },
            timestamp,
            time_remaining_seconds: period::seconds_left(market_timestamp, current_time),
            period_timestamp: market_timestamp,
        }
    }

    /// The time that a market's slug ends in, as in `eth-updown-15m-1767796200`, or 0.
    pub fn extract_timestamp_from_slug(slug: &str) -> (timestamp: u64)
        ensures
            timestamp == slug_timestamp(slug@),
    {
        let chars = text::characters(slug);
        proof {
            text::last_position_is_last(slug@, '-');
        }
        match text::find_last(&chars, '-') {
            Some(dash) => match text::parse_unsigned(&chars, dash + 1) {
                Some(timestamp) => timestamp,
                None => 0,
            },
            None => 0,
        }
    }
}

/// A token has a price where it is known and can be bought or sold: it is bought for what buying
/// costs and sold for what selling brings.
pub proof fn quotes_have_two_sides(token_id: Option<String>, quote: Quote, price: Option<TokenPrice>)
    requires
        is_token_price(token_id, quote, price),
    ensures
        token_id is None ==> price is None,
        quote.buy is None && quote.sell is None ==> price is None,
        token_id is Some && quote.buy is Some ==> price is Some && price->0.ask == quote.buy,
        token_id is Some && quote.sell is Some ==> price is Some && price->0.bid == quote.sell,
        price matches Some(p) ==> {
            &&& p.token_id@ == token_id->0@
            &&& p.ask == quote.buy
            &&& p.bid == quote.sell
        },
{
}

/// Each token of a market gets its own quote: exchanging what is known of the two tokens exchanges
/// their prices, and neither depends on the other's quote.
pub proof fn tokens_get_their_own_quotes(
    market: Market,
    name: Seq<char>,
    tokens: TokenIds,
    up: Quote,
    down: Quote,
    data: MarketData,
    other_down: Quote,
    other: MarketData,
)
    requires
        is_market_data(market, name, tokens, up, down, data),
        is_market_data(market, name, tokens, up, other_down, other),
    ensures
        data.condition_id@ == market.condition_id@,
        data.market_name@ == name,
        data.up_token is Some <==> other.up_token is Some,
        data.up_token matches Some(p) ==> {
            &&& p.ask == up.buy
            &&& p.bid == up.sell
            &&& p.token_id@ == tokens.up->0@
            &&& other.up_token->0.ask == p.ask
            &&& other.up_token->0.bid == p.bid
        },
        data.down_token matches Some(p) ==> {
            &&& p.ask == down.buy
            &&& p.bid == down.sell
            &&& p.token_id@ == tokens.down->0@
        },
        tokens.up is Some && up.buy is Some ==> data.up_token is Some,
        tokens.down is Some && down.buy is Some ==> data.down_token is Some,
{
}

/// A text that holds `UP` or is `1` names up, and one that does not but holds `DOWN` or is `0` names
/// down. Any other text names no direction.
pub proof fn directions_by_words(upper: Seq<char>)
    ensures
        text::contains_text(upper, "UP"@) ==> direction_of(upper) == Some(Direction::Up),
        upper == "1"@ ==> direction_of(upper) == Some(Direction::Up),
        direction_of(upper) == Some(Direction::Up) ==> text::contains_text(upper, "UP"@) || upper
            == "1"@,
        direction_of(upper) == Some(Direction::Down) <==> !text::contains_text(upper, "UP"@) && upper
            != "1"@ && (text::contains_text(upper, "DOWN"@) || upper == "0"@),
{
}

/// The last of the tokens that name a direction is the one that is remembered for it; where none
/// does, what was known before stays.
pub proof fn last_named_token_is_known(
    tokens: Seq<MarketToken>,
    direction: Direction,
    before: Option<Seq<char>>,
    i: int,
)
    requires
        -1 <= i < tokens.len(),
        i >= 0 ==> direction_of(text::uppercase_of(tokens[i].outcome@)) == Some(direction),
        forall|j: int|
            i < j < tokens.len() ==> direction_of(
                text::uppercase_of((#[trigger] tokens[j]).outcome@),
            ) != Some(direction),
    ensures
        i >= 0 ==> last_token(tokens, direction, before) == Some(tokens[i].token_id@),
        i < 0 ==> last_token(tokens, direction, before) == before,
    decreases tokens.len(),
{
    if i < tokens.len() - 1 {
        let front = tokens.drop_last();
        assert(tokens.last() == tokens[tokens.len() - 1]);
        assert forall|j: int| i < j < front.len() implies direction_of(
            text::uppercase_of((#[trigger] front[j]).outcome@),
        ) != Some(direction) by {
            assert(front[j] == tokens[j]);
        }
        last_named_token_is_known(front, direction, before, i);
    }
}

/// Tokens that were looked up are due again after 15 minutes, and not before.
pub proof fn tokens_are_due_each_period(monitor: MarketMonitor, last: u64, now: u64)
    requires
        monitor.refreshed() == Some(last),
    ensures
        monitor.is_due(now) <==> now - last >= 900 * 1_000_000_000,
{
}

/// A remaining time is written as its minutes and the seconds that they leave.
pub proof fn minutes_and_seconds_are_written(minutes: u64, seconds: u64)
    requires
        seconds < 60,
        60 * minutes + seconds <= u64::MAX,
    ensures
        remaining_text((60 * minutes + seconds) as u64) == (if minutes == 0 {
            text::digits(seconds as nat) + "s"@
        } else {
            text::digits(minutes as nat) + "m "@ + text::digits(seconds as nat) + "s"@
        }),
{
}

/// The time of a slug is the number after its last dash, whatever stands before.
pub proof fn slugs_end_in_their_time(slug: Seq<char>, dash: int)
    requires
        0 <= dash < slug.len(),
        slug[dash] == '-',
        forall|i: int| dash < i < slug.len() ==> slug[i] != '-',
    ensures
        slug_timestamp(slug) == (match text::unsigned_value(slug.skip(dash + 1)) {
            Some(timestamp) => timestamp,
            None => 0,
        }),
{
    text::last_position_is_last(slug, '-');
}

/// What was known of a token stays known until a token that names its direction is listed: without
/// details nothing changes, and details that do not name a direction leave it as it was.
pub proof fn lookups_keep_what_is_known(before: TokenIds, details: Option<&MarketDetails>, after: TokenIds)
    requires
        is_updated(before, details, after),
    ensures
        details is None ==> after == before,
        details matches Some(d) ==> {
            &&& (forall|i: int|
                0 <= i < d.tokens.len() ==> direction_of(
                    text::uppercase_of((#[trigger] d.tokens@[i]).outcome@),
                ) != Some(Direction::Up)) ==> text_of(after.up) == text_of(before.up)
            &&& (forall|i: int|
                0 <= i < d.tokens.len() ==> direction_of(
                    text::uppercase_of((#[trigger] d.tokens@[i]).outcome@),
                ) != Some(Direction::Down)) ==> text_of(after.down) == text_of(before.down)
            &&& before.up is Some ==> after.up is Some
            &&& before.down is Some ==> after.down is Some
        },
{
    if let Some(d) = details {
        if forall|i: int|
            0 <= i < d.tokens.len() ==> direction_of(
                text::uppercase_of((#[trigger] d.tokens@[i]).outcome@),
            ) != Some(Direction::Up) {
            last_named_token_is_known(d.tokens@, Direction::Up, text_of(before.up), -1);
        }
        if forall|i: int|
            0 <= i < d.tokens.len() ==> direction_of(
                text::uppercase_of((#[trigger] d.tokens@[i]).outcome@),
            ) != Some(Direction::Down) {
            last_named_token_is_known(d.tokens@, Direction::Down, text_of(before.down), -1);
        }
        lemma_known_stays(d.tokens@, Direction::Up, text_of(before.up));
        lemma_known_stays(d.tokens@, Direction::Down, text_of(before.down));
    }
}

proof fn lemma_known_stays(tokens: Seq<MarketToken>, direction: Direction, before: Option<Seq<char>>)
    ensures
        before is Some ==> last_token(tokens, direction, before) is Some,
    decreases tokens.len(),
{
    if tokens.len() > 0 {
        lemma_known_stays(tokens.drop_last(), direction, before);
    }
}

} // verus!
