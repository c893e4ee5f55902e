//! The data that the exchange reports and that the strategies work on.
use crate::decimal::{self, Decimal};
use crate::float::Float64;
use vstd::prelude::*;

verus! {

/// A market as the market listing describes it.
#[derive(Clone, Debug)]
pub struct Market {
    pub condition_id: String,
    /// A number, as text.
    pub market_id: Option<String>,
    pub question: String,
    pub slug: String,
    pub resolution_source: Option<String>,
    pub end_date_iso: Option<String>,
    pub end_date_iso_alt: Option<String>,
    pub active: bool,
    pub closed: bool,
    pub tokens: Option<Vec<Token>>,
    /// A JSON array of strings, as text.
    pub clob_token_ids: Option<String>,
    /// A JSON array of strings, as text.
    pub outcomes: Option<String>,
}

#[derive(Clone, Debug)]
pub struct Token {
    pub token_id: String,
    pub outcome: String,
    pub price: Option<Decimal>,
}

#[derive(Clone, Debug)]
pub struct OrderBook {
    pub bids: Vec<OrderBookEntry>,
    pub asks: Vec<OrderBookEntry>,
}

#[derive(Clone, Copy, Debug)]
pub struct OrderBookEntry {
    pub price: Decimal,
    pub size: Decimal,
}

/// The prices at which a token can be sold (`bid`) and bought (`ask`).
#[derive(Clone, Debug)]
pub struct TokenPrice {
    pub token_id: String,
    pub bid: Option<Decimal>,
    pub ask: Option<Decimal>,
}

/// An order before it is signed.
#[derive(Clone, Debug)]
pub struct OrderRequest {
    pub token_id: String,
    /// `BUY` or `SELL`.
    pub side: String,
    pub size: String,
    pub price: String,
    /// `LIMIT` or `MARKET`.
    pub order_type: String,
}

/// An order that is to be executed at once, at the price that the market has.
#[derive(Clone, Debug)]
pub struct MarketOrder {
    pub token_id: String,
    pub amount: Float64,
    /// `BUY` or `SELL`.
    pub side: String,
    /// `FOK`, to be filled completely or not at all, or `FAK`, to be filled as far as it can be.
    pub order_type: Option<String>,
}

/// An order with the fields that signing fills in.
#[derive(Clone, Debug)]
pub struct SignedOrder {
    pub token_id: String,
    /// `BUY` or `SELL`.
    pub side: String,
    pub size: String,
    pub price: String,
    /// `LIMIT` or `MARKET`.
    pub order_type: String,
    pub signature: Option<String>,
    /// The address that belongs to the signing key.
    pub signer: Option<String>,
    pub nonce: Option<u64>,
    pub expiration: Option<u64>,
}

#[derive(Clone, Debug)]
pub struct OrderResponse {
    pub order_id: Option<String>,
    pub status: String,
    pub message: Option<String>,
}

#[derive(Clone, Debug)]
pub struct BalanceResponse {
    pub balance: String,
    pub allowance: String,
}

#[derive(Clone, Debug)]
pub struct RedeemResponse {
    pub success: bool,
    pub message: Option<String>,
    pub transaction_hash: Option<String>,
    pub amount_redeemed: Option<String>,
}

/// The current prices of a market's two tokens.
#[derive(Clone, Debug)]
pub struct MarketData {
    pub condition_id: String,
    pub market_name: String,
    pub up_token: Option<TokenPrice>,
    pub down_token: Option<TokenPrice>,
}

/// Which way both markets trend.
#[derive(Clone, Copy, Debug, PartialEq, Eq, Structural)]
pub enum TrendStrategy {
    BothUp,
    BothDown,
}

#[derive(Clone, Debug)]
pub struct TrendOpportunity {
    pub strategy: TrendStrategy,
    /// Price of the ETH market's higher token.
    pub eth_higher_token_price: Decimal,
    /// Price of the BTC market's higher token.
    pub btc_higher_token_price: Decimal,
    pub eth_higher_token_id: String,
    pub btc_higher_token_id: String,
    pub eth_condition_id: String,
    pub btc_condition_id: String,
    /// The token to buy, the higher priced of the two.
    pub selected_token_id: String,
    pub selected_token_price: Decimal,
    /// The market of the token to buy.
    pub selected_condition_id: String,
}

/// Which pair of opposite tokens is bought together.
#[derive(Clone, Copy, Debug, PartialEq, Eq, Structural)]
pub enum ArbitrageStrategy {
    EthUpBtcDown,
    EthDownBtcUp,
}

#[derive(Clone, Debug)]
pub struct ArbitrageOpportunity {
    pub strategy: ArbitrageStrategy,
    pub eth_token_price: Decimal,
    pub btc_token_price: Decimal,
    pub total_cost: Decimal,
    pub expected_profit: Decimal,
    pub eth_token_id: String,
    pub btc_token_id: String,
    pub eth_condition_id: String,
    pub btc_condition_id: String,
}

/// A purchase that is not sold off yet.
#[derive(Clone, Debug)]
pub struct PendingTrade {
    pub token_id: String,
    pub condition_id: String,
    pub investment_amount: Float64,
    pub total_units: Float64,
    pub remaining_units: Float64,
    pub purchase_price: Float64,
    /// By how much the ETH price led the BTC price when the token was bought.
    pub difference_d: Float64,
    /// When the trade was made, in nanoseconds on the monotonic clock.
    pub timestamp: u64,
    /// The start of the 15-minute period of the market, which closes 900 seconds later.
    pub market_timestamp: u64,
    /// The prices at which parts of the holding are sold, in the order in which they are waited
    /// for.
    pub sell_points: Vec<Float64>,
    /// The share to sell at each of the prices.
    pub sell_percentages: Vec<Float64>,
    /// The first of the prices that was not reached yet.
    pub next_sell_index: usize,
}

/// A purchase of the opposite token, made when an emergency sale is triggered.
#[derive(Clone, Debug)]
pub struct OppositeSideTrade {
    pub token_id: String,
    pub condition_id: String,
    pub investment_amount: Float64,
    pub units: Float64,
    pub purchase_price: Float64,
    /// When the trade was made, in nanoseconds on the monotonic clock.
    pub timestamp: u64,
    pub market_timestamp: u64,
    pub sold: bool,
    /// The trending token whose fall triggered the emergency sale.
    pub original_trend_token_id: String,
}

#[derive(Clone, Debug)]
pub struct MarketToken {
    pub outcome: String,
    pub price: Decimal,
    pub token_id: String,
    pub winner: bool,
}

/// A market as the order book service describes it.
#[derive(Clone, Debug)]
pub struct MarketDetails {
    pub accepting_order_timestamp: Option<String>,
    pub accepting_orders: bool,
    pub active: bool,
    pub archived: bool,
    pub closed: bool,
    pub condition_id: String,
    pub description: String,
    pub enable_order_book: bool,
    pub end_date_iso: String,
    pub fpmm: String,
    pub game_start_time: Option<String>,
    pub icon: String,
    pub image: String,
    pub is_50_50_outcome: bool,
    pub maker_base_fee: Decimal,
    pub market_slug: String,
    pub minimum_order_size: Decimal,
    pub minimum_tick_size: Decimal,
    pub neg_risk: bool,
    pub neg_risk_market_id: String,
    pub neg_risk_request_id: String,
    pub notifications_enabled: bool,
    pub question: String,
    pub question_id: String,
    pub rewards: Rewards,
    pub seconds_delay: u32,
    pub tags: Vec<String>,
    pub taker_base_fee: Decimal,
    pub tokens: Vec<MarketToken>,
}

#[derive(Clone, Debug)]
pub struct Rewards {
    pub max_spread: Decimal,
    pub min_size: Decimal,
    /// A JSON document of any shape, as text.
    pub rates: Option<String>,
}

impl TokenPrice {
    /// The price that buying is taken to cost: the ask, or zero where there is none.
    pub open spec fn ask_units(self) -> int {
        match self.ask {
            Some(ask) => ask.units(),
            None => 0,
        }
    }

    /// How many fractional digits that price has.
    pub open spec fn ask_scale(self) -> int {
        match self.ask {
            Some(ask) => ask.s(),
            None => 0,
        }
    }

    /// The middle between bid and ask, or the one of the two that there is.
    pub fn mid_price(&self) -> (price: Option<Decimal>)
        requires
            self.bid is Some && self.ask is Some ==> decimal::result_fits(
                self.bid->0.units() + self.ask->0.units(),
            ),
        ensures
            match (self.bid, self.ask) {
                (Some(bid), Some(ask)) => price is Some && is_middle(bid, ask, price->0),
                (Some(bid), None) => price == Some(bid),
                (None, Some(ask)) => price == Some(ask),
                (None, None) => price is None,
            },
    {
        match (self.bid, self.ask) {
            (Some(bid), Some(ask)) => Some(bid.plus(ask).half()),
            (Some(bid), None) => Some(bid),
            (None, Some(ask)) => Some(ask),
            (None, None) => None,
        }
    }

    /// The ask, or zero where there is none.
    pub fn ask_price(&self) -> (price: Decimal)
        ensures
            price.units() == self.ask_units(),
            price.s() == self.ask_scale(),
            match self.ask {
                Some(ask) => price == ask,
                None => price.m() == 0 && price.s() == 0,
            },
    {
        match self.ask {
            Some(ask) => ask,
            None => Decimal::zero(),
        }
    }
}

/// That `r` is half of the sum of two prices, where the sum is rounded as decimal sums are.
pub open spec fn is_middle(a: Decimal, b: Decimal, r: Decimal) -> bool {
    exists|sum: Decimal| #[trigger]
        decimal::is_sum(a, b, sum) && r.units() == decimal::half_units(sum) && r.s()
            == decimal::quotient_scale(sum.m(), sum.s(), 2)
}

/// The middle of two prices between zero and one is their mean, exactly, where neither has all of
/// the fractional digits that there can be.
pub proof fn middle_is_the_mean(bid: Decimal, ask: Decimal, middle: Decimal)
    requires
        bid.valid(),
        ask.valid(),
        bid.s() < decimal::MAX_SCALE,
        ask.s() < decimal::MAX_SCALE,
        0 <= bid.units() <= decimal::one_units(),
        0 <= ask.units() <= decimal::one_units(),
        is_middle(bid, ask, middle),
    ensures
        2 * middle.units() == bid.units() + ask.units(),
{
    let sum = choose|sum: Decimal| #[trigger]
        decimal::is_sum(bid, ask, sum) && middle.units() == decimal::half_units(sum) && middle.s()
            == decimal::quotient_scale(sum.m(), sum.s(), 2);
    decimal::small_sums_halve(bid, ask, sum);
}

} // verus!
