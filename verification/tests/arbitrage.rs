use updown_bot::arbitrage::ArbitrageDetector;
use updown_bot::decimal::Decimal;
use updown_bot::models::{ArbitrageStrategy, MarketData, TokenPrice};
use updown_bot::monitor::MarketSnapshot;

fn token(id: &str, ask: &str) -> Option<TokenPrice> {
    Some(TokenPrice { token_id: id.to_string(), bid: None, ask: Decimal::parse(ask) })
}

fn offer(eth: (&str, &str), btc: (&str, &str), left: u64) -> MarketSnapshot {
    MarketSnapshot {
        eth_market: MarketData {
            condition_id: "eth".to_string(),
            market_name: "ETH".to_string(),
            up_token: token("eth up", eth.0),
            down_token: token("eth down", eth.1),
        },
        btc_market: MarketData {
            condition_id: "btc".to_string(),
            market_name: "BTC".to_string(),
            up_token: token("btc up", btc.0),
            down_token: token("btc down", btc.1),
        },
        timestamp: 0,
        time_remaining_seconds: left,
        period_timestamp: 900,
    }
}

fn watcher() -> ArbitrageDetector {
    ArbitrageDetector::new(Decimal::parse("0.02"), 600, 180, Decimal::parse("0.45"))
}

#[test]
fn a_cheap_pair_is_an_opportunity() {
    let found = watcher().detect_opportunities(&offer(("0.70", "0.40"), ("0.70", "0.25"), 600));
    assert_eq!(found.len(), 1);
    let pair = &found[0];
    assert_eq!(pair.strategy, ArbitrageStrategy::EthUpBtcDown);
    assert_eq!(pair.eth_token_id, "eth up");
    assert_eq!(pair.btc_token_id, "btc down");
    assert_eq!(pair.eth_condition_id, "eth");
    assert_eq!(pair.btc_condition_id, "btc");
    assert_eq!((pair.eth_token_price.mantissa(), pair.btc_token_price.mantissa()), (70, 25));
    assert_eq!((pair.total_cost.mantissa(), pair.total_cost.scale()), (95, 2));
    assert_eq!((pair.expected_profit.mantissa(), pair.expected_profit.scale()), (5, 2));
}

#[test]
fn both_pairs_can_be_opportunities() {
    let found = watcher().detect_opportunities(&offer(("0.70", "0.65"), ("0.30", "0.25"), 100));
    assert_eq!(found.len(), 2);
    assert_eq!(found[0].strategy, ArbitrageStrategy::EthUpBtcDown);
    assert_eq!(found[1].strategy, ArbitrageStrategy::EthDownBtcUp);
    assert_eq!(found[1].total_cost.mantissa(), 95);
}

#[test]
fn pairs_that_are_refused() {
    // Too early in the period.
    assert!(watcher().detect_opportunities(&offer(("0.70", "0.9"), ("0.9", "0.25"), 601)).is_empty());
    // Neither token costs 0.65.
    assert!(watcher().detect_opportunities(&offer(("0.64", "0.9"), ("0.9", "0.25"), 500)).is_empty());
    // Together they cost one or more.
    assert!(watcher().detect_opportunities(&offer(("0.70", "0.9"), ("0.9", "0.30"), 500)).is_empty());
    // Not enough is left.
    assert!(watcher().detect_opportunities(&offer(("0.70", "0.9"), ("0.9", "0.281"), 500)).is_empty());
    assert_eq!(watcher().detect_opportunities(&offer(("0.70", "0.9"), ("0.9", "0.28"), 500)).len(), 1);
    // A token is missing.
    let mut missing = offer(("0.70", "0.9"), ("0.9", "0.25"), 500);
    missing.btc_market.down_token = None;
    assert!(watcher().detect_opportunities(&missing).is_empty());
}

#[test]
fn a_danger_signal_blocks_the_period() {
    let mut detector = watcher();
    let good = offer(("0.70", "0.90"), ("0.90", "0.25"), 170);
    assert_eq!(detector.detect_opportunities(&good).len(), 1);
    let danger = offer(("0.45", "0.90"), ("0.90", "0.45"), 179);
    assert!(detector.detect_opportunities(&danger).is_empty());
    assert!(detector.detect_opportunities(&good).is_empty());
    assert!(detector.detect_opportunities(&good).is_empty());
    let mut next = good.clone();
    next.period_timestamp = 1800;
    assert_eq!(detector.detect_opportunities(&next).len(), 1);
    detector.reset_period(900);
    assert_eq!(detector.detect_opportunities(&good).len(), 1);
}

#[test]
fn there_is_no_danger_with_time_left() {
    let mut detector = watcher();
    let cheap = offer(("0.45", "0.90"), ("0.90", "0.45"), 180);
    assert!(detector.detect_opportunities(&cheap).is_empty());
    assert_eq!(detector.detect_opportunities(&offer(("0.70", "0.90"), ("0.90", "0.25"), 170)).len(), 1);
}

#[test]
fn arbitrage_thresholds_have_defaults() {
    let mut detector = ArbitrageDetector::new(None, 600, 180, None);
    assert_eq!(detector.detect_opportunities(&offer(("0.70", "0.90"), ("0.90", "0.29"), 500)).len(), 1);
    assert!(detector.detect_opportunities(&offer(("0.70", "0.90"), ("0.90", "0.291"), 500)).is_empty());
    assert!(detector.detect_opportunities(&offer(("0.45", "0.90"), ("0.90", "0.45"), 10)).is_empty());
    assert!(detector.detect_opportunities(&offer(("0.70", "0.90"), ("0.90", "0.29"), 5)).is_empty());
}
