use updown_bot::decimal::Decimal;
use updown_bot::detector::PriceDetector;
use updown_bot::float::Float64;
use updown_bot::models::{MarketData, TokenPrice};
use updown_bot::monitor::MarketSnapshot;

fn of(x: f64) -> Float64 {
    Float64 { bits: x.to_bits() }
}

fn token(id: &str, ask: &str) -> Option<TokenPrice> {
    Some(TokenPrice { token_id: id.to_string(), bid: None, ask: Decimal::parse(ask) })
}

fn snapshot(eth: (&str, &str), btc: (&str, &str), left: u64) -> MarketSnapshot {
    MarketSnapshot {
        eth_market: MarketData {
            condition_id: "eth condition".to_string(),
            market_name: "ETH".to_string(),
            up_token: token("eth up", eth.0),
            down_token: token("eth down", eth.1),
        },
        btc_market: MarketData {
            condition_id: "btc condition".to_string(),
            market_name: "BTC".to_string(),
            up_token: token("btc up", btc.0),
            down_token: token("btc down", btc.1),
        },
        timestamp: 1,
        time_remaining_seconds: left,
        period_timestamp: 1767796200,
    }
}

fn detector() -> PriceDetector {
    PriceDetector::new(of(0.99), 90)
}

#[test]
fn the_lower_eth_token_is_bought() {
    let buy = detector().detect_opportunity(&snapshot(("0.99", "0.02"), ("0.90", "0.11"), 300)).unwrap();
    assert_eq!(buy.eth_condition_id, "eth condition");
    assert_eq!(buy.token_to_buy_id, "eth down");
    assert_eq!(buy.token_to_buy_price, of(0.02));
    assert_eq!(buy.difference_d, of(0.99 - 0.90));
    assert_eq!(buy.period_timestamp, 1767796200);
    assert_eq!(buy.time_remaining_seconds, 300);
    let buy = detector().detect_opportunity(&snapshot(("0.01", "0.995"), ("0.5", "0.5"), 300)).unwrap();
    assert_eq!(buy.token_to_buy_id, "eth up");
    assert_eq!(buy.difference_d, of(0.995 - 0.5));
}

#[test]
fn the_trigger_price_has_to_be_reached() {
    assert!(detector().detect_opportunity(&snapshot(("0.98", "0.03"), ("0.5", "0.5"), 300)).is_none());
    assert!(detector().detect_opportunity(&snapshot(("0.9899999", "0.03"), ("0.5", "0.5"), 300)).is_none());
}

#[test]
fn a_lead_of_one_cent_is_needed() {
    // In floating point 0.99 less 0.98 is just above 0.01.
    assert!(detector().detect_opportunity(&snapshot(("0.99", "0.02"), ("0.99", "0.02"), 300)).is_none());
    assert!(detector().detect_opportunity(&snapshot(("0.99", "0.02"), ("0.995", "0.02"), 300)).is_none());
    assert!(detector().detect_opportunity(&snapshot(("0.99", "0.02"), ("0.98", "0.02"), 300)).is_some());
}

#[test]
fn a_small_lead_needs_time() {
    let small = ("0.95", "0.06");
    assert!(detector().detect_opportunity(&snapshot(("0.99", "0.02"), small, 91)).is_some());
    assert!(detector().detect_opportunity(&snapshot(("0.99", "0.02"), small, 90)).is_none());
    let large = ("0.90", "0.11");
    assert!(detector().detect_opportunity(&snapshot(("0.99", "0.02"), large, 1)).is_some());
    assert!(detector().detect_opportunity(&snapshot(("0.99", "0.02"), large, 0)).is_none());
}

#[test]
fn missing_tokens_are_not_bought_on() {
    let mut s = snapshot(("0.99", "0.02"), ("0.90", "0.11"), 300);
    s.btc_market.down_token = None;
    assert!(detector().detect_opportunity(&s).is_none());
    let mut s = snapshot(("0.99", "0.02"), ("0.90", "0.11"), 300);
    s.eth_market.down_token = None;
    assert!(detector().detect_opportunity(&s).is_none());
    let mut s = snapshot(("0.99", "0.02"), ("0.90", "0.11"), 300);
    s.eth_market.down_token = Some(TokenPrice { token_id: "eth down".to_string(), bid: None, ask: None });
    assert_eq!(detector().detect_opportunity(&s).unwrap().token_to_buy_price, of(0.0));
}

#[test]
fn a_trigger_that_is_no_number_is_always_reached() {
    let detector = PriceDetector::new(of(f64::NAN), 90);
    assert!(detector.detect_opportunity(&snapshot(("0.60", "0.41"), ("0.40", "0.61"), 300)).is_some());
}

#[test]
fn one_purchase_in_a_period() {
    let mut detector = detector();
    let s = snapshot(("0.99", "0.02"), ("0.90", "0.11"), 300);
    assert!(detector.detect_opportunity(&s).is_some());
    detector.mark_period_bought(s.period_timestamp);
    assert!(detector.detect_opportunity(&s).is_none());
    let mut next = s.clone();
    next.period_timestamp += 900;
    assert!(detector.detect_opportunity(&next).is_some());
    detector.reset_period();
    assert!(detector.detect_opportunity(&s).is_some());
}
