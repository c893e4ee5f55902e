use updown_bot::decimal::Decimal;
use updown_bot::models::{MarketData, TokenPrice, TrendStrategy};
use updown_bot::monitor::MarketSnapshot;
use updown_bot::trend::TrendDetector;

fn token(id: &str, ask: &str) -> Option<TokenPrice> {
    Some(TokenPrice { token_id: id.to_string(), bid: None, ask: Decimal::parse(ask) })
}

fn seen(eth: (&str, &str), btc: (&str, &str), period: u64) -> MarketSnapshot {
    MarketSnapshot {
        eth_market: MarketData {
            condition_id: "eth".to_string(),
            market_name: "ETH".to_string(),
            up_token: token("eth up", eth.0),
            down_token: token("eth down", eth.1),
        },
        btc_market: MarketData {
            condition_id: "btc".to_string(),
            market_name: "BTC".to_string(),
            up_token: token("btc up", btc.0),
            down_token: token("btc down", btc.1),
        },
        timestamp: 0,
        time_remaining_seconds: 300,
        period_timestamp: period,
    }
}

fn detector(points: u64, passed: u64) -> TrendDetector {
    TrendDetector::new(Decimal::parse("0.7"), points, passed, Decimal::parse("0.04"))
}

const UP: (&str, &str) = ("0.80", "0.21");

#[test]
fn a_trend_is_bought_after_enough_observations() {
    let mut detector = detector(3, 2);
    let up = seen(UP, ("0.75", "0.26"), 900);
    assert!(detector.detect_opportunities(&up, 1).is_none());
    assert!(detector.detect_opportunities(&up, 2).is_none());
    let found = detector.detect_opportunities(&up, 3).unwrap();
    assert_eq!(found.strategy, TrendStrategy::BothUp);
    assert_eq!(found.eth_higher_token_id, "eth up");
    assert_eq!(found.btc_higher_token_id, "btc up");
    assert_eq!(found.eth_higher_token_price.mantissa(), 80);
    assert_eq!(found.btc_higher_token_price.mantissa(), 75);
    assert_eq!(found.selected_token_id, "eth up");
    assert_eq!(found.selected_token_price.mantissa(), 80);
    assert_eq!(found.selected_condition_id, "eth");
    assert!(detector.detect_opportunities(&up, 4).is_none());
}

#[test]
fn each_purchase_takes_a_whole_analysis() {
    let mut detector = detector(4, 4);
    let up = seen(UP, UP, 900);
    let bought = (0..23).filter(|i| detector.detect_opportunities(&up, *i).is_some()).count();
    assert_eq!(bought, 5);
}

#[test]
fn exactly_the_ends_of_windows_are_bought() {
    let up = seen(UP, UP, 900);
    for (window, passed) in [(1, 0), (1, 1), (2, 2), (3, 1), (5, 5), (3, 4), (1, 2)] {
        let mut detector = detector(window, passed);
        for k in 1..=30 {
            let bought = detector.detect_opportunities(&up, k).is_some();
            assert_eq!(bought, passed <= window && k % window == 0, "{window} {passed} {k}");
        }
    }
}

#[test]
fn the_dearer_token_is_selected() {
    let mut detector = detector(1, 1);
    let down = seen(("0.2", "0.8"), ("0.1", "0.9"), 900);
    let found = detector.detect_opportunities(&down, 1).unwrap();
    assert_eq!(found.strategy, TrendStrategy::BothDown);
    assert_eq!(found.selected_token_id, "btc down");
    assert_eq!(found.selected_condition_id, "btc");
    let equal = seen(("0.2", "0.8"), ("0.1", "0.80"), 900);
    assert_eq!(detector.detect_opportunities(&equal, 2).unwrap().selected_token_id, "eth down");
}

#[test]
fn a_fall_below_the_threshold_starts_over() {
    let mut detector = detector(2, 2);
    assert!(detector.detect_opportunities(&seen(UP, UP, 900), 1).is_none());
    assert!(detector.detect_opportunities(&seen(("0.69", "0.3"), UP, 900), 2).is_none());
    assert!(detector.detect_opportunities(&seen(UP, UP, 900), 3).is_none());
    assert!(detector.detect_opportunities(&seen(UP, UP, 900), 4).is_some());
}

#[test]
fn opposite_trends_change_nothing() {
    let mut detector = detector(2, 2);
    assert!(detector.detect_opportunities(&seen(UP, UP, 900), 1).is_none());
    assert!(detector.detect_opportunities(&seen(UP, ("0.2", "0.8"), 900), 2).is_none());
    let mut missing = seen(UP, UP, 900);
    missing.eth_market.up_token = None;
    assert!(detector.detect_opportunities(&missing, 3).is_none());
    assert!(detector.detect_opportunities(&seen(UP, UP, 900), 4).is_some());
}

#[test]
fn a_new_period_starts_over() {
    let mut detector = detector(2, 2);
    assert!(detector.detect_opportunities(&seen(UP, UP, 900), 1).is_none());
    assert!(detector.detect_opportunities(&seen(UP, UP, 1800), 2).is_none());
    detector.reset_period(1800);
    assert!(detector.detect_opportunities(&seen(UP, UP, 1800), 3).is_none());
    assert!(detector.detect_opportunities(&seen(UP, UP, 1800), 4).is_some());
}

#[test]
fn profit_has_to_be_left() {
    let mut detector = detector(1, 1);
    assert!(detector.detect_opportunities(&seen(("0.97", "0.04"), UP, 900), 1).is_none());
    assert!(detector.detect_opportunities(&seen(("0.96", "0.05"), UP, 900), 2).is_some());
}

#[test]
fn more_passes_than_observations_are_never_reached() {
    let mut detector = detector(2, 3);
    for i in 0..10 {
        assert!(detector.detect_opportunities(&seen(UP, UP, 900), i).is_none());
    }
}

#[test]
fn thresholds_that_are_no_numbers_have_defaults() {
    let mut detector = TrendDetector::new(None, 1, 1, None);
    assert!(detector.detect_opportunities(&seen(("0.69", "0.3"), UP, 900), 1).is_none());
    assert!(detector.detect_opportunities(&seen(("0.70", "0.3"), UP, 900), 1).is_some());
    assert!(detector.detect_opportunities(&seen(("0.961", "0.05"), UP, 900), 2).is_none());
}
