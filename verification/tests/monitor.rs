use updown_bot::decimal::Decimal;
use updown_bot::bot::{complete_purchase, enter_period, seconds_to_next_period};
use updown_bot::config::Config;
use updown_bot::discovery::{get_or_discover_markets, market_slug, DiscoveryError, MarketSearch, SearchStep};
use updown_bot::detector::{BuyOpportunity, PriceDetector};
use updown_bot::float::Float64;
use updown_bot::models::{Market, MarketDetails, MarketToken, Rewards};
use updown_bot::monitor::{direction, format_remaining_time, token_price, Direction, MarketMonitor, Quote, Quotes};
use updown_bot::period::{period_start, seconds_left};
use updown_bot::trader::{TradeError, Trader};

const PERIOD: u64 = 1767796200;

fn market(prefix: &str, id: &str) -> Market {
    Market {
        condition_id: id.to_string(),
        market_id: None,
        question: String::new(),
        slug: format!("{prefix}-updown-15m-{PERIOD}"),
        resolution_source: None,
        end_date_iso: None,
        end_date_iso_alt: None,
        active: true,
        closed: false,
        tokens: None,
        clob_token_ids: None,
        outcomes: None,
    }
}

fn details(tokens: &[(&str, &str)]) -> MarketDetails {
    let zero = Decimal::zero;
    MarketDetails {
        accepting_order_timestamp: None,
        accepting_orders: true,
        active: true,
        archived: false,
        closed: false,
        condition_id: "condition".to_string(),
        description: String::new(),
        enable_order_book: true,
        end_date_iso: String::new(),
        fpmm: String::new(),
        game_start_time: None,
        icon: String::new(),
        image: String::new(),
        is_50_50_outcome: false,
        maker_base_fee: zero(),
        market_slug: String::new(),
        minimum_order_size: zero(),
        minimum_tick_size: zero(),
        neg_risk: false,
        neg_risk_market_id: String::new(),
        neg_risk_request_id: String::new(),
        notifications_enabled: false,
        question: String::new(),
        question_id: String::new(),
        rewards: Rewards { max_spread: zero(), min_size: zero(), rates: None },
        seconds_delay: 0,
        tags: Vec::new(),
        taker_base_fee: zero(),
        tokens: tokens
            .iter()
            .map(|(outcome, id)| MarketToken {
                outcome: outcome.to_string(),
                price: zero(),
                token_id: id.to_string(),
                winner: false,
            })
            .collect(),
    }
}

fn monitor() -> MarketMonitor {
    MarketMonitor::new(market("eth", "eth condition"), market("btc", "btc condition"), 1000, PERIOD + 12)
}

fn number(text: &str) -> Option<Decimal> {
    Decimal::parse(text)
}

fn quote(buy: &str, sell: &str) -> Quote {
    Quote { buy: number(buy), sell: number(sell) }
}

#[test]
fn periods_of_times() {
    assert_eq!(period_start(PERIOD), PERIOD);
    assert_eq!(period_start(PERIOD + 899), PERIOD);
    assert_eq!(period_start(PERIOD + 900), PERIOD + 900);
    assert_eq!(period_start(899), 0);
    assert_eq!(seconds_left(PERIOD, PERIOD), 900);
    assert_eq!(seconds_left(PERIOD, PERIOD + 899), 1);
    assert_eq!(seconds_left(PERIOD, PERIOD + 900), 0);
    assert_eq!(seconds_left(PERIOD, PERIOD + 5000), 0);
    assert_eq!(seconds_left(PERIOD, PERIOD - 100), 1000);
}

#[test]
fn timestamps_in_slugs() {
    assert_eq!(MarketMonitor::extract_timestamp_from_slug("eth-updown-15m-1767796200"), 1767796200);
    assert_eq!(MarketMonitor::extract_timestamp_from_slug("1767796200"), 0);
    assert_eq!(MarketMonitor::extract_timestamp_from_slug("eth-updown-15m-"), 0);
    assert_eq!(MarketMonitor::extract_timestamp_from_slug("eth-updown-15m"), 0);
    assert_eq!(MarketMonitor::extract_timestamp_from_slug("eth-99999999999999999999"), 0);
    assert_eq!(MarketMonitor::extract_timestamp_from_slug("eth-+5"), 5);
    assert_eq!(MarketMonitor::extract_timestamp_from_slug(""), 0);
}

#[test]
fn slugs_hold_their_timestamps() {
    assert_eq!(market_slug("btc", 1767726000), "btc-updown-15m-1767726000");
    for start in [0, 900, PERIOD, u64::MAX] {
        assert_eq!(MarketMonitor::extract_timestamp_from_slug(&market_slug("eth", start)), start);
        assert_eq!(MarketMonitor::extract_timestamp_from_slug(&market_slug("a-b-7", start)), start);
    }
}

#[test]
fn remaining_time_in_words() {
    assert_eq!(format_remaining_time(0), "0s");
    assert_eq!(format_remaining_time(59), "59s");
    assert_eq!(format_remaining_time(60), "1m 0s");
    assert_eq!(format_remaining_time(899), "14m 59s");
}

#[test]
fn a_new_period_calls_for_new_markets() {
    let mut monitor = monitor();
    assert!(!monitor.should_discover_new_markets(PERIOD + 899));
    assert!(monitor.should_discover_new_markets(PERIOD + 900));
    assert_eq!(monitor.get_current_market_timestamp(), PERIOD);
    assert_eq!(
        monitor.get_current_condition_ids(),
        ("eth condition".to_string(), "btc condition".to_string())
    );
    assert_eq!(monitor.check_interval_ms(), 1000);
    monitor.update_markets(market("eth", "eth 2"), market("btc", "btc 2"), PERIOD + 905);
    assert!(!monitor.should_discover_new_markets(PERIOD + 900));
    assert_eq!(monitor.get_current_condition_ids(), ("eth 2".to_string(), "btc 2".to_string()));
}

#[test]
fn tokens_are_looked_up_once_a_period() {
    let mut monitor = monitor();
    assert!(monitor.needs_refresh(7));
    let eth = details(&[("Up", "up"), ("down", "down")]);
    monitor.refresh_market_tokens(Some(&eth), None, 7);
    assert!(!monitor.needs_refresh(7));
    assert!(!monitor.needs_refresh(7 + 899_999_999_999));
    assert!(monitor.needs_refresh(7 + 900_000_000_000));
    assert!(!monitor.needs_refresh(0));
    assert_eq!(monitor.eth_token_ids().up.as_deref(), Some("up"));
    assert_eq!(monitor.eth_token_ids().down.as_deref(), Some("down"));
    assert!(monitor.btc_token_ids().up.is_none());
    monitor.update_markets(market("eth", "eth 2"), market("btc", "btc 2"), PERIOD + 905);
    assert!(monitor.eth_token_ids().up.is_none());
    assert!(monitor.needs_refresh(8));
}

#[test]
fn outcomes_name_tokens_in_any_case() {
    let mut monitor = monitor();
    let btc = details(&[("1", "first"), ("0", "zero"), ("neither", "x"), ("going up", "last up"), ("Downward", "d")]);
    monitor.refresh_market_tokens(None, Some(&btc), 1);
    assert_eq!(monitor.btc_token_ids().up.as_deref(), Some("last up"));
    assert_eq!(monitor.btc_token_ids().down.as_deref(), Some("d"));
    monitor.refresh_market_tokens(None, Some(&details(&[("up and down", "both")])), 2);
    assert_eq!(monitor.btc_token_ids().up.as_deref(), Some("both"));
    assert_eq!(monitor.btc_token_ids().down.as_deref(), Some("d"));
}

#[test]
fn directions_that_texts_name() {
    for (text, named) in [
        ("UP", Some(Direction::Up)),
        ("GOING UP", Some(Direction::Up)),
        ("1", Some(Direction::Up)),
        ("UP OR DOWN", Some(Direction::Up)),
        ("DOWN", Some(Direction::Down)),
        ("0", Some(Direction::Down)),
        ("10", None),
        ("up", None),
        ("", None),
    ] {
        assert_eq!(direction(text), named, "{text}");
    }
}

#[test]
fn quotes_of_a_token() {
    let id = Some("token".to_string());
    let none = Quote { buy: None, sell: None };
    let price = token_price(&id, &quote("0.51", "0.49")).unwrap();
    assert_eq!(price.token_id, "token");
    assert_eq!(price.ask.unwrap().mantissa(), 51);
    assert_eq!(price.bid.unwrap().mantissa(), 49);
    assert!(token_price(&id, &none).is_none());
    assert!(token_price(&None, &quote("0.51", "0.49")).is_none());
    let one_sided = token_price(&id, &Quote { buy: None, sell: number("0.49") }).unwrap();
    assert!(one_sided.ask.is_none());
}

#[test]
fn a_snapshot_of_both_markets() {
    let mut monitor = monitor();
    monitor.refresh_market_tokens(
        Some(&details(&[("Up", "eu"), ("Down", "ed")])),
        Some(&details(&[("Up", "bu"), ("Down", "bd")])),
        7,
    );
    let quotes = Quotes {
        eth_up: quote("0.99", "0.98"),
        eth_down: quote("0.02", "0.01"),
        btc_up: quote("0.90", "0.89"),
        btc_down: Quote { buy: None, sell: None },
    };
    let snapshot = monitor.fetch_market_data(&quotes, PERIOD + 100, 77);
    assert_eq!(snapshot.eth_market.condition_id, "eth condition");
    assert_eq!(snapshot.eth_market.market_name, "ETH");
    assert_eq!(snapshot.eth_market.up_token.unwrap().token_id, "eu");
    assert_eq!(snapshot.eth_market.down_token.unwrap().token_id, "ed");
    assert_eq!(snapshot.btc_market.market_name, "BTC");
    assert_eq!(snapshot.btc_market.up_token.unwrap().token_id, "bu");
    assert!(snapshot.btc_market.down_token.is_none());
    assert_eq!(snapshot.timestamp, 77);
    assert_eq!(snapshot.time_remaining_seconds, 800);
    assert_eq!(snapshot.period_timestamp, PERIOD);
}

#[test]
fn the_current_market_is_searched_first() {
    let search = MarketSearch::new("ETH", "eth", PERIOD + 5);
    assert_eq!(search.slug(), "eth-updown-15m-1767796200");
    match search.discover_market(Some(market("eth", "id")), &Vec::new()) {
        SearchStep::Found(found) => assert_eq!(found.condition_id, "id"),
        other => panic!("{other:?}"),
    }
}

#[test]
fn earlier_markets_are_searched_next() {
    let mut search = MarketSearch::new("BTC", "btc", PERIOD + 5);
    let mut closed = market("btc", "closed");
    closed.closed = true;
    let mut inactive = market("btc", "inactive");
    inactive.active = false;
    let seen = vec!["seen".to_string()];
    let found = [None, Some(closed), Some(inactive)];
    for (i, answer) in found.into_iter().enumerate() {
        assert_eq!(search.slug(), format!("btc-updown-15m-{}", PERIOD - 900 * i as u64));
        search = match search.discover_market(answer, &seen) {
            SearchStep::Continue(next) => next,
            other => panic!("{other:?}"),
        };
    }
    assert_eq!(search.slug(), format!("btc-updown-15m-{}", PERIOD - 2700));
    match search.discover_market(Some(market("btc", "seen")), &seen) {
        SearchStep::Failed(error) => assert_eq!(
            error.message(),
            "Could not find active BTC 15-minute up/down market. Please set condition_id in config.json"
        ),
        other => panic!("{other:?}"),
    }
}

#[test]
fn a_pair_has_two_markets() {
    assert!(get_or_discover_markets(market("eth", "a"), market("btc", "b")).is_ok());
    match get_or_discover_markets(market("eth", "a"), market("btc", "a")) {
        Err(error) => {
            assert!(matches!(&error, DiscoveryError::SameCondition { condition_id } if condition_id == "a"));
            assert_eq!(
                error.message(),
                "ETH and BTC markets have the same condition ID: a. This is incorrect. Please set condition IDs manually in config.json"
            );
        }
        Ok(_) => panic!("one market is no pair"),
    }
}

#[test]
fn entering_a_new_period() {
    let mut monitor = monitor();
    let mut trader = Trader::new(Config::default().trading, true);
    let mut detector = PriceDetector::new(Float64 { bits: 0.99f64.to_bits() }, 90);
    let buy = BuyOpportunity {
        eth_condition_id: "eth condition".to_string(),
        token_to_buy_id: "token".to_string(),
        token_to_buy_price: Float64 { bits: 0.02f64.to_bits() },
        difference_d: Float64 { bits: 0.1f64.to_bits() },
        period_timestamp: PERIOD,
        time_remaining_seconds: 100,
    };
    let mut worthless = buy.clone();
    worthless.token_to_buy_price = Float64 { bits: 0 };
    assert_eq!(complete_purchase(&mut trader, &mut detector, &worthless, 1), Err(TradeError::InvalidPrice));
    assert!(trader.pending_trade(PERIOD).is_none());
    assert_eq!(complete_purchase(&mut trader, &mut detector, &buy, 1), Ok(()));
    assert_eq!(trader.pending_trade(PERIOD).unwrap().token_id, "token");
    assert_eq!(seconds_to_next_period(&monitor, PERIOD + 100), 800);
    enter_period(
        &mut monitor,
        &mut trader,
        &mut detector,
        market("eth", "eth 2"),
        market("btc", "btc 2"),
        PERIOD,
        PERIOD + 900,
    );
    assert!(trader.pending_trade(PERIOD).is_none());
    assert_eq!(trader.trades_executed(), 1);
    assert!(!monitor.should_discover_new_markets(PERIOD + 900));
    assert_eq!(monitor.get_current_condition_ids().0, "eth 2");
}
