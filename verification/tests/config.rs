use updown_bot::config::{Args, Config};

fn args(simulation: bool, no_simulation: bool) -> Args {
    Args { simulation, no_simulation, config: std::path::PathBuf::from("config.json") }
}

#[test]
fn production_overrides_simulation() {
    assert!(args(true, false).is_simulation());
    assert!(!args(true, true).is_simulation());
    assert!(!args(false, true).is_simulation());
    assert!(!args(false, false).is_simulation());
}

#[test]
fn default_settings() {
    let config = Config::default();
    assert_eq!(config.polymarket.gamma_api_url, "https://gamma-api.polymarket.com");
    assert_eq!(config.polymarket.clob_api_url, "https://clob.polymarket.com");
    assert!(config.polymarket.api_key.is_none());
    assert!(config.polymarket.private_key.is_none());
    assert!(config.polymarket.signature_type.is_none());
    let trading = config.trading;
    assert_eq!(trading.check_interval_ms, 1000);
    assert_eq!(trading.min_time_remaining_seconds, 90);
    assert_eq!(trading.duration_analysis_seconds, 60);
    assert_eq!(trading.min_passed_data_points, 40);
    assert_eq!(trading.sell_retry_check_seconds, 5);
    assert_eq!(trading.market_closure_check_interval_seconds, 20);
    assert!(trading.enable_opposite_side_buy);
    assert!(trading.max_position_size.is_none());
    let numbers = [
        (trading.trigger_price, 0.99),
        (trading.min_profit_threshold, 0.04),
        (trading.fixed_trade_amount, 1.0),
        (trading.trend_detection_threshold, 0.7),
        (trading.emergency_sell_threshold, 0.55),
        (trading.opposite_token_profit_threshold, 0.5),
        (trading.opposite_token_loss_threshold, 0.1),
    ];
    for (held, expected) in numbers {
        assert_eq!(f64::from_bits(held.bits), expected);
    }
}

#[test]
fn the_environment_replaces_credentials() {
    let mut settings = Config::default().polymarket;
    settings.api_key = Some("file".to_string());
    settings.api_secret = Some("file secret".to_string());
    settings.signature_type = Some(1);
    let settings = settings.with_environment(
        Some("env".to_string()),
        None,
        Some("env phrase".to_string()),
        Some("0x01".to_string()),
    );
    assert_eq!(settings.api_key.as_deref(), Some("env"));
    assert_eq!(settings.api_secret.as_deref(), Some("file secret"));
    assert_eq!(settings.api_passphrase.as_deref(), Some("env phrase"));
    assert_eq!(settings.private_key.as_deref(), Some("0x01"));
    assert_eq!(settings.signature_type, Some(1));
    assert_eq!(settings.clob_api_url, "https://clob.polymarket.com");
}
