use updown_bot::decimal::Decimal;
use updown_bot::models::TokenPrice;

fn price(bid: Option<&str>, ask: Option<&str>) -> TokenPrice {
    TokenPrice {
        token_id: "token".to_string(),
        bid: bid.map(|t| Decimal::parse(t).unwrap()),
        ask: ask.map(|t| Decimal::parse(t).unwrap()),
    }
}

fn parts(d: Decimal) -> (i128, u32) {
    (d.mantissa(), d.scale())
}

#[test]
fn the_middle_of_bid_and_ask() {
    let middle = price(Some("0.48"), Some("0.51")).mid_price().unwrap();
    let mean = Decimal::of(495, 3);
    assert!(middle.at_least(mean) && mean.at_least(middle));
    assert_eq!(parts(price(Some("0.48"), None).mid_price().unwrap()), (48, 2));
    assert_eq!(parts(price(None, Some("0.51")).mid_price().unwrap()), (51, 2));
    assert!(price(None, None).mid_price().is_none());
}

#[test]
fn a_missing_ask_counts_as_zero() {
    assert_eq!(parts(price(Some("0.48"), None).ask_price()), (0, 0));
    assert_eq!(parts(price(None, Some("0.510")).ask_price()), (510, 3));
}
