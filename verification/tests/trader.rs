use updown_bot::config::Config;
use updown_bot::decimal::Decimal;
use updown_bot::detector::BuyOpportunity;
use updown_bot::float::Float64;
use updown_bot::models::{MarketDetails, MarketToken, Rewards};
use updown_bot::trader::{
    calculate_sell_strategy, due_sale, sell_off, TradeError, TradeStep, Trader,
};

const PERIOD: u64 = 1767796200;

fn of(x: f64) -> Float64 {
    Float64 { bits: x.to_bits() }
}

fn to(list: &[Float64]) -> Vec<f64> {
    list.iter().map(|x| f64::from_bits(x.bits)).collect()
}

fn opportunity(price: f64, d: f64) -> BuyOpportunity {
    BuyOpportunity {
        eth_condition_id: "condition".to_string(),
        token_to_buy_id: "token".to_string(),
        token_to_buy_price: of(price),
        difference_d: of(d),
        period_timestamp: PERIOD,
        time_remaining_seconds: 300,
    }
}

fn trader(simulation: bool) -> Trader {
    Trader::new(Config::default().trading, simulation)
}

#[test]
fn sell_strategies() {
    let cases: [(f64, &[f64], &[f64]); 18] = [
        (0.01, &[0.03], &[1.0]),
        (0.059, &[0.03], &[1.0]),
        (0.06, &[0.03, 0.05], &[0.5, 1.0]),
        (0.099, &[0.03, 0.05], &[0.5, 1.0]),
        (0.1, &[0.03, 0.05, 0.07], &[0.5, 0.5, 1.0]),
        (0.19, &[0.03, 0.05, 0.07], &[0.5, 0.5, 1.0]),
        (0.2, &[0.03, 0.05, 0.07, 0.10], &[0.5, 0.5, 0.5, 1.0]),
        (0.34, &[0.03, 0.05, 0.07, 0.10], &[0.5, 0.5, 0.5, 1.0]),
        (0.35, &[0.03, 0.05, 0.07, 0.10, 0.15], &[0.5, 0.5, 0.5, 0.5, 1.0]),
        (0.69, &[0.03, 0.05, 0.07, 0.10, 0.15], &[0.5, 0.5, 0.5, 0.5, 1.0]),
        (0.7, &[0.03, 0.05, 0.07], &[0.5, 0.5, 1.0]),
        (0.79, &[0.03, 0.05, 0.07], &[0.5, 0.5, 1.0]),
        (0.8, &[0.03, 0.05], &[0.5, 1.0]),
        (0.84, &[0.03, 0.05], &[0.5, 1.0]),
        (0.85, &[0.03], &[1.0]),
        (0.99, &[0.03], &[1.0]),
        (-0.5, &[0.03], &[1.0]),
        (f64::NAN, &[0.03], &[1.0]),
    ];
    for (d, points, shares) in cases {
        let (p, s) = calculate_sell_strategy(of(d));
        assert_eq!(to(&p), points, "points for {d}");
        assert_eq!(to(&s), shares, "shares for {d}");
    }
}

#[test]
fn a_purchase_becomes_a_holding() {
    let mut trader = trader(true);
    assert!(trader.buy_order(&opportunity(0.03, 0.1)).unwrap().is_none());
    assert_eq!(trader.execute_buy(&opportunity(0.03, 0.1), 5), Ok(()));
    assert_eq!(trader.trades_executed(), 1);
    assert_eq!(trader.total_profit(), of(0.0));
    let trade = trader.pending_trade(PERIOD).unwrap();
    assert_eq!(trade.token_id, "token");
    assert_eq!(trade.condition_id, "condition");
    assert_eq!(trade.investment_amount, of(1.0));
    assert_eq!(trade.total_units, of(1.0 / 0.03));
    assert_eq!(trade.remaining_units, of(1.0 / 0.03));
    assert_eq!(trade.purchase_price, of(0.03));
    assert_eq!(trade.timestamp, 5);
    assert_eq!(trade.market_timestamp, PERIOD);
    assert_eq!(to(&trade.sell_points), [0.03, 0.05, 0.07]);
    assert_eq!(trade.next_sell_index, 0);
    assert!(trader.pending_trade(PERIOD + 900).is_none());
}

#[test]
fn a_worthless_token_is_not_bought() {
    let mut trader = trader(true);
    for price in [0.0, -1.0, 0.0009] {
        assert_eq!(trader.execute_buy(&opportunity(price, 0.1), 5), Err(TradeError::InvalidPrice));
        assert!(matches!(trader.buy_order(&opportunity(price, 0.1)), Err(TradeError::InvalidPrice)));
    }
    assert_eq!(trader.trades_executed(), 0);
    assert!(trader.pending_trade(PERIOD).is_none());
    assert_eq!(trader.execute_buy(&opportunity(0.001, 0.1), 5), Ok(()));
}

#[test]
fn a_real_purchase_places_an_order() {
    let order = trader(false).buy_order(&opportunity(0.03, 0.1)).unwrap().unwrap();
    assert_eq!(order.token_id, "token");
    assert_eq!(order.amount, of(33.3333));
    assert_eq!(order.side, "BUY");
    assert_eq!(order.order_type.as_deref(), Some("FOK"));
}

fn limited(fixed: f64, max: f64, simulation: bool) -> Trader {
    let mut rules = Config::default().trading;
    rules.fixed_trade_amount = of(fixed);
    rules.max_position_size = Some(of(max));
    Trader::new(rules, simulation)
}

fn bought(trader: &mut Trader, price: f64) -> f64 {
    trader.execute_buy(&opportunity(price, 0.1), 5).unwrap();
    let trade = trader.pending_trade(PERIOD).unwrap();
    f64::from_bits(trade.total_units.bits)
}

#[test]
fn a_maximum_caps_what_is_spent() {
    let mut capped = limited(20.0, 5.0, true);
    assert_eq!(bought(&mut capped, 0.5), 10.0);
    let trade = capped.pending_trade(PERIOD).unwrap();
    assert_eq!(trade.investment_amount, of(5.0));
    assert_eq!(trade.remaining_units, of(10.0));
    assert_eq!(bought(&mut limited(1.0, 5.0, true), 0.5), 2.0);
    assert_eq!(bought(&mut limited(5.0, 5.0, true), 0.5), 10.0);
    assert_eq!(bought(&mut limited(f64::INFINITY, 5.0, true), 0.5), 10.0);
    assert!(5.0 / 0.017 * 0.017 > 5.0);
    assert_eq!(bought(&mut limited(20.0, 5.0, true), 0.017), 294.1176470588235);
    for price in 1..1000 {
        let price = price as f64 / 1000.0;
        let units = bought(&mut limited(20.0, 5.0, true), price);
        assert!(units * price <= 5.0 && units * price > 4.999, "{price}");
        let order = limited(20.0, 5.0, false).buy_order(&opportunity(price, 0.1)).unwrap().unwrap();
        let amount = f64::from_bits(order.amount.bits);
        assert!(amount * price <= 5.0 && amount * price > 4.98, "{price}");
    }
}

#[test]
fn an_order_keeps_four_places_unless_the_maximum_binds() {
    let amount = |fixed: f64, max: f64, price: f64| {
        limited(fixed, max, false).buy_order(&opportunity(price, 0.1)).unwrap().unwrap().amount
    };
    assert_eq!(amount(20.0, 5.0, 0.03), of(166.66));
    assert_eq!(amount(20.0, 5.0, 0.13), of(38.4615));
    assert_eq!(amount(1.0, 5.0, 0.03), of(33.3333));
    assert!(12.4069 * 0.403 <= 5.0 && 12.41 * 0.403 > 5.0);
    assert_eq!(amount(20.0, 5.0, 0.403), of(12.4));
    assert!(357.1429 * 0.014 > 5.0 && 357.14 * 0.014 <= 5.0);
    assert_eq!(amount(20.0, 5.0, 0.014), of(357.14));
    assert_eq!(amount(20.0, 5.0, 0.5), of(10.0));
}

#[test]
fn a_maximum_has_to_be_an_amount() {
    for max in [0.0, -1.0, f64::NAN, f64::INFINITY] {
        let mut trader = limited(1.0, max, false);
        assert_eq!(trader.execute_buy(&opportunity(0.5, 0.1), 5), Err(TradeError::InvalidMaximum));
        assert!(matches!(trader.buy_order(&opportunity(0.5, 0.1)), Err(TradeError::InvalidMaximum)));
        assert_eq!(trader.execute_buy(&opportunity(0.0, 0.1), 5), Err(TradeError::InvalidPrice));
        assert_eq!(trader.trades_executed(), 0);
        assert!(trader.pending_trade(PERIOD).is_none());
    }
}

#[test]
fn a_finished_holding_does_not_change() {
    let mut trader = trader(true);
    trader.execute_buy(&opportunity(0.02, 0.01), 5).unwrap();
    assert!(trader.execute_sell(PERIOD, PERIOD, Some(of(0.5)), true).is_some());
    let profit = trader.total_profit();
    for now in [PERIOD, PERIOD + 810, PERIOD + 5000] {
        assert!(trader.sell_order(PERIOD, now, Some(of(0.9))).is_none());
        assert!(trader.execute_sell(PERIOD, now, Some(of(0.9)), true).is_none());
    }
    let trade = trader.pending_trade(PERIOD).unwrap();
    assert_eq!((trade.remaining_units, trade.next_sell_index), (of(0.0), 1));
    assert_eq!(trader.total_profit(), profit);
}

#[test]
fn holdings_shrink_from_check_to_check() {
    let mut trader = trader(true);
    trader.execute_buy(&opportunity(0.03, 0.4), 5).unwrap();
    let mut before = trader.pending_trade(PERIOD).unwrap().clone();
    for price in [0.01, 0.03, 0.04, 0.05, 0.07, 0.07, 0.2, 0.3, 0.4] {
        trader.execute_sell(PERIOD, PERIOD, Some(of(price)), true);
        let after = trader.pending_trade(PERIOD).unwrap().clone();
        let (old, new) = (f64::from_bits(before.remaining_units.bits), f64::from_bits(after.remaining_units.bits));
        assert!(0.0 <= new && new <= old);
        assert!(before.next_sell_index <= after.next_sell_index && after.next_sell_index <= 5);
        assert!(after.next_sell_index < 5 || new == 0.0);
        before = after;
    }
    assert_eq!(before.next_sell_index, 5);
}

#[test]
fn what_to_do_about_a_holding() {
    let mut trader = trader(true);
    trader.execute_buy(&opportunity(0.02, 0.1), 5).unwrap();
    let early = trader.check_pending_trades(PERIOD + 100);
    assert_eq!(early.len(), 1);
    assert_eq!(early[0].period, PERIOD);
    assert!(matches!(&early[0].step, TradeStep::AskPrice { token_id } if token_id == "token"));
    let late = trader.check_pending_trades(PERIOD + 810);
    assert!(
        matches!(&late[0].step, TradeStep::SellOff { token_id, units } if token_id == "token" && *units == of(50.0))
    );
    assert!(matches!(trader.check_pending_trades(PERIOD + 809)[0].step, TradeStep::AskPrice { .. }));
    assert!(matches!(trader.check_pending_trades(PERIOD + 5000)[0].step, TradeStep::SellOff { .. }));
    let sold = trader.execute_sell(PERIOD, PERIOD + 810, None, false).unwrap();
    assert_eq!((sold.units, sold.price), (of(50.0), of(0.01)));
    assert_eq!(trader.total_profit(), of(0.01 * 50.0 - 0.02 * 50.0));
    assert!(matches!(trader.check_pending_trades(PERIOD + 810)[0].step, TradeStep::Nothing));
    assert!(due_sale(trader.pending_trade(PERIOD).unwrap(), of(1.0)).is_none());
    assert_eq!(sell_off(of(50.0)).price, of(0.01));
}

#[test]
fn a_holding_is_sold_step_by_step() {
    let mut trader = trader(true);
    trader.execute_buy(&opportunity(0.02, 0.1), 5).unwrap();
    let mut remaining = 50.0;
    let mut profit = 0.0;
    for (i, (price, share)) in [(0.03, 0.5), (0.05, 0.5), (0.08, 1.0)].into_iter().enumerate() {
        let trade = trader.pending_trade(PERIOD).unwrap().clone();
        assert_eq!(trade.next_sell_index, i);
        assert!(due_sale(&trade, of(0.0299)).is_none());
        let sale = due_sale(&trade, of(price)).unwrap();
        let units = remaining * share;
        assert_eq!(sale.units, of(units));
        assert_eq!(sale.price, of(price));
        assert!(trader.execute_sell(PERIOD, PERIOD, Some(of(0.0299)), true).is_none());
        assert!(trader.execute_sell(PERIOD, PERIOD, None, true).is_none());
        let (planned, order) = trader.sell_order(PERIOD, PERIOD, Some(of(price))).unwrap();
        assert_eq!(planned.units, of(units));
        assert!(order.is_none());
        let sold = trader.execute_sell(PERIOD, PERIOD, Some(of(price)), false).unwrap();
        assert_eq!((sold.units, sold.price), (of(units), of(price)));
        profit += price * units - 0.02 * units;
        assert_eq!(trader.total_profit(), of(profit));
        remaining -= units;
        assert_eq!(trader.pending_trade(PERIOD).unwrap().remaining_units, of(remaining));
    }
    assert_eq!(remaining, 0.0);
    assert!(matches!(trader.check_pending_trades(PERIOD)[0].step, TradeStep::Nothing));
    assert_eq!(trader.trades_executed(), 1);
}

#[test]
fn a_real_sale_places_an_order() {
    let mut trader = trader(false);
    trader.execute_buy(&opportunity(0.02, 0.1), 5).unwrap();
    let (sale, order) = trader.sell_order(PERIOD, PERIOD + 810, None).unwrap();
    assert_eq!((sale.units, sale.price), (of(50.0), of(0.01)));
    let order = order.unwrap();
    assert_eq!(order.token_id, "token");
    assert_eq!(order.amount, of(50.0));
    assert_eq!(order.side, "SELL");
    assert_eq!(order.order_type.as_deref(), Some("FOK"));
    let (sale, order) = trader.sell_order(PERIOD, PERIOD, Some(of(0.04))).unwrap();
    assert_eq!((sale.units, sale.price), (of(25.0), of(0.04)));
    assert_eq!(order.unwrap().amount, of(25.0));
    assert_eq!(trader.total_profit(), of(0.0));
}

#[test]
fn a_sale_counts_once_its_order_is_accepted() {
    let mut trader = trader(false);
    trader.execute_buy(&opportunity(0.02, 0.1), 5).unwrap();
    assert!(trader.execute_sell(PERIOD, PERIOD, Some(of(0.04)), false).is_none());
    assert!(trader.execute_sell(PERIOD, PERIOD + 810, None, false).is_none());
    let trade = trader.pending_trade(PERIOD).unwrap();
    assert_eq!((trade.remaining_units, trade.next_sell_index), (of(50.0), 0));
    assert_eq!(trader.execute_sell(PERIOD, PERIOD, Some(of(0.04)), true).unwrap().units, of(25.0));
    let trade = trader.pending_trade(PERIOD).unwrap();
    assert_eq!((trade.remaining_units, trade.next_sell_index), (of(25.0), 1));
    assert_eq!(trader.execute_sell(PERIOD, PERIOD + 810, Some(of(0.9)), true).unwrap().price, of(0.01));
    let trade = trader.pending_trade(PERIOD).unwrap();
    assert_eq!((trade.remaining_units, trade.next_sell_index), (of(0.0), 3));
    assert_eq!(trader.total_profit(), of(0.0));
}

#[test]
fn sales_of_holdings_that_are_gone_change_nothing() {
    let mut trader = trader(true);
    assert!(trader.sell_order(PERIOD, PERIOD, Some(of(0.5))).is_none());
    assert!(trader.execute_sell(PERIOD, PERIOD + 810, Some(of(0.5)), true).is_none());
    assert!(trader.pending_trade(PERIOD).is_none());
    assert_eq!(trader.total_profit(), of(0.0));
}

fn zero() -> Decimal {
    Decimal::zero()
}

fn details(closed: bool, winner: &str) -> MarketDetails {
    let token = |id: &str| MarketToken {
        outcome: "Up".to_string(),
        price: zero(),
        token_id: id.to_string(),
        winner: id == winner,
    };
    MarketDetails {
        accepting_order_timestamp: None,
        accepting_orders: false,
        active: true,
        archived: false,
        closed,
        condition_id: "condition".to_string(),
        description: String::new(),
        enable_order_book: true,
        end_date_iso: String::new(),
        fpmm: String::new(),
        game_start_time: None,
        icon: String::new(),
        image: String::new(),
        is_50_50_outcome: false,
        maker_base_fee: zero(),
        market_slug: String::new(),
        minimum_order_size: zero(),
        minimum_tick_size: zero(),
        neg_risk: false,
        neg_risk_market_id: String::new(),
        neg_risk_request_id: String::new(),
        notifications_enabled: false,
        question: String::new(),
        question_id: String::new(),
        rewards: Rewards { max_spread: zero(), min_size: zero(), rates: None },
        seconds_delay: 0,
        tags: Vec::new(),
        taker_base_fee: zero(),
        tokens: vec![token("token"), token("other")],
    }
}

#[test]
fn results_of_markets() {
    assert_eq!(Trader::check_market_result(&details(true, "token"), "token"), (true, true));
    assert_eq!(Trader::check_market_result(&details(true, "other"), "token"), (true, false));
    assert_eq!(Trader::check_market_result(&details(false, "other"), "other"), (false, true));
    assert_eq!(Trader::check_market_result(&details(true, "token"), "missing"), (true, false));
}

#[test]
fn closing_markets_are_settled() {
    let mut trader = trader(true);
    trader.execute_buy(&opportunity(0.02, 0.1), 5).unwrap();
    assert!(trader.check_market_closure(PERIOD + 869).is_empty());
    assert_eq!(trader.check_market_closure(PERIOD + 870), [PERIOD]);
    assert!(!trader.settle_market(PERIOD, false, true));
    assert!(!trader.settle_market(PERIOD, true, false));
    assert!(!trader.settle_market(PERIOD + 900, true, true));
    assert!(trader.pending_trade(PERIOD).is_some());
    assert!(trader.settle_market(PERIOD, true, true));
    assert_eq!(trader.total_profit(), of(50.0 * 1.0 - 0.02 * 50.0));
    assert!(trader.pending_trade(PERIOD).is_none());
    assert!(!trader.settle_market(PERIOD, true, true));
}

#[test]
fn a_sold_holding_is_not_settled() {
    let mut trader = trader(true);
    trader.execute_buy(&opportunity(0.02, 0.1), 5).unwrap();
    trader.execute_sell(PERIOD, PERIOD + 810, None, true).unwrap();
    let profit = trader.total_profit();
    assert!(!trader.settle_market(PERIOD, true, true));
    assert_eq!(trader.total_profit(), profit);
}

#[test]
fn a_reset_drops_the_old_period_only() {
    let mut trader = trader(true);
    trader.execute_buy(&opportunity(0.02, 0.1), 5).unwrap();
    let mut next = opportunity(0.02, 0.1);
    next.period_timestamp = PERIOD + 900;
    trader.execute_buy(&next, 6).unwrap();
    let mut periods: Vec<u64> = trader.check_pending_trades(PERIOD).iter().map(|c| c.period).collect();
    periods.sort();
    assert_eq!(periods, [PERIOD, PERIOD + 900]);
    trader.reset_period(PERIOD);
    assert!(trader.pending_trade(PERIOD).is_none());
    assert!(trader.pending_trade(PERIOD + 900).is_some());
    assert_eq!(trader.trades_executed(), 2);
}
