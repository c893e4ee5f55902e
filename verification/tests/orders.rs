use updown_bot::api::PolymarketApi;
use updown_bot::decimal::Decimal;
use updown_bot::errors::{ApiError, Purpose};
use updown_bot::models::{OrderRequest, OrderResponse};
use updown_bot::orders::{
    batch_placed, build_order, count_failures, market_order_placed, order_placed, parse_kind, parse_side, BatchOrder,
    OrderKind, Posted, Side,
};

const KEY: &str = "0x0000000000000000000000000000000000000000000000000000000000000001";

fn access(key: Option<&str>, proxy: Option<&str>, signature_type: Option<u8>) -> PolymarketApi {
    PolymarketApi::new(
        "g".to_string(),
        "c".to_string(),
        None,
        None,
        None,
        key.map(str::to_string),
        proxy.map(str::to_string),
        signature_type,
    )
}

fn api() -> PolymarketApi {
    access(Some(KEY), None, None)
}

fn request(side: &str, price: &str, size: &str) -> OrderRequest {
    OrderRequest {
        token_id: "token".to_string(),
        side: side.to_string(),
        size: size.to_string(),
        price: price.to_string(),
        order_type: "LIMIT".to_string(),
    }
}

fn posted(success: bool, error: Option<&str>) -> Posted {
    Posted {
        success,
        error_msg: error.map(str::to_string),
        order_id: "id7".to_string(),
        status: "matched".to_string(),
    }
}

#[test]
fn sides_and_kinds() {
    assert_eq!(parse_side("BUY").unwrap(), Side::Buy);
    assert_eq!(parse_side("SELL").unwrap(), Side::Sell);
    assert_eq!(
        parse_side("buy").unwrap_err().message(),
        "Invalid order side: buy. Must be 'BUY' or 'SELL'"
    );
    assert_eq!(Side::Buy.name(), "BUY");
    assert_eq!(Side::Sell.name(), "SELL");
    assert_eq!(parse_kind(None), OrderKind::FillOrKill);
    assert_eq!(parse_kind(Some("FOK")), OrderKind::FillOrKill);
    assert_eq!(parse_kind(Some("GTC")), OrderKind::FillOrKill);
    assert_eq!(parse_kind(Some("FAK")), OrderKind::FillAndKill);
}

#[test]
fn an_order_at_a_price() {
    let order = api().place_order(&request("SELL", "0.55", "12.5")).unwrap();
    assert_eq!(order.token_id, "token");
    assert_eq!(order.side, Side::Sell);
    assert_eq!((order.price.mantissa(), order.price.scale()), (55, 2));
    assert_eq!((order.size.mantissa(), order.size.scale()), (125, 1));
}

#[test]
fn orders_that_are_refused() {
    let message = |order: OrderRequest| api().place_order(&order).unwrap_err().message();
    assert_eq!(message(request("HOLD", "x", "y")), "Invalid order side: HOLD. Must be 'BUY' or 'SELL'");
    assert_eq!(message(request("BUY", "x", "y")), "Failed to parse price: x");
    assert_eq!(message(request("BUY", "0.5", "y")), "Failed to parse size: y");
    assert!(matches!(
        build_order(&request("BUY", "p", "s"), None, Some(Decimal::one())),
        Err(ApiError::InvalidPrice { .. })
    ));
}

#[test]
fn a_market_order_has_two_places() {
    let plan = api().place_market_order("token", Decimal::parse("33.3350"), "BUY", Some("FAK")).unwrap();
    assert_eq!(plan.token_id, "token");
    assert_eq!(plan.side, Side::Buy);
    assert_eq!(plan.kind, OrderKind::FillAndKill);
    assert_eq!((plan.size.mantissa(), plan.size.scale()), (3334, 2));
    let order = plan.at_price(Decimal::of(3, 2));
    assert_eq!(order.price.mantissa(), 3);
    assert_eq!(order.size.mantissa(), 3334);
    assert_eq!(order.kind, OrderKind::FillAndKill);
    let plan = api().place_market_order("token", Decimal::parse("1"), "SELL", None).unwrap();
    assert_eq!(plan.at_price(Decimal::one()).kind, OrderKind::FillOrKill);
    let error = api().place_market_order("token", None, "BUY", None).unwrap_err();
    assert_eq!(error.message(), "Failed to convert amount to Decimal");
    assert!(matches!(
        api().place_market_order("token", None, "HOLD", None),
        Err(ApiError::InvalidSide { .. })
    ));
}

fn batch_order(token: &str, amount: &str, side: &str) -> BatchOrder {
    BatchOrder {
        token_id: token.to_string(),
        amount: Decimal::parse(amount),
        side: side.to_string(),
        order_type: None,
    }
}

#[test]
fn a_batch_is_priced_in_order_and_posted_whole() {
    let orders = vec![batch_order("a", "1.005", "BUY"), batch_order("b", "2", "SELL")];
    let mut batch = api().place_batch_market_orders(orders).unwrap();
    assert!(batch.orders_to_post().is_none());
    assert_eq!(batch.next_order().unwrap().unwrap().token_id, "a");
    let first = batch.set_price(Decimal::of(4, 1)).unwrap();
    assert_eq!((first.size.mantissa(), first.price.mantissa()), (101, 4));
    assert!(batch.orders_to_post().is_none());
    let plan = batch.next_order().unwrap().unwrap();
    assert_eq!((plan.token_id.as_str(), plan.side), ("b", Side::Sell));
    assert!(batch.set_price(Decimal::of(5, 1)).is_some());
    assert!(batch.next_order().unwrap().is_none());
    assert!(batch.set_price(Decimal::of(6, 1)).is_none());
    let ready = batch.orders_to_post().unwrap();
    assert_eq!(ready.len(), 2);
    assert_eq!((ready[0].token_id.as_str(), ready[1].token_id.as_str()), ("a", "b"));
    assert_eq!(ready[1].price.mantissa(), 5);
}

#[test]
fn a_batch_keeps_the_kinds_of_its_orders() {
    let kinds = [None, Some("FAK"), Some("FOK")];
    let orders = kinds
        .iter()
        .map(|kind| BatchOrder {
            order_type: kind.map(str::to_string),
            ..batch_order("a", "1", "BUY")
        })
        .collect();
    let mut batch = api().place_batch_market_orders(orders).unwrap();
    while batch.set_price(Decimal::one()).is_some() {}
    let posted: Vec<OrderKind> = batch.orders_to_post().unwrap().iter().map(|order| order.kind).collect();
    assert_eq!(posted, [OrderKind::FillOrKill, OrderKind::FillAndKill, OrderKind::FillOrKill]);
}

#[test]
fn orders_need_a_key_and_a_wallet() {
    let order = request("BUY", "0.5", "10");
    let batch = || vec![batch_order("a", "1", "BUY")];
    let keyless = access(None, None, Some(9));
    assert!(matches!(
        keyless.place_order(&order),
        Err(ApiError::MissingPrivateKey { purpose: Purpose::OrderSigning })
    ));
    assert!(matches!(
        keyless.place_market_order("token", Some(Decimal::one()), "BUY", None),
        Err(ApiError::MissingPrivateKey { purpose: Purpose::OrderSigning })
    ));
    assert_eq!(
        keyless.place_batch_market_orders(batch()).unwrap_err().message(),
        "Private key is required for order signing. Please set private_key in config.json"
    );
    assert!(matches!(keyless.place_batch_market_orders(Vec::new()), Err(ApiError::EmptyBatch)));

    let bad = access(Some("no key"), None, None);
    assert!(matches!(bad.place_order(&order), Err(ApiError::InvalidPrivateKey)));
    assert!(matches!(bad.place_market_order("token", None, "HOLD", None), Err(ApiError::InvalidPrivateKey)));
    assert!(matches!(bad.place_batch_market_orders(batch()), Err(ApiError::InvalidPrivateKey)));

    let lost = access(Some(KEY), Some("nowhere"), None);
    assert!(matches!(
        lost.place_order(&order),
        Err(ApiError::InvalidWalletAddress { address }) if address == "nowhere"
    ));
    let bare = access(Some(KEY), None, Some(2));
    assert!(matches!(
        bare.place_market_order("token", Some(Decimal::one()), "BUY", None),
        Err(ApiError::WalletRequired { signature_type: 2 })
    ));
    let odd = access(Some(KEY), None, Some(3));
    assert!(matches!(
        odd.place_batch_market_orders(batch()),
        Err(ApiError::InvalidSignatureType { signature_type: 3 })
    ));
}

#[test]
fn batches_that_are_refused() {
    let error = api().place_batch_market_orders(Vec::new()).unwrap_err();
    assert_eq!(error.message(), "Cannot place batch orders: orders list is empty");
    let orders = vec![batch_order("a", "1", "BUY"), batch_order("b", "much", "BUY")];
    let mut batch = api().place_batch_market_orders(orders).unwrap();
    batch.set_price(Decimal::one()).unwrap();
    let error = batch.next_order().unwrap_err();
    assert_eq!(error.message(), "Failed to convert amount to Decimal for order 1");
    assert!(batch.set_price(Decimal::one()).is_none());
    assert!(batch.orders_to_post().is_none());
    let batch = api().place_batch_market_orders(vec![batch_order("a", "1", "HOLD")]).unwrap();
    assert!(matches!(batch.next_order(), Err(ApiError::InvalidSide { .. })));
}

#[test]
fn answers_to_an_order() {
    let order = request("BUY", "0.5", "10");
    let response = order_placed(&order, &posted(true, None)).unwrap();
    assert_eq!(response.order_id.as_deref(), Some("id7"));
    assert_eq!(response.status, "matched");
    assert_eq!(response.message.as_deref(), Some("Order placed successfully. Order ID: id7"));
    let error = order_placed(&order, &posted(false, Some("no money"))).unwrap_err();
    assert_eq!(
        error.message(),
        "Order was rejected: no money\n\nOrder details:\n- Token ID: token\n- Side: BUY\n- Size: 10\n- Price: 0.5\n\nCommon issues:\n1. Insufficient balance or allowance\n2. Invalid token ID or market closed\n3. Price out of range\n4. Size below minimum or above maximum"
    );
    let error = order_placed(&order, &posted(false, None)).unwrap_err();
    assert!(matches!(error, ApiError::OrderRejected { reason, .. } if reason == "Unknown error"));
}

#[test]
fn answers_to_a_market_order() {
    let response = market_order_placed(&posted(true, Some("ignored")));
    assert_eq!(response.message.as_deref(), Some("Market order executed successfully. Order ID: id7"));
    let response = market_order_placed(&posted(false, Some("too late")));
    assert_eq!(response.message.as_deref(), Some("too late"));
    assert!(market_order_placed(&posted(false, None)).message.is_none());
}

#[test]
fn answers_to_a_batch() {
    let none = batch_placed(&vec![posted(false, Some("no")), posted(false, None)]).unwrap();
    assert_eq!(none[0].message.as_deref(), Some("no"));
    assert!(none[1].message.is_none());
    assert_eq!(count_failures(&none), 2);
    let all = batch_placed(&vec![posted(true, None), posted(true, None)]).unwrap();
    assert_eq!(all[0].message.as_deref(), Some("Batch order 1 executed successfully. Order ID: id7"));
    assert_eq!(all[1].message.as_deref(), Some("Batch order 2 executed successfully. Order ID: id7"));
    assert_eq!(count_failures(&all), 0);
    assert!(batch_placed(&Vec::new()).unwrap().is_empty());
    let odd = OrderResponse {
        order_id: None,
        status: String::new(),
        message: Some("not executed successfully".to_string()),
    };
    assert_eq!(count_failures(&vec![odd]), 0);
}

#[test]
fn a_batch_is_not_executed_in_part() {
    let answers = vec![posted(true, None), posted(false, Some("no")), posted(false, None)];
    let error = batch_placed(&answers).unwrap_err();
    assert_eq!(error.message(), "Batch was not executed as a whole. Failed orders: 2, 3");
    assert!(matches!(error, ApiError::BatchSplit { failed } if failed == [2, 3]));
    let error = batch_placed(&vec![posted(false, None), posted(true, None)]).unwrap_err();
    assert_eq!(error.message(), "Batch was not executed as a whole. Failed orders: 1");
}

#[test]
fn each_order_of_a_batch_is_answered() {
    let orders = vec![batch_order("a", "1", "BUY"), batch_order("b", "2", "SELL")];
    let batch = api().place_batch_market_orders(orders).unwrap();
    let mut second = posted(true, None);
    second.order_id = "id8".to_string();
    let responses = batch.answered(&vec![posted(true, None), second]).unwrap();
    assert_eq!(responses.len(), 2);
    assert_eq!(responses[0].order_id.as_deref(), Some("id7"));
    assert_eq!(responses[1].order_id.as_deref(), Some("id8"));
    let error = batch.answered(&vec![posted(true, None)]).unwrap_err();
    assert_eq!(error.message(), "Posted 2 orders, but the exchange answered 1");
    assert!(matches!(
        batch.answered(&vec![posted(true, None), posted(true, None), posted(false, None)]),
        Err(ApiError::AnswerCount { orders: 2, answers: 3 })
    ));
    assert!(matches!(
        batch.answered(&vec![posted(true, None), posted(false, None)]),
        Err(ApiError::BatchSplit { failed }) if failed == [2]
    ));
}
