use updown_bot::api::{
    check_key, check_order_reply, choose_wallet, join_lists, read_market, read_markets, read_price, PolymarketApi,
    SignatureType,
};
use updown_bot::decimal::Decimal;
use updown_bot::errors::{ApiError, Credential, Purpose};
use updown_bot::models::{OrderBook, OrderBookEntry};

const KEY: &str = "0x0000000000000000000000000000000000000000000000000000000000000001";
const WALLET: &str = "0xd8dA6BF26964aF9D7eEd9e03E53415D37aA96045";

fn some(text: &str) -> Option<String> {
    Some(text.to_string())
}

fn triple() -> (Option<String>, Option<String>, Option<String>) {
    (some("key"), some("secret"), some("words"))
}

fn access(
    credentials: (Option<String>, Option<String>, Option<String>),
    private_key: Option<String>,
    proxy: Option<String>,
    signature_type: Option<u8>,
) -> PolymarketApi {
    PolymarketApi::new(
        "https://gamma".to_string(),
        "https://clob".to_string(),
        credentials.0,
        credentials.1,
        credentials.2,
        private_key,
        proxy,
        signature_type,
    )
}

fn plain() -> PolymarketApi {
    access((None, None, None), None, None, None)
}

fn pairs(list: &[(String, String)]) -> Vec<(&str, &str)> {
    list.iter().map(|(a, b)| (a.as_str(), b.as_str())).collect()
}

#[test]
fn requests_of_the_interface() {
    let api = plain();
    let request = api.active_markets_request(50);
    assert_eq!(request.url, "https://gamma/events");
    assert_eq!(pairs(&request.query), [("active", "true"), ("closed", "false"), ("limit", "50")]);
    assert_eq!(api.market_by_slug_request("btc-updown").url, "https://gamma/events/slug/btc-updown");
    let request = api.get_orderbook("7");
    assert_eq!(request.url, "https://clob/book");
    assert_eq!(pairs(&request.query), [("token_id", "7")]);
    let request = api.market_request("0xabc");
    assert_eq!(request.url, "https://clob/markets/0xabc");
    assert!(request.query.is_empty());
    let request = api.price_request("7", "BUY");
    assert_eq!(request.url, "https://clob/price");
    assert_eq!(pairs(&request.query), [("side", "BUY"), ("token_id", "7")]);
    assert_eq!(api.clob_url(), "https://clob");
}

#[test]
fn credentials_are_accepted_once() {
    let mut api = plain();
    assert!(!api.is_authenticated());
    api.mark_authenticated();
    assert!(api.is_authenticated());
}

#[test]
fn a_key_is_needed_to_sign() {
    let error = plain().signing_key(Purpose::OrderSigning).unwrap_err();
    assert_eq!(
        error.message(),
        "Private key is required for order signing. Please set private_key in config.json"
    );
    let api = access((None, None, None), some("0x12"), None, None);
    assert!(matches!(api.signing_key(Purpose::OrderSigning), Err(ApiError::InvalidPrivateKey)));
    let api = access((None, None, None), some(KEY), None, None);
    assert_eq!(api.signing_key(Purpose::OrderSigning).unwrap(), KEY);
    let api = access((None, None, None), some(&KEY[2..]), None, None);
    assert_eq!(api.signing_key(Purpose::Redemption).unwrap(), &KEY[2..]);
    let zero = "0x0000000000000000000000000000000000000000000000000000000000000000";
    let api = access((None, None, None), some(zero), None, None);
    assert!(api.signing_key(Purpose::OrderSigning).is_err());
}

#[test]
fn keys_are_checked_for_a_purpose() {
    assert!(check_key(Some("k"), true, Purpose::Redemption).is_ok());
    assert!(matches!(check_key(Some("k"), false, Purpose::Redemption), Err(ApiError::InvalidPrivateKey)));
    for (purpose, word) in [
        (Purpose::Authentication, "authentication"),
        (Purpose::OrderSigning, "order signing"),
        (Purpose::Redemption, "redemption"),
    ] {
        assert_eq!(
            check_key(None, true, purpose).unwrap_err().message(),
            format!("Private key is required for {word}. Please set private_key in config.json")
        );
    }
}

#[test]
fn words_of_a_status() {
    let error = ApiError::PriceStatus { status: 200 };
    assert_eq!(error.message_with("so"), "Failed to fetch price (status: so)");
    assert_eq!(error.message(), "Failed to fetch price (status: 200 OK)");
    let odd = ApiError::PriceStatus { status: 799 };
    assert_eq!(odd.message(), "Failed to fetch price (status: 799 <unknown status code>)");
}

#[test]
fn lists_are_joined_in_order() {
    let list = |items: &[u8]| items.iter().map(|i| vec![*i]).collect::<Vec<Vec<u8>>>();
    assert_eq!(join_lists(vec![list(&[1, 2]), list(&[]), list(&[3])]), list(&[1, 2, 3]));
    assert!(join_lists(Vec::new()).is_empty());
    assert_eq!(read_market("s", 200, true, list(&[7, 8])).unwrap(), [7]);
    assert!(matches!(read_market("s", 200, true, Vec::new()), Err(ApiError::NoMarket)));
}

#[test]
fn authentication_needs_key_and_wallet() {
    assert!(matches!(
        plain().authenticate(),
        Err(ApiError::MissingPrivateKey { purpose: Purpose::Authentication })
    ));
    let api = access((None, None, None), some("no key"), some("no address"), None);
    assert!(matches!(api.authenticate(), Err(ApiError::InvalidPrivateKey)));
    let api = access((None, None, None), some(KEY), some("no address"), None);
    let error = api.authenticate().unwrap_err();
    assert_eq!(
        error.message(),
        "Failed to parse proxy_wallet_address: no address. Ensure it's a valid Ethereum address."
    );
    let api = access(triple(), some(KEY), some(WALLET), Some(2));
    let wallet = api.authenticate().unwrap().wallet;
    assert_eq!(wallet.signature_type, Some(SignatureType::GnosisSafe));
    let funder = wallet.funder.unwrap();
    assert_eq!(funder.len(), 20);
    assert_eq!(&funder[..4], [0xd8, 0xda, 0x6b, 0xf2]);
    let api = access((None, None, None), some(KEY), some(&WALLET.to_lowercase()), Some(1));
    assert!(matches!(api.wallet(), Err(ApiError::InvalidWalletAddress { .. })));
}

#[test]
fn a_wallet_is_given_with_or_without_its_mark() {
    let bare = "2791Bca1f2de4661ED88A30C99A7a9449Aa84174";
    for text in [bare.to_string(), format!("0x{bare}")] {
        let wallet = access(triple(), some(KEY), some(&text), Some(1)).authenticate().unwrap().wallet;
        let funder = wallet.funder.unwrap();
        assert_eq!(funder.len(), 20);
        assert_eq!(&funder[..4], [0x27, 0x91, 0xbc, 0xa1]);
        assert_eq!(wallet.signature_type, Some(SignatureType::Proxy));
    }
    for text in ["", "0", "0x", "0X2791Bca1f2de4661ED88A30C99A7a9449Aa84174"] {
        assert!(matches!(
            access((None, None, None), some(KEY), some(text), None).wallet(),
            Err(ApiError::InvalidWalletAddress { address }) if address == text
        ));
    }
}

#[test]
fn a_login_hands_over_the_credentials() {
    let login = access(triple(), some(KEY), some(WALLET), Some(1)).authenticate().unwrap();
    assert_eq!(login.credentials.key, "key");
    assert_eq!(login.credentials.secret, "secret");
    assert_eq!(login.credentials.passphrase, "words");
    assert_eq!(login.wallet.signature_type, Some(SignatureType::Proxy));
    assert!(login.wallet.funder.is_some());
    let missing = |credentials| access(credentials, some(KEY), None, None).authenticate().unwrap_err();
    assert!(matches!(
        missing((None, None, some("words"))),
        ApiError::MissingCredential { credential: Credential::Key }
    ));
    assert!(matches!(
        missing((some("key"), None, None)),
        ApiError::MissingCredential { credential: Credential::Secret }
    ));
    assert_eq!(
        missing((some("key"), some("secret"), None)).message(),
        "API credentials are incomplete: api_passphrase is missing. Please set it in config.json"
    );
    assert!(matches!(
        access((None, None, None), None, None, None).authenticate(),
        Err(ApiError::MissingPrivateKey { purpose: Purpose::Authentication })
    ));
    assert!(matches!(
        access(triple(), some("no key"), None, None).authenticate(),
        Err(ApiError::InvalidPrivateKey)
    ));
    assert!(matches!(
        access(triple(), some(KEY), None, Some(2)).authenticate(),
        Err(ApiError::WalletRequired { signature_type: 2 })
    ));
    assert!(matches!(
        plain().api_credentials(),
        Err(ApiError::MissingCredential { credential: Credential::Key })
    ));
}

#[test]
fn a_refused_login_changes_nothing() {
    let mut api = plain();
    let error = api.finish_login(false).unwrap_err();
    assert_eq!(
        error.message(),
        "Failed to authenticate with CLOB API. Check your API credentials (api_key, api_secret, api_passphrase) and private_key."
    );
    assert!(!api.is_authenticated());
    assert!(api.finish_login(true).is_ok());
    assert!(api.is_authenticated());
    assert!(api.finish_login(false).is_err());
    assert!(api.is_authenticated());
}

#[test]
fn wallets_and_signature_types() {
    let address = || Some(vec![7u8; 20]);
    for (number, kind) in [
        (None, SignatureType::Proxy),
        (Some(0), SignatureType::Proxy),
        (Some(1), SignatureType::Proxy),
        (Some(2), SignatureType::GnosisSafe),
    ] {
        let wallet = choose_wallet(Some("w"), address(), number).unwrap();
        assert_eq!(wallet.signature_type, Some(kind));
        assert_eq!(wallet.funder, address());
    }
    let error = choose_wallet(Some("w"), address(), Some(3)).unwrap_err();
    assert_eq!(
        error.message(),
        "Invalid signature_type: 3. Must be 0 (EOA), 1 (Proxy), or 2 (GnosisSafe)"
    );
    assert!(matches!(choose_wallet(Some("w"), None, Some(3)), Err(ApiError::InvalidWalletAddress { .. })));
    assert_eq!(choose_wallet(None, None, Some(0)).unwrap().signature_type, Some(SignatureType::Eoa));
    assert_eq!(choose_wallet(None, None, None).unwrap().signature_type, None);
    let error = choose_wallet(None, None, Some(1)).unwrap_err();
    assert_eq!(error.message(), "signature_type 1 requires proxy_wallet_address to be set");
    assert!(matches!(choose_wallet(None, None, Some(2)), Err(ApiError::WalletRequired { signature_type: 2 })));
    assert!(matches!(choose_wallet(None, None, Some(9)), Err(ApiError::InvalidSignatureType { signature_type: 9 })));
}

#[test]
fn signatures_of_requests() {
    let api = access((None, some("c2VjcmV0LWtleQ=="), None), None, None, None);
    assert_eq!(
        api.generate_signature("POST", "/orders", "{\"a\":1}", 1700000000).unwrap(),
        "7da3676e179c1cff41a6a6e02043969ada676bf6250e7918ee28155dc3074768"
    );
    let raw = access((None, some("not base64!"), None), None, None, None);
    assert_eq!(
        raw.generate_signature("POST", "/orders", "{\"a\":1}", 1700000000).unwrap(),
        "2dd6950141526519f0258d95d44fd5a47dabe954ff89e98dbcfd8f8eff60848a"
    );
    let empty = access((None, some(""), None), None, None, None);
    assert_eq!(
        empty.generate_signature("GET", "/x", "", 5).unwrap(),
        "72dbab2354d2f046accd1f49c6044f35422050af81304e75379aa79367cef261"
    );
    let error = plain().generate_signature("GET", "/x", "", 5).unwrap_err();
    assert_eq!(error.message(), "API secret is required for authenticated requests");
}

#[test]
fn headers_need_all_credentials() {
    let full = access((some("key"), some("c2VjcmV0LWtleQ=="), some("phrase")), None, None, None);
    let headers = full.add_auth_headers("POST", "/orders", "{\"a\":1}", 1700000000);
    assert_eq!(
        pairs(&headers),
        [
            ("POLY_API_KEY", "key"),
            ("POLY_SIGNATURE", "7da3676e179c1cff41a6a6e02043969ada676bf6250e7918ee28155dc3074768"),
            ("POLY_TIMESTAMP", "1700000000"),
            ("POLY_PASSPHRASE", "phrase"),
        ]
    );
    for credentials in [
        (None, some("s"), some("p")),
        (some("k"), None, some("p")),
        (some("k"), some("s"), None),
    ] {
        assert!(access(credentials, None, None, None).add_auth_headers("POST", "/orders", "", 1).is_empty());
    }
}

#[test]
fn orders_posted_with_headers() {
    let full = access((some("key"), some("c2VjcmV0LWtleQ=="), some("phrase")), None, None, None);
    let post = full.place_order_hmac("{\"a\":1}", 1700000000);
    assert_eq!(post.url, "https://clob/orders");
    assert_eq!(post.body, "{\"a\":1}");
    assert_eq!(post.headers.len(), 4);
    assert_eq!(post.headers[1].1, "7da3676e179c1cff41a6a6e02043969ada676bf6250e7918ee28155dc3074768");
    assert!(check_order_reply(200, "").is_ok());
    assert!(check_order_reply(299, "").is_ok());
    let error = check_order_reply(401, "denied").unwrap_err();
    assert!(error.message().starts_with("Authentication failed (status: 401 Unauthorized): denied\nTroubleshooting:\n1."));
    assert!(matches!(check_order_reply(403, ""), Err(ApiError::AuthenticationFailed { status: 403, .. })));
    let error = check_order_reply(400, "bad").unwrap_err();
    assert_eq!(error.message(), "Failed to place order (status: 400 Bad Request): bad");
    assert!(check_order_reply(300, "").is_err());
    assert!(check_order_reply(199, "").is_err());
}

fn texts(documents: &[Vec<u8>]) -> Vec<String> {
    documents.iter().map(|d| String::from_utf8(d.clone()).unwrap()).collect()
}

#[test]
fn markets_of_a_list_of_events() {
    let body = br#"[{"markets": [{"a": 1}, 2]}, {"other": 0}, {"markets": 3}, {"markets": [ "x" ]}]"#.to_vec();
    let markets = PolymarketApi::get_all_active_markets(200, &body).unwrap();
    assert_eq!(texts(&markets), ["{\"a\":1}", "2", "\"x\""]);
    let nested = br#"{"data": [{"markets": [{"b": 2}]}]}"#.to_vec();
    assert_eq!(texts(&PolymarketApi::get_all_active_markets(200, &nested).unwrap()), ["{\"b\":2}"]);
    let empty = br#"{"data": {"markets": [1]}}"#.to_vec();
    assert!(PolymarketApi::get_all_active_markets(200, &empty).unwrap().is_empty());
    assert!(PolymarketApi::get_all_active_markets(200, &b"7".to_vec()).unwrap().is_empty());
}

#[test]
fn market_lists_that_cannot_be_read() {
    let error = PolymarketApi::get_all_active_markets(500, &b"oops".to_vec()).unwrap_err();
    assert_eq!(error.message(), "Failed to parse markets response");
    let error = PolymarketApi::get_all_active_markets(500, &b"{ \"e\" : 1 }".to_vec()).unwrap_err();
    assert_eq!(error.message(), "API returned error status 500 Internal Server Error: {\"e\":1}");
    assert!(matches!(read_markets(200, false, String::new(), Vec::new()), Err(ApiError::MarketsUnreadable)));
    assert_eq!(read_markets(204, true, String::new(), vec![vec![1]]).unwrap(), [vec![1]]);
}

#[test]
fn the_market_of_a_slug() {
    let body = br#"{"markets": [{"a": 1}, {"a": 2}]}"#.to_vec();
    assert_eq!(PolymarketApi::get_market_by_slug("s", 200, &body).unwrap(), b"{\"a\":1}");
    let error = PolymarketApi::get_market_by_slug("s", 404, &body).unwrap_err();
    assert_eq!(error.message(), "Failed to fetch market by slug: s (status: 404 Not Found)");
    let error = PolymarketApi::get_market_by_slug("s", 200, &b"oops".to_vec()).unwrap_err();
    assert_eq!(error.message(), "Failed to parse market response");
    for body in [&b"{}"[..], b"[]", b"{\"markets\": []}", b"{\"markets\": {}}"] {
        let error = PolymarketApi::get_market_by_slug("s", 200, &body.to_vec()).unwrap_err();
        assert_eq!(error.message(), "Invalid market response format: no markets array found");
    }
}

#[test]
fn markets_by_condition() {
    assert!(PolymarketApi::get_market(200).is_ok());
    assert_eq!(
        PolymarketApi::get_market(503).unwrap_err().message(),
        "Failed to fetch market (status: 503 Service Unavailable)"
    );
    assert_eq!(PolymarketApi::get_market(7).unwrap_err().message(), "Failed to fetch market (status: 7)");
}

#[test]
fn prices_of_tokens() {
    let price = PolymarketApi::get_price(200, &b"{\"price\": \"0.515\"}".to_vec()).unwrap();
    assert_eq!((price.mantissa(), price.scale()), (515, 3));
    let error = PolymarketApi::get_price(429, &b"{}".to_vec()).unwrap_err();
    assert_eq!(error.message(), "Failed to fetch price (status: 429 Too Many Requests)");
    let error = PolymarketApi::get_price(200, &b"{".to_vec()).unwrap_err();
    assert_eq!(error.message(), "Failed to parse price response");
    for body in [&b"{}"[..], b"{\"price\": 0.5}", b"[\"price\"]"] {
        let error = PolymarketApi::get_price(200, &body.to_vec()).unwrap_err();
        assert_eq!(error.message(), "Invalid price response format");
    }
    let error = PolymarketApi::get_price(200, &b"{\"price\": \"dear\"}".to_vec()).unwrap_err();
    assert_eq!(error.message(), "Failed to parse price: dear");
    let number = Decimal::parse("0.5");
    assert_eq!(read_price(200, true, some("0.5"), number).unwrap().mantissa(), 5);
    assert!(matches!(read_price(200, true, None, number), Err(ApiError::NoPrice)));
}

#[test]
fn best_prices_of_a_book() {
    let entry = |price: &str| OrderBookEntry { price: Decimal::parse(price).unwrap(), size: Decimal::one() };
    let book = OrderBook { bids: vec![entry("0.48"), entry("0.4")], asks: vec![entry("0.52"), entry("0.6")] };
    let price = PolymarketApi::get_best_price("t", &book).unwrap();
    assert_eq!(price.token_id, "t");
    assert_eq!(price.bid.unwrap().mantissa(), 48);
    assert_eq!(price.ask.unwrap().mantissa(), 52);
    let unsorted = OrderBook { bids: vec![entry("0.40"), entry("0.45")], asks: vec![entry("0.60"), entry("0.55")] };
    let price = PolymarketApi::get_best_price("t", &unsorted).unwrap();
    assert_eq!(price.bid.unwrap().mantissa(), 45);
    assert_eq!(price.ask.unwrap().mantissa(), 55);
    let long = OrderBook {
        bids: vec![entry("0.3"), entry("0.50"), entry("0.5"), entry("0.1")],
        asks: vec![entry("0.9"), entry("0.61"), entry("0.7")],
    };
    let price = PolymarketApi::get_best_price("t", &long).unwrap();
    assert!(!price.bid.unwrap().less(Decimal::of(5, 1)) && !Decimal::of(5, 1).less(price.bid.unwrap()));
    assert_eq!(price.ask.unwrap().mantissa(), 61);
    let asks_only = OrderBook { bids: vec![], asks: vec![entry("0.52")] };
    assert!(PolymarketApi::get_best_price("t", &asks_only).unwrap().bid.is_none());
    let bids_only = OrderBook { bids: vec![entry("0.48")], asks: vec![] };
    assert!(PolymarketApi::get_best_price("t", &bids_only).is_none());
}
