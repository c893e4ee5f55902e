use updown_bot::api::PolymarketApi;
use updown_bot::errors::ApiError;
use updown_bot::redeem::{build_call, choose_index_set, index_set, redeem_data, redeemed};
use updown_bot::signing::{secret_key, sign, signed_message};

const CONDITION: &str = "00112233445566778899aabbccddeeff00112233445566778899AABBCCDDEEFF";

fn api(key: Option<&str>) -> PolymarketApi {
    PolymarketApi::new(
        "g".to_string(),
        "c".to_string(),
        None,
        None,
        None,
        key.map(str::to_string),
        None,
        None,
    )
}

fn signer() -> PolymarketApi {
    api(Some("0x0000000000000000000000000000000000000000000000000000000000000001"))
}

#[test]
fn the_call_that_redeems() {
    let call = signer().redeem_tokens(CONDITION, "Up").unwrap();
    assert_eq!(call.contract.len(), 20);
    assert_eq!(&call.contract[..4], [0x4d, 0x97, 0xdc, 0xd9]);
    let data = &call.data;
    assert_eq!(data.len(), 196);
    assert_eq!(&data[..4], [0x3d, 0x7d, 0x3f, 0x5a]);
    assert_eq!(&data[4..16], [0u8; 12]);
    assert_eq!(&data[16..20], [0x27, 0x91, 0xbc, 0xa1]);
    assert_eq!(&data[32..36], [0x9a, 0xa8, 0x41, 0x74]);
    assert_eq!(&data[36..68], [0u8; 32]);
    assert_eq!(&data[68..72], [0x00, 0x11, 0x22, 0x33]);
    assert_eq!(&data[96..100], [0xcc, 0xdd, 0xee, 0xff]);
    assert_eq!(&data[100..131], [0u8; 31]);
    assert_eq!(data[131], 128);
    assert_eq!(data[163], 1);
    assert_eq!(data[195], 1);
    let down = signer().redeem_tokens(CONDITION, "Down").unwrap();
    assert_eq!(down.data[195], 2);
    assert_eq!(down.data[..195], data[..195]);
}

#[test]
fn conditions_with_and_without_a_mark() {
    let plain = signer().redeem_tokens(CONDITION, "1").unwrap().data;
    for text in [format!("0x{CONDITION}"), format!("0X{CONDITION}"), format!("0x0x{CONDITION}")] {
        assert_eq!(signer().redeem_tokens(&text, "1").unwrap().data, plain, "{text}");
    }
    for text in ["", "0x", "0x12", &CONDITION[1..], &format!("{CONDITION}00"), &CONDITION.replace('a', "g")] {
        let error = signer().redeem_tokens(text, "1").unwrap_err();
        assert_eq!(error.message(), format!("Failed to parse condition_id to B256: {text}"));
    }
}

#[test]
fn redeeming_needs_a_key() {
    assert!(matches!(
        api(None).redeem_tokens("bad", "Up").unwrap_err().message().as_str(),
        "Private key is required for redemption. Please set private_key in config.json"
    ));
    assert_eq!(
        api(Some("bad")).redeem_tokens("bad", "Up").unwrap_err().message(),
        "Failed to create signer from private key. Ensure private_key is a valid hex string."
    );
}

#[test]
fn index_sets_of_outcomes() {
    for (outcome, set) in [("Up", 1), ("up", 1), ("going UP", 1), ("1", 1), ("Down", 2), ("0", 2), ("", 2), ("11", 2)] {
        assert_eq!(index_set(outcome), set, "{outcome}");
    }
    assert_eq!(choose_index_set("UP", "x"), 1);
    assert_eq!(choose_index_set("1", "x"), 2);
    assert_eq!(choose_index_set("x", "1"), 1);
}

#[test]
fn calls_that_cannot_be_built() {
    let word = || Some(vec![1u8; 32]);
    let address = || Some(vec![2u8; 20]);
    let error = build_call("c", "Up", None, None, None).unwrap_err();
    assert_eq!(error.message(), "Failed to parse USDC address");
    assert!(matches!(build_call("c", "Up", address(), None, None), Err(ApiError::InvalidCondition { .. })));
    let error = build_call("c", "Up", address(), word(), None).unwrap_err();
    assert_eq!(error.message(), "Failed to parse CTF contract address");
    let call = build_call("c", "Up", address(), word(), Some(vec![3u8; 20])).unwrap();
    assert_eq!(call.contract, [3u8; 20]);
    assert_eq!(call.data, redeem_data(&vec![2u8; 20], &vec![1u8; 32], 1));
}

#[test]
fn results_of_a_redemption() {
    let response = redeemed(true, "0xfeed").unwrap();
    assert!(response.success);
    assert_eq!(response.message.as_deref(), Some("Successfully redeemed tokens. Transaction: 0xfeed"));
    assert_eq!(response.transaction_hash.as_deref(), Some("0xfeed"));
    assert!(response.amount_redeemed.is_none());
    let error = redeemed(false, "0xfeed").unwrap_err();
    assert_eq!(error.message(), "Redemption transaction failed. Transaction hash: 0xfeed");
}

#[test]
fn keys_and_messages_of_signatures() {
    assert_eq!(secret_key(Some(vec![1, 2]), "text"), [1, 2]);
    assert_eq!(secret_key(None, "té"), "té".as_bytes());
    assert_eq!(signed_message("POST", "/orders", "{}", 12), "POST/orders{}12");
    let signature = sign("c2VjcmV0LWtleQ==", "POST", "/orders", "{\"a\":1}", 1700000000);
    assert_eq!(signature, "7da3676e179c1cff41a6a6e02043969ada676bf6250e7918ee28155dc3074768");
}
