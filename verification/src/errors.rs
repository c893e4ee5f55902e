//! What can go wrong between the program and the exchange, and how it is said.
use crate::text;
use vstd::prelude::*;
use vstd::string::*;

verus! {

/// What a private key is needed for.
#[derive(Clone, Copy, Debug, PartialEq, Eq, Structural)]
pub enum Purpose {
    Authentication,
    OrderSigning,
    Redemption,
}

/// One of the three API credentials.
#[derive(Clone, Copy, Debug, PartialEq, Eq, Structural)]
pub enum Credential {
    Key,
    Secret,
    Passphrase,
}

/// Why a request to the exchange was not made, or what was wrong with the reply.
#[derive(Clone, Debug)]
pub enum ApiError {
    MissingPrivateKey { purpose: Purpose },
    MissingCredential { credential: Credential },
    LoginRefused,
    InvalidPrivateKey,
    InvalidWalletAddress { address: String },
    InvalidSignatureType { signature_type: u8 },
    WalletRequired { signature_type: u8 },
    MissingApiSecret,
    InvalidSide { side: String },
    InvalidPrice { price: String },
    InvalidSize { size: String },
    InvalidAmount,
    InvalidBatchAmount { index: u64 },
    OrderRejected { reason: String, token_id: String, side: String, size: String, price: String },
    EmptyBatch,
    /// The exchange answered another number of orders than were posted.
    AnswerCount { orders: u64, answers: u64 },
    /// Some orders of a batch were executed, but not those with these numbers.
    BatchSplit { failed: Vec<u64> },
    MarketsUnreadable,
    MarketsStatus { status: u16, body: String },
    SlugStatus { slug: String, status: u16 },
    MarketUnreadable,
    NoMarket,
    MarketStatus { status: u16 },
    PriceStatus { status: u16 },
    PriceUnreadable,
    NoPrice,
    AuthenticationFailed { status: u16, body: String },
    OrderStatus { status: u16, body: String },
    InvalidCollateral,
    InvalidCondition { condition_id: String },
    InvalidContract,
    RedemptionFailed { transaction_hash: String },
}

/// The way in which an HTTP status is written: its number and its standard reason.
pub uninterp spec fn status_words(status: u16) -> Seq<char>;

/// The `Display` form of `reqwest::StatusCode`. It depends on the number alone and is here called
/// [`status_words`]; the table of reasons is not restated.
#[verifier::external_body]
fn status_text(status: u16) -> (words: String)
    requires
        100 <= status <= 999,
    ensures
        words@ == status_words(status),
{
    reqwest::StatusCode::from_u16(status).map(|code| code.to_string()).unwrap_or_default()
}

/// A status in words; one that is no HTTP status, as its number.
pub open spec fn status_said(status: u16) -> Seq<char> {
    if 100 <= status <= 999 {
        status_words(status)
    } else {
        text::digits(status as nat)
    }
}

/// A status in words.
fn say_status(status: u16) -> (said: String)
    ensures
        said@ == status_said(status),
{
    if 100 <= status && status <= 999 {
        status_text(status)
    } else {
        text::number_text(status as u64)
    }
}

impl Purpose {
    /// The purpose in words.
    pub open spec fn words(self) -> Seq<char> {
        match self {
            Purpose::Authentication => "authentication"@,
            Purpose::OrderSigning => "order signing"@,
            Purpose::Redemption => "redemption"@,
        }
    }
}

impl Credential {
    /// The setting that holds the credential.
    pub open spec fn words(self) -> Seq<char> {
        match self {
            Credential::Key => "api_key"@,
            Credential::Secret => "api_secret"@,
            Credential::Passphrase => "api_passphrase"@,
        }
    }
}

/// A list of numbers in words, with commas between them.
pub open spec fn numbers_said(numbers: Seq<u64>) -> Seq<char>
    decreases numbers.len(),
{
    if numbers.len() == 0 {
        Seq::empty()
    } else if numbers.len() == 1 {
        text::digits(numbers[0] as nat)
    } else {
        numbers_said(numbers.drop_last()) + ", "@ + text::digits(numbers.last() as nat)
    }
}

/// Appends a list of numbers in words.
fn append_numbers(out: &mut String, numbers: &Vec<u64>)
    ensures
        final(out)@ == old(out)@ + numbers_said(numbers@),
{
    let ghost before = out@;
    let mut i: usize = 0;
    assert(out@ =~= before + numbers_said(numbers@.take(0)));
    while i < numbers.len()
        invariant
            i <= numbers.len(),
            out@ == before + numbers_said(numbers@.take(i as int)),
        decreases numbers.len() - i,
    {
        let ghost said = numbers@.take(i + 1);
        assert(said.drop_last() =~= numbers@.take(i as int));
        if i > 0 {
            out.append(", ");
        }
        text::append_number(out, numbers[i]);
        assert(out@ =~= before + numbers_said(said));
        i += 1;
    }
    assert(numbers@.take(i as int) =~= numbers@);
}

impl ApiError {
    /// The error in words, given those for its status, if it has one.
    pub open spec fn words_with(self, said: Seq<char>) -> Seq<char> {
        match self {
            ApiError::MissingPrivateKey { purpose } => "Private key is required for "@
                + purpose.words() + ". Please set private_key in config.json"@,
            ApiError::MissingCredential { credential } => "API credentials are incomplete: "@
                + credential.words() + " is missing. Please set it in config.json"@,
            ApiError::LoginRefused =>
                "Failed to authenticate with CLOB API. Check your API credentials (api_key, api_secret, api_passphrase) and private_key."@,
            ApiError::InvalidPrivateKey =>
                "Failed to create signer from private key. Ensure private_key is a valid hex string."@,
            ApiError::InvalidWalletAddress { address } => "Failed to parse proxy_wallet_address: "@
                + address@ + ". Ensure it's a valid Ethereum address."@,
            ApiError::InvalidSignatureType { signature_type } => "Invalid signature_type: "@
                + text::digits(signature_type as nat)
                + ". Must be 0 (EOA), 1 (Proxy), or 2 (GnosisSafe)"@,
            ApiError::WalletRequired { signature_type } => "signature_type "@ + text::digits(
                signature_type as nat,
            ) + " requires proxy_wallet_address to be set"@,
            ApiError::MissingApiSecret => "API secret is required for authenticated requests"@,
            ApiError::InvalidSide { side } => "Invalid order side: "@ + side@
                + ". Must be 'BUY' or 'SELL'"@,
            ApiError::InvalidPrice { price } => "Failed to parse price: "@ + price@,
            ApiError::InvalidSize { size } => "Failed to parse size: "@ + size@,
            ApiError::InvalidAmount => "Failed to convert amount to Decimal"@,
            ApiError::InvalidBatchAmount { index } =>
                "Failed to convert amount to Decimal for order "@ + text::digits(index as nat),
            ApiError::OrderRejected { reason, token_id, side, size, price } =>
                "Order was rejected: "@ + reason@ + "\n\nOrder details:\n- Token ID: "@ + token_id@
                    + "\n- Side: "@ + side@ + "\n- Size: "@ + size@ + "\n- Price: "@ + price@
                    + "\n\nCommon issues:\n1. Insufficient balance or allowance\n2. Invalid token ID or market closed\n3. Price out of range\n4. Size below minimum or above maximum"@,
            ApiError::EmptyBatch => "Cannot place batch orders: orders list is empty"@,
            ApiError::AnswerCount { orders, answers } => "Posted "@ + text::digits(orders as nat)
                + " orders, but the exchange answered "@ + text::digits(answers as nat),
            ApiError::BatchSplit { failed } =>
                "Batch was not executed as a whole. Failed orders: "@ + numbers_said(failed@),
            ApiError::MarketsUnreadable => "Failed to parse markets response"@,
            ApiError::MarketsStatus { body, .. } => "API returned error status "@ + said + ": "@ + body@,
            ApiError::SlugStatus { slug, .. } => "Failed to fetch market by slug: "@ + slug@
                + " (status: "@ + said + ")"@,
            ApiError::MarketUnreadable => "Failed to parse market response"@,
            ApiError::NoMarket => "Invalid market response format: no markets array found"@,
            ApiError::MarketStatus { .. } => "Failed to fetch market (status: "@ + said + ")"@,
            ApiError::PriceStatus { .. } => "Failed to fetch price (status: "@ + said + ")"@,
            ApiError::PriceUnreadable => "Failed to parse price response"@,
            ApiError::NoPrice => "Invalid price response format"@,
            ApiError::AuthenticationFailed { body, .. } => "Authentication failed (status: "@
                + said + "): "@ + body@
                + "\nTroubleshooting:\n1. Verify your API credentials (api_key, api_secret, api_passphrase) are correct\n2. Verify your private_key is correct (required for order signing)\n3. Check if your API key has trading permissions\n4. Ensure your account has sufficient balance"@,
            ApiError::OrderStatus { body, .. } => "Failed to place order (status: "@
                + said + "): "@ + body@,
            ApiError::InvalidCollateral => "Failed to parse USDC address"@,
            ApiError::InvalidCondition { condition_id } =>
                "Failed to parse condition_id to B256: "@ + condition_id@,
            ApiError::InvalidContract => "Failed to parse CTF contract address"@,
            ApiError::RedemptionFailed { transaction_hash } =>
                "Redemption transaction failed. Transaction hash: "@ + transaction_hash@,
        }
    }

    /// The status that the error is about, or 0.
    pub open spec fn status_of(self) -> u16 {
        match self {
            ApiError::MarketsStatus { status, .. } => status,
            ApiError::SlugStatus { status, .. } => status,
            ApiError::MarketStatus { status } => status,
            ApiError::PriceStatus { status } => status,
            ApiError::AuthenticationFailed { status, .. } => status,
            ApiError::OrderStatus { status, .. } => status,
            _ => 0,
        }
    }

    /// The error in words.
    pub open spec fn words(self) -> Seq<char> {
        self.words_with(status_said(self.status_of()))
    }

    /// The status that the error is about, or 0.
    fn status(&self) -> (status: u16)
        ensures
            status == self.status_of(),
    {
        match self {
            ApiError::MarketsStatus { status, .. } => *status,
            ApiError::SlugStatus { status, .. } => *status,
            ApiError::MarketStatus { status } => *status,
            ApiError::PriceStatus { status } => *status,
            ApiError::AuthenticationFailed { status, .. } => *status,
            ApiError::OrderStatus { status, .. } => *status,
            _ => 0,
        }
    }

    /// The error in words.
    pub fn message(&self) -> (message: String)
        ensures
            message@ == self.words(),
    {
        let said = say_status(self.status());
        self.message_with(said.as_str())
    }

    /// The error in words, given those for its status, if it has one.
    pub fn message_with(&self, said: &str) -> (message: String)
        ensures
            message@ == self.words_with(said@),
    {
        let mut message = String::new();
        match self {
            ApiError::MissingPrivateKey { purpose } => {
                message.append("Private key is required for ");
                match purpose {
                    Purpose::Authentication => message.append("authentication"),
                    Purpose::OrderSigning => message.append("order signing"),
                    Purpose::Redemption => message.append("redemption"),
                }
                message.append(". Please set private_key in config.json");
            },
            ApiError::MissingCredential { credential } => {
                message.append("API credentials are incomplete: ");
                match credential {
                    Credential::Key => message.append("api_key"),
                    Credential::Secret => message.append("api_secret"),
                    Credential::Passphrase => message.append("api_passphrase"),
                }
                message.append(" is missing. Please set it in config.json");
            },
            ApiError::LoginRefused => {
                message.append(
                    "Failed to authenticate with CLOB API. Check your API credentials (api_key, api_secret, api_passphrase) and private_key.",
                );
            },
            ApiError::InvalidPrivateKey => {
                message.append(
                    "Failed to create signer from private key. Ensure private_key is a valid hex string.",
                );
            },
            ApiError::InvalidWalletAddress { address } => {
                message.append("Failed to parse proxy_wallet_address: ");
                message.append(address.as_str());
                message.append(". Ensure it's a valid Ethereum address.");
            },
            ApiError::InvalidSignatureType { signature_type } => {
                message.append("Invalid signature_type: ");
                text::append_number(&mut message, *signature_type as u64);
                message.append(". Must be 0 (EOA), 1 (Proxy), or 2 (GnosisSafe)");
            },
            ApiError::WalletRequired { signature_type } => {
                message.append("signature_type ");
                text::append_number(&mut message, *signature_type as u64);
                message.append(" requires proxy_wallet_address to be set");
            },
            ApiError::MissingApiSecret => {
                message.append("API secret is required for authenticated requests");
            },
            ApiError::InvalidSide { side } => {
                message.append("Invalid order side: ");
                message.append(side.as_str());
                message.append(". Must be 'BUY' or 'SELL'");
            },
            ApiError::InvalidPrice { price } => {
                message.append("Failed to parse price: ");
                message.append(price.as_str());
            },
            ApiError::InvalidSize { size } => {
                message.append("Failed to parse size: ");
                message.append(size.as_str());
            },
            ApiError::InvalidAmount => {
                message.append("Failed to convert amount to Decimal");
            },
            ApiError::InvalidBatchAmount { index } => {
                message.append("Failed to convert amount to Decimal for order ");
                text::append_number(&mut message, *index);
            },
            ApiError::OrderRejected { reason, token_id, side, size, price } => {
                message.append("Order was rejected: ");
                message.append(reason.as_str());
                message.append("\n\nOrder details:\n- Token ID: ");
                message.append(token_id.as_str());
                message.append("\n- Side: ");
                message.append(side.as_str());
                message.append("\n- Size: ");
                message.append(size.as_str());
                message.append("\n- Price: ");
                message.append(price.as_str());
                message.append(
                    "\n\nCommon issues:\n1. Insufficient balance or allowance\n2. Invalid token ID or market closed\n3. Price out of range\n4. Size below minimum or above maximum",
                );
            },
            ApiError::EmptyBatch => {
                message.append("Cannot place batch orders: orders list is empty");
            },
            ApiError::AnswerCount { orders, answers } => {
                message.append("Posted ");
                text::append_number(&mut message, *orders);
                message.append(" orders, but the exchange answered ");
                text::append_number(&mut message, *answers);
            },
            ApiError::BatchSplit { failed } => {
                message.append("Batch was not executed as a whole. Failed orders: ");
                append_numbers(&mut message, failed);
            },
            ApiError::MarketsUnreadable => {
                message.append("Failed to parse markets response");
            },
            ApiError::MarketsStatus { body, .. } => {
                message.append("API returned error status ");
                message.append(said);
                message.append(": ");
                message.append(body.as_str());
            },
            ApiError::SlugStatus { slug, .. } => {
                message.append("Failed to fetch market by slug: ");
                message.append(slug.as_str());
                message.append(" (status: ");
                message.append(said);
                message.append(")");
            },
            ApiError::MarketUnreadable => {
                message.append("Failed to parse market response");
            },
            ApiError::NoMarket => {
                message.append("Invalid market response format: no markets array found");
            },
            ApiError::MarketStatus { .. } => {
                message.append("Failed to fetch market (status: ");
                message.append(said);
                message.append(")");
            },
            ApiError::PriceStatus { .. } => {
                message.append("Failed to fetch price (status: ");
                message.append(said);
                message.append(")");
            },
            ApiError::PriceUnreadable => {
                message.append("Failed to parse price response");
            },
            ApiError::NoPrice => {
                message.append("Invalid price response format");
            },
            ApiError::AuthenticationFailed { body, .. } => {
                message.append("Authentication failed (status: ");
                message.append(said);
                message.append("): ");
                message.append(body.as_str());
                message.append(
                    "\nTroubleshooting:\n1. Verify your API credentials (api_key, api_secret, api_passphrase) are correct\n2. Verify your private_key is correct (required for order signing)\n3. Check if your API key has trading permissions\n4. Ensure your account has sufficient balance",
                );
            },
            ApiError::OrderStatus { body, .. } => {
                message.append("Failed to place order (status: ");
                message.append(said);
                message.append("): ");
                message.append(body.as_str());
            },
            ApiError::InvalidCollateral => {
                message.append("Failed to parse USDC address");
            },
            ApiError::InvalidCondition { condition_id } => {
                message.append("Failed to parse condition_id to B256: ");
                message.append(condition_id.as_str());
            },
            ApiError::InvalidContract => {
                message.append("Failed to parse CTF contract address");
            },
            ApiError::RedemptionFailed { transaction_hash } => {
                message.append("Redemption transaction failed. Transaction hash: ");
                message.append(transaction_hash.as_str());
            },
        }
        message
    }
}

} // verus!
