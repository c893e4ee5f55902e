//! Settings: the command line and the configuration file.
use crate::float::Float64;
use vstd::prelude::*;
use vstd::string::*;

verus! {

/// The command line.
pub struct Args {
    /// Run without making real trades, which is the default.
    pub simulation: bool,
    /// Make real trades, whatever `simulation` says.
    pub no_simulation: bool,
    /// Where the configuration file is.
    pub config: std::path::PathBuf,
}

/// `std::path::PathBuf`, carried through unread.
#[verifier::external_type_specification]
#[verifier::external_body]
pub struct ExPathBuf(std::path::PathBuf);

impl Args {
    /// Whether trades are only simulated.
    pub fn is_simulation(&self) -> (simulate: bool)
        ensures
            simulate == (self.simulation && !self.no_simulation),
    {
        if self.no_simulation {
            false
        } else {
            self.simulation
        }
    }
}

#[derive(Clone, Debug)]
pub struct Config {
    pub polymarket: PolymarketConfig,
    pub trading: TradingConfig,
}

/// How to reach the exchange, and as whom.
#[derive(Clone, Debug)]
pub struct PolymarketConfig {
    pub gamma_api_url: String,
    pub clob_api_url: String,
    pub api_key: Option<String>,
    /// Base64, or used as it is where it is no base64.
    pub api_secret: Option<String>,
    pub api_passphrase: Option<String>,
    /// The key that signs orders, in hexadecimal with or without `0x`.
    pub private_key: Option<String>,
    /// The address of a proxy wallet to trade from, in place of the private key's own account: in
    /// hexadecimal with or without `0x`, its letters in the case of the address's checksum.
    pub proxy_wallet_address: Option<String>,
    /// 0 for the private key's own account, 1 for a proxy wallet, 2 for a Gnosis safe.
    pub signature_type: Option<u8>,
}

/// The rules of trading.
#[derive(Clone, Debug)]
pub struct TradingConfig {
    pub eth_condition_id: Option<String>,
    pub btc_condition_id: Option<String>,
    pub check_interval_ms: u64,
    /// The price at which a token is taken to be nearly certain to win.
    pub trigger_price: Float64,
    /// With this time left, or less, no small lead is bought and every holding is sold off.
    pub min_time_remaining_seconds: u64,
    /// The least profit that both tokens must promise.
    pub min_profit_threshold: Float64,
    /// How many dollars to spend on each purchase.
    pub fixed_trade_amount: Float64,
    /// How many dollars to spend on a purchase at most.
    pub max_position_size: Option<Float64>,
    /// The price that the higher tokens of both markets must have for a trend.
    pub trend_detection_threshold: Float64,
    /// For how long a trend is watched before it is trusted.
    pub duration_analysis_seconds: u64,
    /// How many of the data points of that time must pass.
    pub min_passed_data_points: u64,
    /// The price below which a token is sold in an emergency.
    pub emergency_sell_threshold: Float64,
    /// How long to wait after a sell order before looking whether it was filled.
    pub sell_retry_check_seconds: u64,
    /// How often to look whether a market has closed.
    pub market_closure_check_interval_seconds: u64,
    /// Whether an emergency sale is followed by buying the opposite token.
    pub enable_opposite_side_buy: bool,
    /// The share of profit at which an opposite token is sold.
    pub opposite_token_profit_threshold: Float64,
    /// The share of loss at which an opposite token is sold.
    pub opposite_token_loss_threshold: Float64,
}

impl PolymarketConfig {
    /// Whether this is the public exchange, with no credentials set.
    pub open spec fn is_default(self) -> bool {
        &&& self.gamma_api_url@ == "https://gamma-api.polymarket.com"@
        &&& self.clob_api_url@ == "https://clob.polymarket.com"@
        &&& self.api_key is None
        &&& self.api_secret is None
        &&& self.api_passphrase is None
        &&& self.private_key is None
        &&& self.proxy_wallet_address is None
        &&& self.signature_type is None
    }

    /// These settings with the credentials that the environment holds in place of those of the
    /// configuration file.
    pub fn with_environment(
        self,
        api_key: Option<String>,
        api_secret: Option<String>,
        api_passphrase: Option<String>,
        private_key: Option<String>,
    ) -> (settings: PolymarketConfig)
        ensures
            settings.api_key == (if api_key is Some { api_key } else { self.api_key }),
            settings.api_secret == (if api_secret is Some { api_secret } else { self.api_secret }),
            settings.api_passphrase == (if api_passphrase is Some {
                api_passphrase
            } else {
                self.api_passphrase
            }),
            settings.private_key == (if private_key is Some {
                private_key
            } else {
                self.private_key
            }),
            settings.gamma_api_url == self.gamma_api_url,
            settings.clob_api_url == self.clob_api_url,
            settings.proxy_wallet_address == self.proxy_wallet_address,
            settings.signature_type == self.signature_type,
    {
        PolymarketConfig {
            gamma_api_url: self.gamma_api_url,
            clob_api_url: self.clob_api_url,
            api_key: first_of(api_key, self.api_key),
            api_secret: first_of(api_secret, self.api_secret),
            api_passphrase: first_of(api_passphrase, self.api_passphrase),
            private_key: first_of(private_key, self.private_key),
            proxy_wallet_address: self.proxy_wallet_address,
            signature_type: self.signature_type,
        }
    }
}

/// The first of two values that is there.
fn first_of(first: Option<String>, second: Option<String>) -> (value: Option<String>)
    ensures
        value == (if first is Some { first } else { second }),
{
    match first {
        Some(value) => Some(value),
        None => second,
    }
}

impl TradingConfig {
    /// The rules that hold where no configuration file says otherwise: a check each second, a
    /// trigger price of 0.99, 90 seconds, a profit of 0.04, one dollar with no
    /// maximum set, a trend from 0.7 on over 60
    /// seconds with 40 passes, an emergency below 0.55, waits of 5 and 20 seconds, and an opposite
    /// purchase that is sold after a profit of 0.5 or a loss of 0.1.
    pub open spec fn is_default(self) -> bool {
        &&& self.eth_condition_id is None
        &&& self.btc_condition_id is None
        &&& self.check_interval_ms == 1000
        &&& self.trigger_price.bits == 0x3fef_ae14_7ae1_47aeu64
        &&& self.min_time_remaining_seconds == 90
        &&& self.min_profit_threshold.bits == 0x3fa4_7ae1_47ae_147bu64
        &&& self.fixed_trade_amount.bits == 0x3ff0_0000_0000_0000u64
        &&& self.max_position_size is None
        &&& self.trend_detection_threshold.bits == 0x3fe6_6666_6666_6666u64
        &&& self.duration_analysis_seconds == 60
        &&& self.min_passed_data_points == 40
        &&& self.emergency_sell_threshold.bits == 0x3fe1_9999_9999_999au64
        &&& self.sell_retry_check_seconds == 5
        &&& self.market_closure_check_interval_seconds == 20
        &&& self.enable_opposite_side_buy
        &&& self.opposite_token_profit_threshold.bits == 0x3fe0_0000_0000_0000u64
        &&& self.opposite_token_loss_threshold.bits == 0x3fb9_9999_9999_999au64
    }
}

impl Default for Config {
    /// The settings that hold where there is no configuration file.
    fn default() -> (config: Config)
        ensures
            config.polymarket.is_default(),
            config.trading.is_default(),
    {
        Config {
            polymarket: PolymarketConfig {
                gamma_api_url: String::from_str("https://gamma-api.polymarket.com"),
                clob_api_url: String::from_str("https://clob.polymarket.com"),
                api_key: None,
                api_secret: None,
                api_passphrase: None,
                private_key: None,
                proxy_wallet_address: None,
                signature_type: None,
            },
            trading: TradingConfig {
                eth_condition_id: None,
                btc_condition_id: None,
                check_interval_ms: 1000,
                trigger_price: Float64 { bits: 0x3fef_ae14_7ae1_47ae },
                min_time_remaining_seconds: 90,
                min_profit_threshold: Float64 { bits: 0x3fa4_7ae1_47ae_147b },
                fixed_trade_amount: Float64 { bits: 0x3ff0_0000_0000_0000 },
                max_position_size: None,
                trend_detection_threshold: Float64 { bits: 0x3fe6_6666_6666_6666 },
                duration_analysis_seconds: 60,
                min_passed_data_points: 40,
                emergency_sell_threshold: Float64 { bits: 0x3fe1_9999_9999_999a },
                sell_retry_check_seconds: 5,
                market_closure_check_interval_seconds: 20,
                enable_opposite_side_buy: true,
                opposite_token_profit_threshold: Float64 { bits: 0x3fe0_0000_0000_0000 },
                opposite_token_loss_threshold: Float64 { bits: 0x3fb9_9999_9999_999a },
            },
        }
    }
}

} // verus!
