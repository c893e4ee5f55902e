//! A trading bot for pairs of 15-minute up/down markets, as verified decisions.
//!
//! The library holds what the bot knows and decides: prices and their arithmetic ([`decimal`],
//! [`float`], [`rounding`], [`arithmetic`]), the markets of a period ([`period`], [`discovery`],
//! [`monitor`]), the strategies ([`detector`], [`trend`], [`arbitrage`]), the holdings ([`trader`],
//! [`bot`]) and the exchange's interface ([`api`], [`orders`], [`signing`], [`redeem`]). It reads no
//! clock, no file and no socket: times and answers come in as values, and requests and orders go
//! out as values.
pub mod api;
pub mod arbitrage;
pub mod arithmetic;
pub mod bot;
pub mod config;
pub mod decimal;
pub mod detector;
pub mod discovery;
pub mod errors;
pub mod float;
pub mod json;
pub mod models;
pub mod monitor;
pub mod orders;
pub mod period;
pub mod redeem;
pub mod rounding;
pub mod signing;
pub mod text;
pub mod trader;
pub mod trend;
