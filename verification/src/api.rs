//! The exchange's interface: who asks, what is asked, and how the answers are read.
use crate::decimal::{self, Decimal};
use crate::errors::{ApiError, Credential, Purpose};
use crate::json;
use crate::models::{OrderBook, OrderBookEntry, OrderRequest, TokenPrice};
use crate::orders::{self, Batch, BatchOrder, LimitOrder, MarketPlan};
use crate::redeem::{self, ContractCall};
use crate::signing;
use crate::text;
use vstd::prelude::*;
use vstd::string::*;

verus! {

/// How the owner of the funds signs.
#[derive(Clone, Copy, Debug, PartialEq, Eq, Structural)]
pub enum SignatureType {
    /// With the private key's own account.
    Eoa,
    /// Through a proxy wallet.
    Proxy,
    /// Through a Gnosis safe.
    GnosisSafe,
}

/// Where the funds are and how to sign for them, as far as it is set.
#[derive(Clone, Debug)]
pub struct Wallet {
    /// The address of the proxy wallet, 20 bytes.
    pub funder: Option<Vec<u8>>,
    pub signature_type: Option<SignatureType>,
}

/// The API credentials.
#[derive(Clone, Debug)]
pub struct ApiCredentials {
    pub key: String,
    pub secret: String,
    pub passphrase: String,
}

/// What the exchange is asked to accept.
#[derive(Clone, Debug)]
pub struct Login {
    pub wallet: Wallet,
    pub credentials: ApiCredentials,
}

/// A request for a document.
#[derive(Clone, Debug)]
pub struct Request {
    pub url: String,
    /// The query parameters.
    pub query: Vec<(String, String)>,
}

/// A request that carries an order and says who makes it.
#[derive(Clone, Debug)]
pub struct OrderPost {
    pub url: String,
    pub body: String,
    pub headers: Vec<(String, String)>,
}

/// The access to the exchange.
#[derive(Clone, Debug)]
pub struct PolymarketApi {
    gamma_url: String,
    clob_url: String,
    api_key: Option<String>,
    api_secret: Option<String>,
    api_passphrase: Option<String>,
    private_key: Option<String>,
    proxy_wallet_address: Option<String>,
    signature_type: Option<u8>,
    authenticated: bool,
}

/// Whether a status stands for success.
pub open spec fn is_success(status: u16) -> bool {
    200 <= status < 300
}

/// That a list of names and values has the given texts.
pub open spec fn are_pairs(pairs: Seq<(String, String)>, texts: Seq<(Seq<char>, Seq<char>)>) -> bool {
    &&& pairs.len() == texts.len()
    &&& forall|i: int|
        0 <= i < pairs.len() ==> (#[trigger] pairs[i]).0@ == texts[i].0 && pairs[i].1@ == texts[i].1
}

/// That `wallet` is what a proxy wallet's address, by what it denotes, and a signature type set up;
/// or why they do not fit together.
pub open spec fn is_wallet(
    proxy: Option<Seq<char>>,
    address: Option<Seq<u8>>,
    signature_type: Option<u8>,
    wallet: Result<Wallet, ApiError>,
) -> bool {
    match proxy {
        Some(p) => match address {
            None => wallet matches Err(ApiError::InvalidWalletAddress { address: named }) && named@
                == p,
            Some(a) => match signature_type {
                Some(n) => if n > 2 {
                    wallet == Err::<Wallet, ApiError>(
                        ApiError::InvalidSignatureType { signature_type: n },
                    )
                } else {
                    &&& wallet matches Ok(w)
                    &&& w.funder matches Some(f) && f@ == a
                    &&& w.signature_type == Some(
                        if n == 2 {
                            SignatureType::GnosisSafe
                        } else {
                            SignatureType::Proxy
                        },
                    )
                },
                None => {
                    &&& wallet matches Ok(w)
                    &&& w.funder matches Some(f) && f@ == a
                    &&& w.signature_type == Some(SignatureType::Proxy)
                },
            },
        },
        None => match signature_type {
            Some(n) => if n == 0 {
                &&& wallet matches Ok(w)
                &&& w.funder is None
                &&& w.signature_type == Some(SignatureType::Eoa)
            } else if n <= 2 {
                wallet == Err::<Wallet, ApiError>(ApiError::WalletRequired { signature_type: n })
            } else {
                wallet == Err::<Wallet, ApiError>(
                    ApiError::InvalidSignatureType { signature_type: n },
                )
            },
            None => wallet matches Ok(w) && w.funder is None && w.signature_type is None,
        },
    }
}

/// The wallet that a proxy wallet's address, given what it denotes, and a signature type set up. A
/// proxy wallet signs as one unless a Gnosis safe is named; without one, only the private key's own
/// account can be named.
pub fn choose_wallet(
    proxy: Option<&str>,
    address: Option<Vec<u8>>,
    signature_type: Option<u8>,
) -> (wallet: Result<Wallet, ApiError>)
    ensures
        is_wallet(
            match proxy {
                Some(p) => Some(p@),
                None => None,
            },
            match address {
                Some(a) => Some(a@),
                None => None,
            },
            signature_type,
            wallet,
        ),
{
    match proxy {
        Some(proxy) => {
            let funder = match address {
                Some(address) => address,
                None => return Err(ApiError::InvalidWalletAddress { address: proxy.to_owned() }),
            };
            let kind = match signature_type {
                Some(1) => SignatureType::Proxy,
                Some(2) => SignatureType::GnosisSafe,
                Some(0) | None => SignatureType::Proxy,
                Some(n) => return Err(ApiError::InvalidSignatureType { signature_type: n }),
            };
            Ok(Wallet { funder: Some(funder), signature_type: Some(kind) })
        },
        None => match signature_type {
            Some(0) => Ok(Wallet { funder: None, signature_type: Some(SignatureType::Eoa) }),
            Some(1) => Err(ApiError::WalletRequired { signature_type: 1 }),
            Some(2) => Err(ApiError::WalletRequired { signature_type: 2 }),
            Some(n) => Err(ApiError::InvalidSignatureType { signature_type: n }),
            None => Ok(Wallet { funder: None, signature_type: None }),
        },
    }
}

/// Whether a proxy wallet's address, by what it denotes, and a signature type fit together.
pub open spec fn wallet_fits(
    proxy: Option<Seq<char>>,
    address: Option<Seq<u8>>,
    signature_type: Option<u8>,
) -> bool {
    match proxy {
        Some(_) => address is Some && (signature_type matches Some(n) ==> n <= 2),
        None => signature_type matches Some(n) ==> n == 0,
    }
}

/// A text with `0x` before it, where it does not begin so.
pub open spec fn with_hex_mark(text: Seq<char>) -> Seq<char> {
    if text.len() >= 2 && text[0] == '0' && text[1] == 'x' {
        text
    } else {
        "0x"@ + text
    }
}

/// A text with `0x` before it, where it does not begin so.
fn mark_hex(text: &str) -> (marked: String)
    ensures
        marked@ == with_hex_mark(text@),
{
    let chars = text::characters(text);
    if chars.len() >= 2 && chars[0] == '0' && chars[1] == 'x' {
        text.to_owned()
    } else {
        text::joined("0x", text)
    }
}

/// That `result` is the three credentials, or names the first of them that is not set.
pub open spec fn are_credentials(
    key: Option<Seq<char>>,
    secret: Option<Seq<char>>,
    passphrase: Option<Seq<char>>,
    result: Result<ApiCredentials, ApiError>,
) -> bool {
    if key is None {
        result == Err::<ApiCredentials, ApiError>(
            ApiError::MissingCredential { credential: Credential::Key },
        )
    } else if secret is None {
        result == Err::<ApiCredentials, ApiError>(
            ApiError::MissingCredential { credential: Credential::Secret },
        )
    } else if passphrase is None {
        result == Err::<ApiCredentials, ApiError>(
            ApiError::MissingCredential { credential: Credential::Passphrase },
        )
    } else {
        &&& result matches Ok(credentials)
        &&& Some(credentials.key@) == key
        &&& Some(credentials.secret@) == secret
        &&& Some(credentials.passphrase@) == passphrase
    }
}

/// That `result` says whether a private key is there and can sign.
pub open spec fn is_key_check(
    key: Option<Seq<char>>,
    can_sign: bool,
    purpose: Purpose,
    result: Result<(), ApiError>,
) -> bool {
    if key is None {
        result == Err::<(), ApiError>(ApiError::MissingPrivateKey { purpose })
    } else if !can_sign {
        result == Err::<(), ApiError>(ApiError::InvalidPrivateKey)
    } else {
        result is Ok
    }
}

/// Whether a private key is there and can sign, given whether it can.
pub fn check_key(key: Option<&str>, can_sign: bool, purpose: Purpose) -> (result: Result<(), ApiError>)
    ensures
        is_key_check(
            match key {
                Some(k) => Some(k@),
                None => None,
            },
            can_sign,
            purpose,
            result,
        ),
{
    if key.is_none() {
        Err(ApiError::MissingPrivateKey { purpose })
    } else if !can_sign {
        Err(ApiError::InvalidPrivateKey)
    } else {
        Ok(())
    }
}

impl PolymarketApi {
    pub closed spec fn gamma(self) -> Seq<char> {
        self.gamma_url@
    }

    pub closed spec fn clob(self) -> Seq<char> {
        self.clob_url@
    }

    pub closed spec fn key(self) -> Option<Seq<char>> {
        text_of(self.api_key)
    }

    pub closed spec fn secret(self) -> Option<Seq<char>> {
        text_of(self.api_secret)
    }

    pub closed spec fn passphrase(self) -> Option<Seq<char>> {
        text_of(self.api_passphrase)
    }

    /// The private key that signs orders.
    pub closed spec fn signer(self) -> Option<Seq<char>> {
        text_of(self.private_key)
    }

    /// The address of the proxy wallet.
    pub closed spec fn proxy(self) -> Option<Seq<char>> {
        text_of(self.proxy_wallet_address)
    }

    pub closed spec fn signature_number(self) -> Option<u8> {
        self.signature_type
    }

    /// Whether the exchange has accepted the credentials.
    pub closed spec fn accepted(self) -> bool {
        self.authenticated
    }

    /// The address that the setting of the proxy wallet denotes.
    pub open spec fn proxy_address(self) -> Option<Seq<u8>> {
        match self.proxy() {
            Some(p) => signing::checksummed_address(with_hex_mark(p)),
            None => None,
        }
    }

    /// Whether there is a private key that can sign.
    pub open spec fn can_sign(self) -> bool {
        self.signer() is Some && signing::is_private_key(self.signer()->0)
    }

    /// Whether the settings of the wallet fit together.
    pub open spec fn has_wallet(self) -> bool {
        wallet_fits(self.proxy(), self.proxy_address(), self.signature_number())
    }

    /// That `wallet` is what the settings of the wallet set up, or why they do not fit together.
    pub open spec fn sets_up(self, wallet: Result<Wallet, ApiError>) -> bool {
        is_wallet(self.proxy(), self.proxy_address(), self.signature_number(), wallet)
    }

    /// That everything but the exchange's acceptance is as before.
    pub open spec fn same_access(self, other: PolymarketApi) -> bool {
        &&& self.gamma() == other.gamma()
        &&& self.clob() == other.clob()
        &&& self.key() == other.key()
        &&& self.secret() == other.secret()
        &&& self.passphrase() == other.passphrase()
        &&& self.signer() == other.signer()
        &&& self.proxy() == other.proxy()
        &&& self.signature_number() == other.signature_number()
    }

    /// Why nothing can be signed for the given purpose, if nothing can be: there is no private key,
    /// it is none, or there is no wallet to sign for.
    pub open spec fn is_access_error(self, purpose: Purpose, error: ApiError) -> bool {
        if self.signer() is None {
            error == ApiError::MissingPrivateKey { purpose }
        } else if !self.can_sign() {
            error == ApiError::InvalidPrivateKey
        } else {
            !self.has_wallet() && self.sets_up(Err(error))
        }
    }

    /// An access whose credentials were not tried yet.
    pub fn new(
        gamma_url: String,
        clob_url: String,
        api_key: Option<String>,
        api_secret: Option<String>,
        api_passphrase: Option<String>,
        private_key: Option<String>,
        proxy_wallet_address: Option<String>,
        signature_type: Option<u8>,
    ) -> (api: PolymarketApi)
        ensures
            api.gamma() == gamma_url@,
            api.clob() == clob_url@,
            api.key() == text_of(api_key),
            api.secret() == text_of(api_secret),
            api.passphrase() == text_of(api_passphrase),
            api.signer() == text_of(private_key),
            api.proxy() == text_of(proxy_wallet_address),
            api.signature_number() == signature_type,
            !api.accepted(),
    {
        PolymarketApi {
            gamma_url,
            clob_url,
            api_key,
            api_secret,
            api_passphrase,
            private_key,
            proxy_wallet_address,
            signature_type,
            authenticated: false,
        }
    }

    /// The private key, where it is there and can sign.
    pub fn signing_key(&self, purpose: Purpose) -> (key: Result<&str, ApiError>)
        ensures
            match key {
                Ok(k) => self.signer() == Some(k@) && signing::is_private_key(k@),
                Err(error) => is_key_check(
                    self.signer(),
                    self.signer() is Some && signing::is_private_key(self.signer()->0),
                    purpose,
                    Err(error),
                ),
            },
    {
        match &self.private_key {
            Some(key) => match check_key(
                Some(key.as_str()),
                signing::can_sign(key.as_str()),
                purpose,
            ) {
                Ok(()) => Ok(key.as_str()),
                Err(error) => Err(error),
            },
            None => Err(ApiError::MissingPrivateKey { purpose }),
        }
    }

    /// The wallet that the settings set up.
    pub fn wallet(&self) -> (wallet: Result<Wallet, ApiError>)
        ensures
            self.sets_up(wallet),
            wallet is Ok <==> self.has_wallet(),
    {
        match &self.proxy_wallet_address {
            Some(proxy) => choose_wallet(
                Some(proxy.as_str()),
                signing::parse_address(mark_hex(proxy.as_str()).as_str()),
                self.signature_type,
            ),
            None => choose_wallet(None, None, self.signature_type),
        }
    }

    /// The wallet to sign for, where there is a private key that can sign.
    fn access(&self, purpose: Purpose) -> (wallet: Result<Wallet, ApiError>)
        ensures
            wallet is Ok <==> self.can_sign() && self.has_wallet(),
            wallet is Ok ==> self.sets_up(wallet),
            wallet matches Err(error) ==> self.is_access_error(purpose, error),
    {
        match self.signing_key(purpose) {
            Ok(_) => self.wallet(),
            Err(error) => Err(error),
        }
    }

    /// The API credentials, or the first of them that is not set.
    pub fn api_credentials(&self) -> (credentials: Result<ApiCredentials, ApiError>)
        ensures
            are_credentials(self.key(), self.secret(), self.passphrase(), credentials),
    {
        let key = match &self.api_key {
            Some(key) => key.clone(),
            None => return Err(ApiError::MissingCredential { credential: Credential::Key }),
        };
        let secret = match &self.api_secret {
            Some(secret) => secret.clone(),
            None => return Err(ApiError::MissingCredential { credential: Credential::Secret }),
        };
        let passphrase = match &self.api_passphrase {
            Some(passphrase) => passphrase.clone(),
            None => return Err(ApiError::MissingCredential { credential: Credential::Passphrase }),
        };
        Ok(ApiCredentials { key, secret, passphrase })
    }

    /// What is handed to the exchange to be accepted: the wallet that a private key can sign for,
    /// and the API credentials. Whether the exchange accepts it goes to
    /// [`PolymarketApi::finish_login`].
    pub fn authenticate(&self) -> (login: Result<Login, ApiError>)
        ensures
            self.signer() is None ==> login == Err::<Login, ApiError>(
                ApiError::MissingPrivateKey { purpose: Purpose::Authentication },
            ),
            self.signer() is Some && !signing::is_private_key(self.signer()->0) ==> login == Err::<
                Login,
                ApiError,
            >(ApiError::InvalidPrivateKey),
            self.can_sign() && !self.has_wallet() ==> (login matches Err(error) && self.sets_up(
                Err(error),
            )),
            self.can_sign() && self.has_wallet() ==> match login {
                Ok(l) => self.sets_up(Ok(l.wallet)) && are_credentials(
                    self.key(),
                    self.secret(),
                    self.passphrase(),
                    Ok(l.credentials),
                ),
                Err(error) => are_credentials(
                    self.key(),
                    self.secret(),
                    self.passphrase(),
                    Err(error),
                ),
            },
    {
        let wallet = match self.access(Purpose::Authentication) {
            Ok(wallet) => wallet,
            Err(error) => return Err(error),
        };
        match self.api_credentials() {
            Ok(credentials) => Ok(Login { wallet, credentials }),
            Err(error) => Err(error),
        }
    }

    /// Ends a login, given whether the exchange accepted it. A refused one changes nothing.
    pub fn finish_login(&mut self, accepted: bool) -> (result: Result<(), ApiError>)
        ensures
            final(self).same_access(*old(self)),
            result == (if accepted {
                Ok::<(), ApiError>(())
            } else {
                Err::<(), ApiError>(ApiError::LoginRefused)
            }),
            final(self).accepted() == (accepted || old(self).accepted()),
    {
        if !accepted {
            return Err(ApiError::LoginRefused);
        }
        self.mark_authenticated();
        Ok(())
    }

    /// Enters that the exchange has accepted the credentials.
    pub fn mark_authenticated(&mut self)
        ensures
            final(self).accepted(),
            final(self).same_access(*old(self)),
    {
        self.authenticated = true;
    }

    /// Whether the exchange has accepted the credentials.
    pub fn is_authenticated(&self) -> (accepted: bool)
        ensures
            accepted == self.accepted(),
    {
        self.authenticated
    }

    /// The address of the order book service.
    pub fn clob_url(&self) -> (url: &str)
        ensures
            url@ == self.clob(),
    {
        self.clob_url.as_str()
    }

    /// The signature of a request.
    pub fn generate_signature(&self, method: &str, path: &str, body: &str, timestamp: u64) -> (signature:
        Result<String, ApiError>)
        ensures
            match self.secret() {
                Some(secret) => signature matches Ok(s) && s@ == signing::signature_of(
                    secret,
                    method@,
                    path@,
                    body@,
                    timestamp,
                ) && s@.len() == 64,
                None => signature == Err::<String, ApiError>(ApiError::MissingApiSecret),
            },
    {
        match &self.api_secret {
            Some(secret) => Ok(signing::sign(secret.as_str(), method, path, body, timestamp)),
            None => Err(ApiError::MissingApiSecret),
        }
    }

    /// The headers that say who makes a request; none where a credential is missing.
    pub open spec fn auth_headers(
        self,
        method: Seq<char>,
        path: Seq<char>,
        body: Seq<char>,
        timestamp: u64,
    ) -> Seq<(Seq<char>, Seq<char>)> {
        if self.key() is Some && self.secret() is Some && self.passphrase() is Some {
            seq![
                ("POLY_API_KEY"@, self.key()->0),
                (
                    "POLY_SIGNATURE"@,
                    signing::signature_of(self.secret()->0, method, path, body, timestamp),
                ),
                ("POLY_TIMESTAMP"@, text::digits(timestamp as nat)),
                ("POLY_PASSPHRASE"@, self.passphrase()->0),
            ]
        } else {
            Seq::empty()
        }
    }

    /// The headers that say who makes a request; none where a credential is missing.
    pub fn add_auth_headers(&self, method: &str, path: &str, body: &str, timestamp: u64) -> (headers:
        Vec<(String, String)>)
        ensures
            are_pairs(headers@, self.auth_headers(method@, path@, body@, timestamp)),
    {
        let mut headers: Vec<(String, String)> = Vec::new();
        if let Some(key) = &self.api_key {
            if let Some(secret) = &self.api_secret {
                if let Some(passphrase) = &self.api_passphrase {
                    let signature = signing::sign(secret.as_str(), method, path, body, timestamp);
                    headers.push((String::from_str("POLY_API_KEY"), key.clone()));
                    headers.push((String::from_str("POLY_SIGNATURE"), signature));
                    headers.push((String::from_str("POLY_TIMESTAMP"), text::number_text(timestamp)));
                    headers.push((String::from_str("POLY_PASSPHRASE"), passphrase.clone()));
                }
            }
        }
        headers
    }

    /// The request that posts an order, given as a JSON document.
    pub fn place_order_hmac(&self, body: &str, timestamp: u64) -> (post: OrderPost)
        ensures
            post.url@ == self.clob() + "/orders"@,
            post.body@ == body@,
            are_pairs(post.headers@, self.auth_headers("POST"@, "/orders"@, body@, timestamp)),
    {
        OrderPost {
            url: text::joined(self.clob_url.as_str(), "/orders"),
            body: body.to_owned(),
            headers: self.add_auth_headers("POST", "/orders", body, timestamp),
        }
    }
}

/// The text of an optional string.
pub open spec fn text_of(s: Option<String>) -> Option<Seq<char>> {
    match s {
        Some(t) => Some(t@),
        None => None,
    }
}

/// Whether the answer to an order that was posted is one to read, by its status and its body.
pub fn check_order_reply(status: u16, body: &str) -> (result: Result<(), ApiError>)
    ensures
        if is_success(status) {
            result is Ok
        } else if status == 401 || status == 403 {
            result matches Err(ApiError::AuthenticationFailed { status: s, body: b }) && s == status
                && b@ == body@
        } else {
            result matches Err(ApiError::OrderStatus { status: s, body: b }) && s == status && b@
                == body@
        },
{
    if 200 <= status && status < 300 {
        Ok(())
    } else if status == 401 || status == 403 {
        Err(ApiError::AuthenticationFailed { status, body: body.to_owned() })
    } else {
        Err(ApiError::OrderStatus { status, body: body.to_owned() })
    }
}

/// That a request asks for a document with the given parameters.
pub open spec fn is_request(
    request: Request,
    url: Seq<char>,
    query: Seq<(Seq<char>, Seq<char>)>,
) -> bool {
    request.url@ == url && are_pairs(request.query@, query)
}

impl PolymarketApi {
    /// Asks for the events that are active and not closed.
    pub fn active_markets_request(&self, limit: u32) -> (request: Request)
        ensures
            is_request(
                request,
                self.gamma() + "/events"@,
                seq![
                    ("active"@, "true"@),
                    ("closed"@, "false"@),
                    ("limit"@, text::digits(limit as nat)),
                ],
            ),
    {
        let mut query: Vec<(String, String)> = Vec::new();
        query.push((String::from_str("active"), String::from_str("true")));
        query.push((String::from_str("closed"), String::from_str("false")));
        query.push((String::from_str("limit"), text::number_text(limit as u64)));
        Request { url: text::joined(self.gamma_url.as_str(), "/events"), query }
    }

    /// Asks for the event with the given slug.
    pub fn market_by_slug_request(&self, slug: &str) -> (request: Request)
        ensures
            is_request(request, self.gamma() + "/events/slug/"@ + slug@, Seq::empty()),
    {
        let mut url = text::joined(self.gamma_url.as_str(), "/events/slug/");
        url.append(slug);
        Request { url, query: Vec::new() }
    }

    /// Asks for the order book of a token.
    pub fn get_orderbook(&self, token_id: &str) -> (request: Request)
        ensures
            is_request(request, self.clob() + "/book"@, seq![("token_id"@, token_id@)]),
    {
        let mut query: Vec<(String, String)> = Vec::new();
        query.push((String::from_str("token_id"), token_id.to_owned()));
        Request { url: text::joined(self.clob_url.as_str(), "/book"), query }
    }

    /// Asks for the market with the given condition identifier.
    pub fn market_request(&self, condition_id: &str) -> (request: Request)
        ensures
            is_request(request, self.clob() + "/markets/"@ + condition_id@, Seq::empty()),
    {
        let mut url = text::joined(self.clob_url.as_str(), "/markets/");
        url.append(condition_id);
        Request { url, query: Vec::new() }
    }

    /// Asks for the price of a token on one side.
    pub fn price_request(&self, token_id: &str, side: &str) -> (request: Request)
        ensures
            is_request(
                request,
                self.clob() + "/price"@,
                seq![("side"@, side@), ("token_id"@, token_id@)],
            ),
    {
        let mut query: Vec<(String, String)> = Vec::new();
        query.push((String::from_str("side"), side.to_owned()));
        query.push((String::from_str("token_id"), token_id.to_owned()));
        Request { url: text::joined(self.clob_url.as_str(), "/price"), query }
    }
}

/// The markets that an event lists.
pub open spec fn markets_in(event: Seq<u8>) -> Seq<Seq<u8>> {
    match json::json_member(event, "markets"@) {
        Some(markets) => match json::json_elements(markets) {
            Some(list) => list,
            None => Seq::empty(),
        },
        None => Seq::empty(),
    }
}

/// The documents of several lists, one list after the other.
pub open spec fn joined_lists(lists: Seq<Seq<Seq<u8>>>) -> Seq<Seq<u8>>
    decreases lists.len(),
{
    if lists.len() == 0 {
        Seq::empty()
    } else {
        joined_lists(lists.drop_last()) + lists.last()
    }
}

/// The contents of several lists of documents.
pub open spec fn lists_of(lists: Seq<Vec<Vec<u8>>>) -> Seq<Seq<Seq<u8>>> {
    lists.map_values(|list: Vec<Vec<u8>>| json::documents(list@))
}

/// The markets of all of the events, in their order.
pub open spec fn markets_of(events: Seq<Seq<u8>>) -> Seq<Seq<u8>> {
    joined_lists(events.map_values(|event: Seq<u8>| markets_in(event)))
}

/// The events of an answer: its elements, or those of its `data`.
pub open spec fn events_in(answer: Seq<u8>) -> Seq<Seq<u8>> {
    match json::json_elements(answer) {
        Some(events) => events,
        None => match json::json_member(answer, "data"@) {
            Some(data) => match json::json_elements(data) {
                Some(events) => events,
                None => Seq::empty(),
            },
            None => Seq::empty(),
        },
    }
}

/// The markets that an event lists.
fn event_markets(event: &Vec<u8>) -> (markets: Vec<Vec<u8>>)
    ensures
        json::documents(markets@) == markets_in(event@),
{
    match json::member(event.as_slice(), "markets") {
        Some(markets) => match json::elements(markets.as_slice()) {
            Some(list) => list,
            None => no_documents(),
        },
        None => no_documents(),
    }
}

fn no_documents() -> (none: Vec<Vec<u8>>)
    ensures
        json::documents(none@) == Seq::<Seq<u8>>::empty(),
{
    let none: Vec<Vec<u8>> = Vec::new();
    assert(json::documents(none@) =~= Seq::<Seq<u8>>::empty());
    none
}

/// Appends documents to a list of them.
fn append_documents(list: &mut Vec<Vec<u8>>, more: Vec<Vec<u8>>)
    ensures
        json::documents(final(list)@) == json::documents(old(list)@) + json::documents(more@),
{
    let ghost added = more@;
    let mut more = more;
    list.append(&mut more);
    assert(json::documents(list@) =~= json::documents(old(list)@) + json::documents(added));
}

/// The documents of several lists, one list after the other.
pub fn join_lists(lists: Vec<Vec<Vec<u8>>>) -> (all: Vec<Vec<u8>>)
    ensures
        json::documents(all@) == joined_lists(lists_of(lists@)),
{
    let ghost given = lists_of(lists@);
    let mut all: Vec<Vec<u8>> = no_documents();
    let mut lists = lists;
    let count: usize = lists.len();
    let mut i: usize = 0;
    assert(given.take(0) =~= Seq::<Seq<Seq<u8>>>::empty());
    while i < count
        invariant
            i <= count,
            count == given.len(),
            lists@.len() == count,
            forall|j: int| i <= j < count ==> json::documents((#[trigger] lists@[j])@) == given[j],
            json::documents(all@) == joined_lists(given.take(i as int)),
        decreases count - i,
    {
        let mut list: Vec<Vec<u8>> = Vec::new();
        let ghost before = lists@;
        std::mem::swap(&mut list, &mut lists[i]);
        assert(json::documents(before[i as int]@) == given[i as int]);
        append_documents(&mut all, list);
        assert(given.take(i + 1).drop_last() =~= given.take(i as int));
        assert(given.take(i + 1).last() == given[i as int]);
        i += 1;
    }
    assert(given.take(i as int) =~= given);
    all
}

/// What comes of an answer that lists events, given whether it is a document and, if it is, how it
/// is written and which markets it lists.
pub fn read_markets(
    status: u16,
    is_document: bool,
    written: String,
    markets: Vec<Vec<u8>>,
) -> (result: Result<Vec<Vec<u8>>, ApiError>)
    ensures
        if !is_document {
            result == Err::<Vec<Vec<u8>>, ApiError>(ApiError::MarketsUnreadable)
        } else if !is_success(status) {
            result matches Err(ApiError::MarketsStatus { status: s, body }) && s == status && body
                == written
        } else {
            result == Ok::<Vec<Vec<u8>>, ApiError>(markets)
        },
{
    if !is_document {
        Err(ApiError::MarketsUnreadable)
    } else if !(200 <= status && status < 300) {
        Err(ApiError::MarketsStatus { status, body: written })
    } else {
        Ok(markets)
    }
}

impl PolymarketApi {
    /// The markets of the events that an answer lists, each as a document.
    pub fn get_all_active_markets(status: u16, body: &Vec<u8>) -> (result: Result<
        Vec<Vec<u8>>,
        ApiError,
    >)
        ensures
            if !json::json_valid(body@) {
                result == Err::<Vec<Vec<u8>>, ApiError>(ApiError::MarketsUnreadable)
            } else if !is_success(status) {
                result matches Err(ApiError::MarketsStatus { status: s, body: b }) && s == status && b@
                    == json::json_written(body@)
            } else {
                result matches Ok(markets) && json::documents(markets@) == markets_of(events_in(body@))
            },
    {
        let events: Vec<Vec<u8>> = match json::elements(body.as_slice()) {
            Some(events) => events,
            None => match json::member(body.as_slice(), "data") {
                Some(data) => match json::elements(data.as_slice()) {
                    Some(events) => events,
                    None => no_documents(),
                },
                None => no_documents(),
            },
        };
        let ghost all = json::documents(events@);
        let ghost sought = all.map_values(|event: Seq<u8>| markets_in(event));
        let mut lists: Vec<Vec<Vec<u8>>> = Vec::new();
        let mut i: usize = 0;
        while i < events.len()
            invariant
                i <= events.len(),
                all == json::documents(events@),
                sought == all.map_values(|event: Seq<u8>| markets_in(event)),
                lists_of(lists@) == sought.take(i as int),
            decreases events.len() - i,
        {
            let ghost before = lists@;
            let listed = event_markets(&events[i]);
            lists.push(listed);
            assert(all[i as int] == events@[i as int]@);
            assert(lists_of(lists@) =~= lists_of(before).push(json::documents(listed@)));
            assert(sought.take(i + 1) =~= sought.take(i as int).push(sought[i as int]));
            i += 1;
        }
        assert(sought.take(i as int) =~= sought);
        let markets = join_lists(lists);
        let valid = json::is_valid(body.as_slice());
        let written = json::written(body.as_slice());
        read_markets(status, valid, written, markets)
    }
}

/// What comes of an answer to a request by slug, given whether it is a document and, if it is,
/// which markets it lists: the first of them.
pub fn read_market(
    slug: &str,
    status: u16,
    is_document: bool,
    markets: Vec<Vec<u8>>,
) -> (result: Result<Vec<u8>, ApiError>)
    ensures
        if !is_success(status) {
            result matches Err(ApiError::SlugStatus { slug: s, status: n }) && s@ == slug@ && n
                == status
        } else if !is_document {
            result == Err::<Vec<u8>, ApiError>(ApiError::MarketUnreadable)
        } else if markets@.len() == 0 {
            result == Err::<Vec<u8>, ApiError>(ApiError::NoMarket)
        } else {
            result matches Ok(market) && market@ == markets@[0]@
        },
{
    if !(200 <= status && status < 300) {
        return Err(ApiError::SlugStatus { slug: slug.to_owned(), status });
    }
    if !is_document {
        return Err(ApiError::MarketUnreadable);
    }
    if markets.len() == 0 {
        return Err(ApiError::NoMarket);
    }
    let mut markets = markets;
    Ok(markets.swap_remove(0))
}

impl PolymarketApi {
    /// The first market of the event that an answer describes, as a document.
    pub fn get_market_by_slug(slug: &str, status: u16, body: &Vec<u8>) -> (result: Result<
        Vec<u8>,
        ApiError,
    >)
        ensures
            if !is_success(status) {
                result matches Err(ApiError::SlugStatus { slug: s, status: n }) && s@ == slug@ && n
                    == status
            } else if !json::json_valid(body@) {
                result == Err::<Vec<u8>, ApiError>(ApiError::MarketUnreadable)
            } else if markets_in(body@).len() == 0 {
                result == Err::<Vec<u8>, ApiError>(ApiError::NoMarket)
            } else {
                result matches Ok(market) && market@ == markets_in(body@)[0]
            },
    {
        let valid = json::is_valid(body.as_slice());
        let markets = event_markets(body);
        assert(markets_in(body@).len() == markets@.len());
        assert(markets@.len() > 0 ==> markets_in(body@)[0] == markets@[0]@);
        read_market(slug, status, valid, markets)
    }
}

impl PolymarketApi {
    /// Whether the answer to a request for a market is one to read, by its status.
    pub fn get_market(status: u16) -> (result: Result<(), ApiError>)
        ensures
            is_success(status) ==> result is Ok,
            !is_success(status) ==> result == Err::<(), ApiError>(ApiError::MarketStatus { status }),
    {
        if 200 <= status && status < 300 {
            Ok(())
        } else {
            Err(ApiError::MarketStatus { status })
        }
    }
}

/// What comes of an answer to a request for a price, given whether it is a document and, if it is,
/// the price in it and what that denotes.
pub fn read_price(
    status: u16,
    is_document: bool,
    price: Option<String>,
    denoted: Option<Decimal>,
) -> (result: Result<Decimal, ApiError>)
    ensures
        if !is_success(status) {
            result == Err::<Decimal, ApiError>(ApiError::PriceStatus { status })
        } else if !is_document {
            result == Err::<Decimal, ApiError>(ApiError::PriceUnreadable)
        } else if price is None {
            result == Err::<Decimal, ApiError>(ApiError::NoPrice)
        } else if denoted is None {
            result matches Err(ApiError::InvalidPrice { price: p }) && p == price->0
        } else {
            result == Ok::<Decimal, ApiError>(denoted->0)
        },
{
    if !(200 <= status && status < 300) {
        return Err(ApiError::PriceStatus { status });
    }
    if !is_document {
        return Err(ApiError::PriceUnreadable);
    }
    match price {
        Some(price) => match denoted {
            Some(number) => Ok(number),
            None => Err(ApiError::InvalidPrice { price }),
        },
        None => Err(ApiError::NoPrice),
    }
}

/// The text of the price in an answer.
pub open spec fn price_text(answer: Seq<u8>) -> Option<Seq<char>> {
    match json::json_member(answer, "price"@) {
        Some(value) => json::json_text(value),
        None => None,
    }
}

impl PolymarketApi {
    /// The price in an answer.
    pub fn get_price(status: u16, body: &Vec<u8>) -> (result: Result<Decimal, ApiError>)
        ensures
            if !is_success(status) {
                result == Err::<Decimal, ApiError>(ApiError::PriceStatus { status })
            } else if !json::json_valid(body@) {
                result == Err::<Decimal, ApiError>(ApiError::PriceUnreadable)
            } else {
                match price_text(body@) {
                    None => result == Err::<Decimal, ApiError>(ApiError::NoPrice),
                    Some(price) => match decimal::decimal_of_text(price) {
                        None => result matches Err(ApiError::InvalidPrice { price: p }) && p@ == price,
                        Some(number) => result matches Ok(d) && (d.m(), d.s()) == number,
                    },
                }
            },
    {
        let valid = json::is_valid(body.as_slice());
        let price = match json::member(body.as_slice(), "price") {
            Some(value) => json::text(value.as_slice()),
            None => None,
        };
        let denoted = match &price {
            Some(price) => Decimal::parse(price.as_str()),
            None => None,
        };
        read_price(status, valid, price, denoted)
    }
}

impl PolymarketApi {
    /// The highest bid and the lowest ask of an order book, where there is an ask.
    pub fn get_best_price(token_id: &str, book: &OrderBook) -> (price: Option<TokenPrice>)
        ensures
            price is Some <==> book.asks.len() > 0,
            price matches Some(p) ==> {
                &&& p.token_id@ == token_id@
                &&& p.ask matches Some(ask) && is_best(book.asks@, ask, false)
                &&& if book.bids.len() > 0 {
                    p.bid matches Some(bid) && is_best(book.bids@, bid, true)
                } else {
                    p.bid is None
                }
            },
    {
        if book.asks.len() == 0 {
            return None;
        }
        let bid = if book.bids.len() > 0 {
            Some(best_of(&book.bids, true))
        } else {
            None
        };
        Some(TokenPrice { token_id: token_id.to_owned(), bid, ask: Some(best_of(&book.asks, false)) })
    }
}

/// That `best` is the price of one of the entries, and that none of them has a higher one, or none a
/// lower one.
pub open spec fn is_best(entries: Seq<OrderBookEntry>, best: Decimal, highest: bool) -> bool {
    &&& exists|i: int| 0 <= i < entries.len() && (#[trigger] entries[i]).price == best
    &&& forall|i: int|
        0 <= i < entries.len() ==> if highest {
            (#[trigger] entries[i]).price.units() <= best.units()
        } else {
            best.units() <= entries[i].price.units()
        }
}

/// The highest or the lowest price of the entries.
fn best_of(entries: &Vec<OrderBookEntry>, highest: bool) -> (best: Decimal)
    requires
        entries.len() > 0,
    ensures
        is_best(entries@, best, highest),
{
    let mut best = entries[0].price;
    let mut i: usize = 1;
    assert(entries@.take(1)[0].price == best);
    while i < entries.len()
        invariant
            1 <= i <= entries.len(),
            is_best(entries@.take(i as int), best, highest),
        decreases entries.len() - i,
    {
        let price = entries[i].price;
        let ghost seen = entries@.take(i as int);
        let ghost next = entries@.take(i + 1);
        let ghost before = best;
        let better = if highest {
            best.less(price)
        } else {
            price.less(best)
        };
        if better {
            best = price;
        }
        proof {
            let k = choose|k: int| 0 <= k < seen.len() && (#[trigger] seen[k]).price == before;
            assert(next[k].price == before);
            assert(next[i as int].price == price);
            assert forall|j: int| 0 <= j < next.len() implies if highest {
                (#[trigger] next[j]).price.units() <= best.units()
            } else {
                best.units() <= next[j].price.units()
            } by {
                if j < i {
                    assert(next[j] == seen[j]);
                }
            }
        }
        i += 1;
    }
    assert(entries@.take(i as int) =~= entries@);
    best
}

impl PolymarketApi {
    /// The order at a price that a request asks for, where there is a key to sign it with and a
    /// wallet to sign for.
    pub fn place_order(&self, order: &OrderRequest) -> (result: Result<LimitOrder, ApiError>)
        ensures
            self.signer() is None ==> result == Err::<LimitOrder, ApiError>(
                ApiError::MissingPrivateKey { purpose: Purpose::OrderSigning },
            ),
            self.signer() is Some && !signing::is_private_key(self.signer()->0) ==> result == Err::<
                LimitOrder,
                ApiError,
            >(ApiError::InvalidPrivateKey),
            self.can_sign() && !self.has_wallet() ==> (result matches Err(error) && self.sets_up(
                Err(error),
            )),
            self.can_sign() && self.has_wallet() ==> exists|
                price: Option<Decimal>,
                size: Option<Decimal>,
            | #[trigger]
                orders::is_reading(order.price@, price) && #[trigger] orders::is_reading(
                    order.size@,
                    size,
                ) && orders::is_built(*order, price, size, result),
    {
        match self.access(Purpose::OrderSigning) {
            Ok(_) => orders::limit_order(order),
            Err(error) => Err(error),
        }
    }

    /// The market order for an amount, given as a decimal number, if it is one, where there is a key
    /// to sign it with and a wallet to sign for. Its price is then to be asked for.
    pub fn place_market_order(
        &self,
        token_id: &str,
        amount: Option<Decimal>,
        side: &str,
        order_type: Option<&str>,
    ) -> (result: Result<MarketPlan, ApiError>)
        ensures
            self.signer() is None ==> result == Err::<MarketPlan, ApiError>(
                ApiError::MissingPrivateKey { purpose: Purpose::OrderSigning },
            ),
            self.signer() is Some && !signing::is_private_key(self.signer()->0) ==> result == Err::<
                MarketPlan,
                ApiError,
            >(ApiError::InvalidPrivateKey),
            self.can_sign() && !self.has_wallet() ==> (result matches Err(error) && self.sets_up(
                Err(error),
            )),
            self.can_sign() && self.has_wallet() ==> match orders::side_of(side@) {
                None => result matches Err(ApiError::InvalidSide { side: named }) && named@ == side@,
                Some(s) => match amount {
                    None => result == Err::<MarketPlan, ApiError>(ApiError::InvalidAmount),
                    Some(a) => result matches Ok(plan) && orders::is_plan(
                        token_id@,
                        a,
                        s,
                        orders::kind_of(orders::slice_text(order_type)),
                        plan,
                    ),
                },
            },
    {
        match self.access(Purpose::OrderSigning) {
            Ok(_) => orders::market_plan(token_id, amount, side, order_type),
            Err(error) => Err(error),
        }
    }

    /// A batch of market orders, where there is a key to sign them with and a wallet to sign for.
    /// Their prices are then to be asked for.
    pub fn place_batch_market_orders(&self, orders: Vec<BatchOrder>) -> (batch: Result<
        Batch,
        ApiError,
    >)
        ensures
            orders@.len() == 0 ==> batch == Err::<Batch, ApiError>(ApiError::EmptyBatch),
            orders@.len() > 0 && self.signer() is None ==> batch == Err::<Batch, ApiError>(
                ApiError::MissingPrivateKey { purpose: Purpose::OrderSigning },
            ),
            orders@.len() > 0 && self.signer() is Some && !signing::is_private_key(
                self.signer()->0,
            ) ==> batch == Err::<Batch, ApiError>(ApiError::InvalidPrivateKey),
            orders@.len() > 0 && self.can_sign() && !self.has_wallet() ==> (batch matches Err(error)
                && self.sets_up(Err(error))),
            orders@.len() > 0 && self.can_sign() && self.has_wallet() ==> {
                &&& batch matches Ok(b)
                &&& b.well_formed()
                &&& b.requests() == orders@
                &&& b.ready().len() == 0
            },
    {
        let batch = match Batch::new(orders) {
            Ok(batch) => batch,
            Err(error) => return Err(error),
        };
        match self.access(Purpose::OrderSigning) {
            Ok(_) => Ok(batch),
            Err(error) => Err(error),
        }
    }

    /// The call that redeems the tokens of an outcome of a condition, where there is a key to sign
    /// it with.
    pub fn redeem_tokens(&self, condition_id: &str, outcome: &str) -> (result: Result<
        ContractCall,
        ApiError,
    >)
        ensures
            self.signer() is None ==> result == Err::<ContractCall, ApiError>(
                ApiError::MissingPrivateKey { purpose: Purpose::Redemption },
            ),
            self.signer() is Some && !signing::is_private_key(self.signer()->0) ==> result == Err::<
                ContractCall,
                ApiError,
            >(ApiError::InvalidPrivateKey),
            self.signer() is Some && signing::is_private_key(self.signer()->0) ==> redeem::is_call(
                condition_id@,
                outcome@,
                signing::checksummed_address(redeem::collateral_text()),
                signing::word_of(redeem::without_hex_mark(condition_id@)),
                signing::checksummed_address(redeem::contract_text()),
                result,
            ),
    {
        match self.signing_key(Purpose::Redemption) {
            Ok(_) => redeem::redeem_call(condition_id, outcome),
            Err(error) => Err(error),
        }
    }
}

/// Funds in a proxy wallet are signed for as such, never with the private key's own account; and
/// without a proxy wallet nothing else is signed for.
pub proof fn wallets_sign_for_themselves(
    proxy: Option<Seq<char>>,
    address: Option<Seq<u8>>,
    signature_type: Option<u8>,
    wallet: Wallet,
)
    requires
        is_wallet(proxy, address, signature_type, Ok(wallet)),
    ensures
        proxy is Some <==> wallet.funder is Some,
        proxy is Some ==> wallet.signature_type == Some(SignatureType::Proxy)
            || wallet.signature_type == Some(SignatureType::GnosisSafe),
        proxy is None ==> wallet.signature_type is None || wallet.signature_type == Some(
            SignatureType::Eoa,
        ),
{
}

/// A request is sent with the time that was signed for it: the time header reads as that time, and
/// the signature is over a text that ends in it.
pub proof fn signed_time_is_sent(
    api: PolymarketApi,
    method: Seq<char>,
    path: Seq<char>,
    body: Seq<char>,
    timestamp: u64,
)
    requires
        api.key() is Some,
        api.secret() is Some,
        api.passphrase() is Some,
    ensures
        api.auth_headers(method, path, body, timestamp).len() == 4,
        text::unsigned_value(api.auth_headers(method, path, body, timestamp)[2].1) == Some(
            timestamp,
        ),
        signing::signed_text(method, path, body, timestamp) == method + path + body
            + api.auth_headers(method, path, body, timestamp)[2].1,
{
    text::number_text_round_trip(timestamp);
}

/// The mark before an address is optional: a text is taken as it would be with `0x` before it.
pub proof fn mark_is_optional(text: Seq<char>)
    requires
        !(text.len() >= 2 && text[0] == '0' && text[1] == 'x'),
    ensures
        with_hex_mark(text) == with_hex_mark("0x"@ + text),
        with_hex_mark(text).skip(2) == text,
        with_hex_mark(text)[0] == '0' && with_hex_mark(text)[1] == 'x',
{
    reveal_strlit("0x");
    assert(with_hex_mark(text).skip(2) =~= text);
}

/// The best price does not depend on where in the book it stands: books with the same prices, in any
/// order and however often each occurs, have bests of the same value.
pub proof fn order_of_a_book_does_not_matter(
    a: Seq<OrderBookEntry>,
    b: Seq<OrderBookEntry>,
    best_a: Decimal,
    best_b: Decimal,
    highest: bool,
)
    requires
        is_best(a, best_a, highest),
        is_best(b, best_b, highest),
        forall|i: int|
            0 <= i < a.len() ==> exists|j: int|
                0 <= j < b.len() && (#[trigger] b[j]).price == (#[trigger] a[i]).price,
        forall|i: int|
            0 <= i < b.len() ==> exists|j: int|
                0 <= j < a.len() && (#[trigger] a[j]).price == (#[trigger] b[i]).price,
    ensures
        best_a.units() == best_b.units(),
{
    let i = choose|i: int| 0 <= i < a.len() && (#[trigger] a[i]).price == best_a;
    let j = choose|j: int| 0 <= j < b.len() && (#[trigger] b[j]).price == best_b;
    let p = choose|p: int| 0 <= p < b.len() && (#[trigger] b[p]).price == a[i].price;
    let q = choose|q: int| 0 <= q < a.len() && (#[trigger] a[q]).price == b[j].price;
    assert(b[p].price == best_a);
    assert(a[q].price == best_b);
}

/// No bid is higher than the best one and no ask lower, and both are prices of the book.
pub proof fn no_price_is_better(book: OrderBook, bid: Decimal, ask: Decimal, i: int)
    requires
        is_best(book.bids@, bid, true),
        is_best(book.asks@, ask, false),
    ensures
        0 <= i < book.bids.len() ==> book.bids@[i].price.units() <= bid.units(),
        0 <= i < book.asks.len() ==> book.asks@[i].price.units() >= ask.units(),
        exists|j: int| 0 <= j < book.bids.len() && #[trigger] book.bids@[j].price == bid,
        exists|j: int| 0 <= j < book.asks.len() && #[trigger] book.asks@[j].price == ask,
{
    let j = choose|j: int| 0 <= j < book.bids@.len() && (#[trigger] book.bids@[j]).price == bid;
    assert(book.bids@[j].price == bid);
    let k = choose|k: int| 0 <= k < book.asks@.len() && (#[trigger] book.asks@[k]).price == ask;
    assert(book.asks@[k].price == ask);
}

/// The markets of several events are those of the first, then those of the next, and so on: none is
/// left out, none is added, and their order stays.
pub proof fn markets_of_each_event_are_listed(events: Seq<Seq<u8>>, event: Seq<u8>)
    ensures
        markets_of(Seq::<Seq<u8>>::empty()) == Seq::<Seq<u8>>::empty(),
        markets_of(events.push(event)) == markets_of(events) + markets_in(event),
{
    let read = |e: Seq<u8>| markets_in(e);
    let before = events.map_values(read);
    let after = events.push(event).map_values(read);
    assert(after =~= before.push(markets_in(event)));
    assert(after.drop_last() =~= before);
    assert(Seq::<Seq<u8>>::empty().map_values(read) =~= Seq::<Seq<Seq<u8>>>::empty());
}

/// Where the funds are in a proxy wallet, it is the one that signs: the address is the one that was
/// set, and a Gnosis safe is one exactly where its number, 2, is.
pub proof fn wallets_by_their_settings(
    proxy: Option<Seq<char>>,
    address: Option<Seq<u8>>,
    signature_type: Option<u8>,
    wallet: Result<Wallet, ApiError>,
)
    requires
        is_wallet(proxy, address, signature_type, wallet),
    ensures
        proxy is Some && address is None ==> wallet is Err,
        signature_type is Some && signature_type->0 > 2 ==> wallet is Err,
        proxy is None && signature_type is Some && signature_type->0 > 0 ==> wallet is Err,
        wallet matches Ok(w) ==> {
            &&& proxy is Some ==> w.funder is Some && Some(w.funder->0@) == address
            &&& w.signature_type == Some(SignatureType::GnosisSafe) <==> signature_type == Some(2u8)
            &&& w.signature_type == Some(SignatureType::Proxy) <==> proxy is Some && signature_type
                != Some(2u8)
            &&& w.signature_type == Some(SignatureType::Eoa) <==> proxy is None && signature_type
                == Some(0u8)
        },
        wallet is Ok <==> (proxy is Some ==> address is Some) && (signature_type is None
            || signature_type == Some(0u8) || (proxy is Some && (signature_type == Some(1u8)
            || signature_type == Some(2u8)))),
{
}

/// The events of an answer are its own elements where it is a list, those of its `data` where that is
/// one, and none otherwise. The markets of an event are the elements of its `markets`.
pub proof fn answers_list_events(answer: Seq<u8>, list: Seq<Seq<u8>>)
    ensures
        json::json_elements(answer) == Some(list) ==> events_in(answer) == list,
        json::json_elements(answer) is None && json::json_member(answer, "data"@) is Some
            && json::json_elements(json::json_member(answer, "data"@)->0) == Some(list)
            ==> events_in(answer) == list,
        json::json_elements(answer) is None && json::json_member(answer, "data"@) is None
            ==> events_in(answer).len() == 0,
        json::json_member(answer, "markets"@) is Some && json::json_elements(
            json::json_member(answer, "markets"@)->0,
        ) == Some(list) ==> markets_in(answer) == list,
        json::json_member(answer, "markets"@) is None ==> markets_in(answer).len() == 0,
{
}

/// There are credentials exactly where all three are set, and they are those that were set.
pub proof fn credentials_are_three(
    key: Option<Seq<char>>,
    secret: Option<Seq<char>>,
    passphrase: Option<Seq<char>>,
    result: Result<ApiCredentials, ApiError>,
)
    requires
        are_credentials(key, secret, passphrase, result),
    ensures
        result is Ok <==> key is Some && secret is Some && passphrase is Some,
        result matches Ok(c) ==> c.key@ == key->0 && c.secret@ == secret->0 && c.passphrase@
            == passphrase->0,
        result matches Err(error) ==> (error matches ApiError::MissingCredential { credential }
            && match credential {
            Credential::Key => key is None,
            Credential::Secret => secret is None,
            Credential::Passphrase => passphrase is None,
        }),
{
}

/// Requests are signed exactly where all three credentials are set, with the signature of this very
/// request and no part of it left out.
pub proof fn headers_carry_the_credentials(
    api: PolymarketApi,
    method: Seq<char>,
    path: Seq<char>,
    body: Seq<char>,
    timestamp: u64,
)
    ensures
        ({
            let headers = api.auth_headers(method, path, body, timestamp);
            &&& headers.len() == 0 <==> api.key() is None || api.secret() is None || api.passphrase()
                is None
            &&& headers.len() == 0 || headers.len() == 4
            &&& headers.len() == 4 ==> {
                &&& headers[0] == ("POLY_API_KEY"@, api.key()->0)
                &&& headers[1].0 == "POLY_SIGNATURE"@
                &&& headers[1].1 == signing::hex_text(
                    signing::hmac_sha256(
                        signing::key_of(signing::base64_bytes(api.secret()->0), api.secret()->0),
                        vstd::utf8::encode_utf8(
                            method + path + body + text::digits(timestamp as nat),
                        ),
                    ),
                )
                &&& headers[2] == ("POLY_TIMESTAMP"@, text::digits(timestamp as nat))
                &&& headers[3] == ("POLY_PASSPHRASE"@, api.passphrase()->0)
            }
        }),
{
}

} // verus!
