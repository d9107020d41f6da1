//! Client for the pricing venue: a shared, read-only HTTP handle with the
//! credential installed, and the pure construction and mapping around the
//! venue's quote protocol. The network calls themselves are performed by
//! the binary around the library; everything that decides or computes is
//! here, verified.

use vstd::prelude::*;

use crate::decimal::{dec_str, u64_to_dec};
use crate::solver::SolverError;
use crate::types::{SwapIntent, SwapQuote, SwapQuoteView, Token, TokenView};

verus! {

/// Declared shape of reqwest's asynchronous HTTP client. The library
/// carries it as an opaque value and never reads into it.
#[verifier::external_type_specification]
#[verifier::external_body]
pub struct ExClient(reqwest::Client);

/// Relies on reqwest's `ClientBuilder`: assembles an HTTP client whose
/// default headers carry the venue credential under `x-api-key`.
/// `HeaderValue::from_str` rejects values with bytes outside 32..=255 or
/// equal to 127, and `ClientBuilder::build` can fail on backend setup;
/// either failure yields `None`.
#[verifier::external_body]
fn build_http_client(api_key: &str) -> (r: Option<reqwest::Client>) {
    let value = match reqwest::header::HeaderValue::from_str(api_key) {
        Ok(v) => v,
        Err(_) => return None,
    };
    let mut headers = reqwest::header::HeaderMap::new();
    headers.insert("x-api-key", value);
    reqwest::Client::builder().default_headers(headers).build().ok()
}

/// Mathematical view of a [`RuneSwapQuoteResponse`].
pub struct RuneSwapQuoteResponseView {
    pub quote_id: Seq<char>,
    pub from_amount: Seq<char>,
    pub to_amount: Seq<char>,
    pub price: Seq<char>,
    pub gas_estimate: u64,
    pub expires_at: u64,
}

/// Response of the venue to a quote request, as decoded from its wire
/// representation.
#[derive(Debug, Clone)]
pub struct RuneSwapQuoteResponse {
    pub quote_id: String,
    pub from_amount: String,
    pub to_amount: String,
    pub price: String,
    pub gas_estimate: u64,
    pub expires_at: u64,
}

impl View for RuneSwapQuoteResponse {
    type V = RuneSwapQuoteResponseView;

    open spec fn view(&self) -> RuneSwapQuoteResponseView {
        RuneSwapQuoteResponseView {
            quote_id: self.quote_id@,
            from_amount: self.from_amount@,
            to_amount: self.to_amount@,
            price: self.price@,
            gas_estimate: self.gas_estimate,
            expires_at: self.expires_at,
        }
    }
}

/// Mathematical view of a [`RuneSwapQuoteRequest`].
pub struct RuneSwapQuoteRequestView {
    pub from_token: Seq<char>,
    pub to_token: Seq<char>,
    pub amount: Seq<char>,
    pub side: Seq<char>,
}

/// Body of a venue quote request: token addresses, amount and the trade
/// side.
#[derive(Debug, Clone)]
pub struct RuneSwapQuoteRequest {
    pub from_token: String,
    pub to_token: String,
    pub amount: String,
    pub side: String,
}

impl View for RuneSwapQuoteRequest {
    type V = RuneSwapQuoteRequestView;

    open spec fn view(&self) -> RuneSwapQuoteRequestView {
        RuneSwapQuoteRequestView {
            from_token: self.from_token@,
            to_token: self.to_token@,
            amount: self.amount@,
            side: self.side@,
        }
    }
}

/// Mathematical view of a [`RuneSwapTokenEntry`].
pub struct RuneSwapTokenEntryView {
    pub symbol: Seq<char>,
    pub address: Seq<char>,
    pub decimals: u8,
}

/// One entry of the venue's token listing, as decoded from its wire
/// representation.
#[derive(Debug, Clone)]
pub struct RuneSwapTokenEntry {
    pub symbol: String,
    pub address: String,
    pub decimals: u8,
}

impl View for RuneSwapTokenEntry {
    type V = RuneSwapTokenEntryView;

    open spec fn view(&self) -> RuneSwapTokenEntryView {
        RuneSwapTokenEntryView {
            symbol: self.symbol@,
            address: self.address@,
            decimals: self.decimals,
        }
    }
}

/// Client for the pricing venue: the HTTP handle with the credential
/// installed, the credential itself, and the venue's base address.
/// Read-only once constructed; safe to share across concurrent tasks.
pub struct RuneSwapClient {
    /// HTTP handle used by the binary for the venue calls.
    pub client: reqwest::Client,
    /// API key for authentication.
    pub api_key: String,
    /// Base address of the venue.
    pub base_url: String,
}

impl RuneSwapClient {
    /// Builds a venue client holding the credential. Fails with
    /// `VenueUnavailable` when the HTTP client cannot be assembled for
    /// this credential.
    pub fn new(api_key: &str) -> (r: Result<Self, SolverError>)
        ensures
            match r {
                Ok(c) => c.api_key@ == api_key@ && c.base_url@ == "https://api.runeswap.io/v1"@,
                Err(e) => e == SolverError::VenueUnavailable,
            },
    {
        match build_http_client(api_key) {
            Some(client) => Ok(
                RuneSwapClient {
                    client,
                    api_key: String::from_str(api_key),
                    base_url: String::from_str("https://api.runeswap.io/v1"),
                },
            ),
            None => Err(SolverError::VenueUnavailable),
        }
    }

    /// The address of the venue's quote endpoint.
    pub fn quote_url(&self) -> (r: String)
        ensures
            r@ == self.base_url@ + "/quote"@,
    {
        let mut u = self.base_url.clone();
        u.append("/quote");
        u
    }

    /// The address of the venue's execution endpoint.
    pub fn execute_url(&self) -> (r: String)
        ensures
            r@ == self.base_url@ + "/execute"@,
    {
        let mut u = self.base_url.clone();
        u.append("/execute");
        u
    }

    /// The address of the venue's token listing.
    pub fn tokens_url(&self) -> (r: String)
        ensures
            r@ == self.base_url@ + "/tokens"@,
    {
        let mut u = self.base_url.clone();
        u.append("/tokens");
        u
    }

    /// Builds the venue quote request for an intent: its token addresses,
    /// its amount, and the sell side.
    pub fn quote_request(intent: &SwapIntent) -> (r: RuneSwapQuoteRequest)
        ensures
            r@ == (RuneSwapQuoteRequestView {
                from_token: intent@.from_token.address,
                to_token: intent@.to_token.address,
                amount: intent@.amount,
                side: "sell"@,
            }),
    {
        RuneSwapQuoteRequest {
            from_token: intent.from_token.address.clone(),
            to_token: intent.to_token.address.clone(),
            amount: intent.amount.clone(),
            side: String::from_str("sell"),
        }
    }

    /// Maps the venue's response fields onto a quote tagged with the
    /// intent that asked for it.
    pub fn quote_from_response(intent: &SwapIntent, response: RuneSwapQuoteResponse) -> (q:
        SwapQuote)
        ensures
            q@ == (SwapQuoteView {
                intent_id: intent@.id,
                amount_out: response@.to_amount,
                price: response@.price,
                gas_estimate: response@.gas_estimate,
            }),
    {
        SwapQuote {
            intent_id: intent.id.clone(),
            amount_out: response.to_amount,
            price: response.price,
            gas_estimate: response.gas_estimate,
        }
    }

    /// Submits a quote for execution. The venue does not yet confirm
    /// executions synchronously, so the returned transaction identifier
    /// is the placeholder `tx-` followed by the given time in
    /// milliseconds; it is no evidence of settlement.
    pub fn execute_swap(&self, quote: &SwapQuote, now_millis: u64) -> (r: Result<
        String,
        SolverError,
    >)
        ensures
            match r {
                Ok(tx) => tx@ == "tx-"@ + dec_str(now_millis as nat),
                Err(_) => false,
            },
    {
        let mut tx = String::from_str("tx-");
        let digits = u64_to_dec(now_millis);
        tx.append(digits.as_str());
        Ok(tx)
    }

    /// Maps the venue's decoded token listing onto the library's tokens,
    /// preserving each entry's symbol, address and decimals.
    pub fn tokens_from_response(entries: Vec<RuneSwapTokenEntry>) -> (r: Vec<Token>)
        ensures
            r@.len() == entries@.len(),
            forall|i: int|
                0 <= i < entries@.len() ==> #[trigger] r@[i]@ == (TokenView {
                    symbol: entries@[i].symbol@,
                    address: entries@[i].address@,
                    decimals: entries@[i].decimals,
                }),
    {
        let mut tokens: Vec<Token> = Vec::new();
        let mut k: usize = 0;
        while k < entries.len()
            invariant
                0 <= k <= entries@.len(),
                tokens@.len() == k,
                forall|i: int|
                    0 <= i < k ==> #[trigger] tokens@[i]@ == (TokenView {
                        symbol: entries@[i].symbol@,
                        address: entries@[i].address@,
                        decimals: entries@[i].decimals,
                    }),
            decreases entries@.len() - k,
        {
            let e = &entries[k];
            tokens.push(
                Token { symbol: e.symbol.clone(), address: e.address.clone(), decimals: e.decimals },
            );
            k = k + 1;
        }
        tokens
    }
}

} // verus!
