//! Data model of the solver: tokens, intents, quotes, bus envelopes and
//! the token-diff commitment, each with a mathematical view.

use vstd::prelude::*;

verus! {

/// Mathematical view of a [`Token`].
pub struct TokenView {
    pub symbol: Seq<char>,
    pub address: Seq<char>,
    pub decimals: u8,
}

/// A tradable asset: human-readable ticker, venue-specific address and
/// decimal scaling factor. Tokens are compared by address for identity.
#[derive(Debug, Clone)]
pub struct Token {
    pub symbol: String,
    pub address: String,
    pub decimals: u8,
}

impl View for Token {
    type V = TokenView;

    open spec fn view(&self) -> TokenView {
        TokenView { symbol: self.symbol@, address: self.address@, decimals: self.decimals }
    }
}

/// Mathematical view of a [`SwapIntent`].
pub struct SwapIntentView {
    pub id: Seq<char>,
    pub from_token: TokenView,
    pub to_token: TokenView,
    pub amount: Seq<char>,
    pub min_amount_out: Seq<char>,
    pub deadline: u64,
}

/// An immutable request to exchange `amount` of `from_token` for at least
/// `min_amount_out` of `to_token`, expiring at the absolute time `deadline`.
/// Amounts are decimal strings, never floating point.
#[derive(Debug, Clone)]
pub struct SwapIntent {
    pub id: String,
    pub from_token: Token,
    pub to_token: Token,
    pub amount: String,
    pub min_amount_out: String,
    pub deadline: u64,
}

impl View for SwapIntent {
    type V = SwapIntentView;

    open spec fn view(&self) -> SwapIntentView {
        SwapIntentView {
            id: self.id@,
            from_token: self.from_token@,
            to_token: self.to_token@,
            amount: self.amount@,
            min_amount_out: self.min_amount_out@,
            deadline: self.deadline,
        }
    }
}

/// Mathematical view of a [`SwapQuote`].
pub struct SwapQuoteView {
    pub intent_id: Seq<char>,
    pub amount_out: Seq<char>,
    pub price: Seq<char>,
    pub gas_estimate: u64,
}

/// A priced response of the venue to a specific intent.
#[derive(Debug, Clone)]
pub struct SwapQuote {
    pub intent_id: String,
    pub amount_out: String,
    pub price: String,
    pub gas_estimate: u64,
}

impl View for SwapQuote {
    type V = SwapQuoteView;

    open spec fn view(&self) -> SwapQuoteView {
        SwapQuoteView {
            intent_id: self.intent_id@,
            amount_out: self.amount_out@,
            price: self.price@,
            gas_estimate: self.gas_estimate,
        }
    }
}

/// Status of a swap execution.
#[derive(Debug, Clone)]
pub enum SwapStatus {
    Pending,
    Executed,
    Failed,
}

/// Mathematical view of a [`SolverBusMessage`].
pub struct SolverBusMessageView {
    pub jsonrpc: Seq<char>,
    pub method: Seq<char>,
    pub params: SolverBusParamsView,
}

/// Inbound subscription-style bus envelope: a `method` tag and parameters.
#[derive(Debug)]
pub struct SolverBusMessage {
    pub jsonrpc: String,
    pub method: String,
    pub params: SolverBusParams,
}

impl View for SolverBusMessage {
    type V = SolverBusMessageView;

    open spec fn view(&self) -> SolverBusMessageView {
        SolverBusMessageView { jsonrpc: self.jsonrpc@, method: self.method@, params: self.params@ }
    }
}

/// Mathematical view of [`SolverBusParams`].
pub struct SolverBusParamsView {
    pub subscription: Seq<char>,
    pub intent: Option<SwapIntentView>,
}

/// Parameters of a subscription-style envelope: the subscription id and,
/// for intent notifications, a flattened [`SwapIntent`].
#[derive(Debug)]
pub struct SolverBusParams {
    pub subscription: String,
    pub intent: Option<SwapIntent>,
}

impl View for SolverBusParams {
    type V = SolverBusParamsView;

    open spec fn view(&self) -> SolverBusParamsView {
        SolverBusParamsView {
            subscription: self.subscription@,
            intent: match self.intent {
                Some(i) => Some(i@),
                None => None,
            },
        }
    }
}

/// Mathematical view of a [`JsonRpcRequest`].
pub struct JsonRpcRequestView {
    pub jsonrpc: Seq<char>,
    pub id: u64,
    pub method: Seq<char>,
    pub params: Option<Seq<Seq<char>>>,
}

/// Outbound JSON-RPC request to the bus.
#[derive(Debug)]
pub struct JsonRpcRequest {
    pub jsonrpc: String,
    pub id: u64,
    pub method: String,
    pub params: Option<Vec<String>>,
}

impl View for JsonRpcRequest {
    type V = JsonRpcRequestView;

    open spec fn view(&self) -> JsonRpcRequestView {
        JsonRpcRequestView {
            jsonrpc: self.jsonrpc@,
            id: self.id,
            method: self.method@,
            params: match self.params {
                Some(ps) => Some(ps.deep_view()),
                None => None,
            },
        }
    }
}

/// Mathematical view of a [`JsonRpcResponse`].
pub struct JsonRpcResponseView {
    pub jsonrpc: Seq<char>,
    pub id: u64,
    pub result: Seq<char>,
}

/// Inbound JSON-RPC acknowledgment: a numeric request id and a result.
#[derive(Debug)]
pub struct JsonRpcResponse {
    pub jsonrpc: String,
    pub id: u64,
    pub result: String,
}

impl View for JsonRpcResponse {
    type V = JsonRpcResponseView;

    open spec fn view(&self) -> JsonRpcResponseView {
        JsonRpcResponseView { jsonrpc: self.jsonrpc@, id: self.id, result: self.result@ }
    }
}

/// Mathematical view of an [`IntentMessage`].
pub struct IntentMessageView {
    pub signer_id: Seq<char>,
    pub deadline: u64,
    pub intents: Seq<IntentView>,
}

/// Token-diff commitment assembled when a quote is accepted: the signed-intent
/// envelope carrying the signer, a deadline, and the token-diff operations.
#[derive(Debug, Clone)]
pub struct IntentMessage {
    /// ID of the signer account.
    pub signer_id: String,
    /// Deadline for the intent.
    pub deadline: IntentDeadline,
    /// Token-diff operations to execute.
    pub intents: Vec<Intent>,
}

impl View for IntentMessage {
    type V = IntentMessageView;

    open spec fn view(&self) -> IntentMessageView {
        IntentMessageView {
            signer_id: self.signer_id@,
            deadline: self.deadline.timestamp,
            intents: self.intents.deep_view(),
        }
    }
}

/// Absolute deadline of a commitment, in seconds.
#[derive(Debug, Clone)]
pub struct IntentDeadline {
    /// Unix timestamp in seconds.
    pub timestamp: u64,
}

/// Mathematical view of an [`Intent`]: the tag and the diff as a sequence of
/// address/delta pairs.
pub struct IntentView {
    pub intent: Seq<char>,
    pub diff: Seq<(Seq<char>, Seq<char>)>,
}

/// One token-diff operation: a kind tag (`"token_diff"`) and the balance
/// deltas, one `(token address, signed decimal delta)` pair per token.
/// The pair list plays the role of a map; its keys are kept distinct.
#[derive(Debug, Clone)]
pub struct Intent {
    /// Kind of operation (usually "token_diff").
    pub intent: String,
    /// Token balance deltas, keyed by token address.
    pub diff: Vec<(String, String)>,
}

impl DeepView for Intent {
    type V = IntentView;

    open spec fn deep_view(&self) -> IntentView {
        IntentView {
            intent: self.intent@,
            diff: self.diff@.map_values(|p: (String, String)| (p.0@, p.1@)),
        }
    }
}

impl View for Intent {
    type V = IntentView;

    open spec fn view(&self) -> IntentView {
        self.deep_view()
    }
}

} // verus!
