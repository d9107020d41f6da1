//! Per-intent state machine of the solver engine.
//!
//! Each intent is driven through
//! `Received -> Quoting -> Quoted -> (Executing -> Executed) | Rejected |
//! Expired | Failed`, strictly forward. The venue calls themselves are
//! performed by the binary around the library between the transitions;
//! every decision stands here, verified: validation, the settlement of
//! each venue outcome, the execute gate, and the token-diff commitment.

use vstd::prelude::*;

use crate::decimal::{check_pos_decimal, is_pos_decimal};
use crate::runeswap::RuneSwapClient;
use crate::types::{
    Intent, IntentDeadline, IntentMessage, IntentMessageView, IntentView, SwapIntent,
    SwapIntentView, SwapQuote, SwapQuoteView,
};

verus! {

/// Failure causes, one variant per failure class; per-intent failures
/// never tear down the bus connection, and connection failures never
/// affect other intents.
#[derive(Debug, Clone, Copy, PartialEq, Eq, Structural)]
pub enum SolverError {
    /// The bus address could not be reached or the handshake failed.
    BusUnreachable,
    /// The bus stream failed mid-run.
    BusProtocolError,
    /// An inbound frame matched no known shape; never fatal.
    MalformedFrame,
    /// The intent itself is unacceptable: equal tokens or a bad amount.
    InvalidIntent,
    /// The venue could not be reached.
    VenueUnavailable,
    /// The venue's response could not be decoded.
    VenueProtocolError,
    /// The venue reported a business rejection, e.g. no liquidity.
    QuoteRejected,
}

/// Mathematical view of an [`IntentState`].
pub enum IntentStateView {
    Received,
    Quoting,
    Quoted(SwapQuoteView),
    Executing(SwapQuoteView),
    Executed(Seq<char>),
    Rejected,
    Expired,
    Failed(SolverError),
}

/// State of one intent's processing. Transitions are strictly forward;
/// the four final states are never left.
#[derive(Debug)]
pub enum IntentState {
    Received,
    Quoting,
    Quoted(SwapQuote),
    Executing(SwapQuote),
    Executed(String),
    Rejected,
    Expired,
    Failed(SolverError),
}

impl View for IntentState {
    type V = IntentStateView;

    open spec fn view(&self) -> IntentStateView {
        match self {
            IntentState::Received => IntentStateView::Received,
            IntentState::Quoting => IntentStateView::Quoting,
            IntentState::Quoted(q) => IntentStateView::Quoted(q@),
            IntentState::Executing(q) => IntentStateView::Executing(q@),
            IntentState::Executed(tx) => IntentStateView::Executed(tx@),
            IntentState::Rejected => IntentStateView::Rejected,
            IntentState::Expired => IntentStateView::Expired,
            IntentState::Failed(e) => IntentStateView::Failed(*e),
        }
    }
}

/// Validation of a freshly received intent at time `now`: a past deadline
/// expires it, equal token addresses or a malformed amount fail it, and
/// otherwise it proceeds to quoting.
pub open spec fn spec_begin_intent(intent: SwapIntentView, now: u64) -> IntentStateView {
    if intent.deadline < now {
        IntentStateView::Expired
    } else if intent.from_token.address == intent.to_token.address {
        IntentStateView::Failed(SolverError::InvalidIntent)
    } else if !is_pos_decimal(intent.amount) {
        IntentStateView::Failed(SolverError::InvalidIntent)
    } else {
        IntentStateView::Quoting
    }
}

/// Settlement of the venue's quote outcome: a quote is held as `Quoted`,
/// a business rejection ends in `Rejected`, any other failure in
/// `Failed`.
pub open spec fn spec_settle_quote(outcome: Result<SwapQuoteView, SolverError>) -> IntentStateView {
    match outcome {
        Ok(q) => IntentStateView::Quoted(q),
        Err(SolverError::QuoteRejected) => IntentStateView::Rejected,
        Err(e) => IntentStateView::Failed(e),
    }
}

/// The execute gate: only `Quoted` enters `Executing`; every other state
/// is left unchanged.
///
/// The venue's quote-validity window (`expires_at`) is deliberately not
/// checked here: a quote held past its window may still be submitted,
/// and it is the venue's place to reject it. Enforcing the window is an
/// extension point, not a silent default.
pub open spec fn spec_begin_execute(state: IntentStateView) -> IntentStateView {
    match state {
        IntentStateView::Quoted(q) => IntentStateView::Executing(q),
        _ => state,
    }
}

/// Settlement of the venue's execution outcome.
pub open spec fn spec_settle_execute(outcome: Result<Seq<char>, SolverError>) -> IntentStateView {
    match outcome {
        Ok(tx) => IntentStateView::Executed(tx),
        Err(e) => IntentStateView::Failed(e),
    }
}

/// The token-diff of fulfilling `intent` at `quote`: the source token
/// loses the intent's amount (a string negation, no float arithmetic),
/// the target token gains the quoted amount.
pub open spec fn spec_token_diff(intent: SwapIntentView, quote: SwapQuoteView) -> Seq<
    (Seq<char>, Seq<char>),
> {
    seq![
        (intent.from_token.address, seq!['-'] + intent.amount),
        (intent.to_token.address, quote.amount_out),
    ]
}

/// The commitment message for a quoted intent: signed by `signer`, due
/// 300 time units after `now`, carrying the one token-diff operation.
pub open spec fn spec_intent_message(
    intent: SwapIntentView,
    quote: SwapQuoteView,
    signer: Seq<char>,
    now: u64,
) -> IntentMessageView {
    IntentMessageView {
        signer_id: signer,
        deadline: (now + 300) as u64,
        intents: seq![IntentView { intent: "token_diff"@, diff: spec_token_diff(intent, quote) }],
    }
}

/// View of a quote outcome.
pub open spec fn quote_outcome_view(o: Result<SwapQuote, SolverError>) -> Result<
    SwapQuoteView,
    SolverError,
> {
    match o {
        Ok(q) => Ok(q@),
        Err(e) => Err(e),
    }
}

/// View of an execution outcome.
pub open spec fn exec_outcome_view(o: Result<String, SolverError>) -> Result<
    Seq<char>,
    SolverError,
> {
    match o {
        Ok(tx) => Ok(tx@),
        Err(e) => Err(e),
    }
}

/// Solver for the intent bus protocol: the account acting as signer, its
/// credential, the bus address, and the shared venue client.
pub struct NearIntentsSolver {
    /// Account the solver signs commitments with.
    pub account_id: String,
    /// Credential of that account.
    pub private_key: String,
    /// Address of the intent bus.
    pub solver_bus_url: String,
    /// Shared, read-only venue client.
    pub runeswap_client: RuneSwapClient,
}

impl NearIntentsSolver {
    /// Creates a solver over the given account and venue client.
    pub fn new(
        account_id: String,
        private_key: String,
        solver_bus_url: String,
        runeswap_client: RuneSwapClient,
    ) -> (r: Self)
        ensures
            r.account_id@ == account_id@,
            r.private_key@ == private_key@,
            r.solver_bus_url@ == solver_bus_url@,
            r.runeswap_client == runeswap_client,
    {
        Self { account_id, private_key, solver_bus_url, runeswap_client }
    }

    /// Validates a received intent, entering `Expired`, `Failed` or
    /// `Quoting` as [`spec_begin_intent`] prescribes.
    pub fn begin_intent(intent: &SwapIntent, now: u64) -> (r: IntentState)
        ensures
            r@ == spec_begin_intent(intent@, now),
    {
        if intent.deadline < now {
            IntentState::Expired
        } else if intent.from_token.address.eq(&intent.to_token.address) {
            IntentState::Failed(SolverError::InvalidIntent)
        } else if !check_pos_decimal(intent.amount.as_str()) {
            IntentState::Failed(SolverError::InvalidIntent)
        } else {
            IntentState::Quoting
        }
    }

    /// Settles the venue's quote outcome for an intent in `Quoting`.
    pub fn settle_quote(state: IntentState, outcome: Result<SwapQuote, SolverError>) -> (r:
        IntentState)
        requires
            state@ is Quoting,
        ensures
            r@ == spec_settle_quote(quote_outcome_view(outcome)),
    {
        match outcome {
            Ok(q) => IntentState::Quoted(q),
            Err(e) => match e {
                SolverError::QuoteRejected => IntentState::Rejected,
                _ => IntentState::Failed(e),
            },
        }
    }

    /// The execute gate: moves `Quoted` to `Executing` and leaves every
    /// other state unchanged, so execution is reachable from `Quoted`
    /// alone.
    pub fn begin_execute(state: IntentState) -> (r: IntentState)
        ensures
            r@ == spec_begin_execute(state@),
    {
        match state {
            IntentState::Quoted(q) => IntentState::Executing(q),
            other => other,
        }
    }

    /// Settles the venue's execution outcome for an intent in
    /// `Executing`.
    pub fn settle_execute(state: IntentState, outcome: Result<String, SolverError>) -> (r:
        IntentState)
        requires
            state@ is Executing,
        ensures
            r@ == spec_settle_execute(exec_outcome_view(outcome)),
    {
        match outcome {
            Ok(tx) => IntentState::Executed(tx),
            Err(e) => IntentState::Failed(e),
        }
    }

    /// Assembles the token-diff commitment for a quoted intent, signed by
    /// this solver's account and due 300 time units after `now`.
    pub fn build_intent_message(
        &self,
        intent: &SwapIntent,
        quote: &SwapQuote,
        now: u64,
    ) -> (m: IntentMessage)
        requires
            now + 300 <= u64::MAX,
        ensures
            m@ == spec_intent_message(intent@, quote@, self.account_id@, now),
    {
        let mut neg = String::from_str("-");
        neg.append(intent.amount.as_str());
        let mut diff: Vec<(String, String)> = Vec::new();
        diff.push((intent.from_token.address.clone(), neg));
        diff.push((intent.to_token.address.clone(), quote.amount_out.clone()));
        let entry = Intent { intent: String::from_str("token_diff"), diff };
        let mut intents: Vec<Intent> = Vec::new();
        intents.push(entry);
        let m = IntentMessage {
            signer_id: self.account_id.clone(),
            deadline: IntentDeadline { timestamp: now + 300 },
            intents,
        };
        proof {
            reveal_strlit("-");
            assert("-"@ =~= seq!['-']);
            assert(m@.intents[0].diff =~= spec_token_diff(intent@, quote@));
            assert(m@.intents =~= spec_intent_message(intent@, quote@, self.account_id@, now).intents);
        }
        m
    }

    /// Submits a quoted swap for execution through the venue client.
    pub fn execute_swap(&self, quote: &SwapQuote, now_millis: u64) -> (r: Result<
        String,
        SolverError,
    >)
        ensures
            match r {
                Ok(tx) => tx@ == "tx-"@ + crate::decimal::dec_str(now_millis as nat),
                Err(_) => false,
            },
    {
        self.runeswap_client.execute_swap(quote, now_millis)
    }
}

/// For every well-formed intent — positive decimal amount, distinct token
/// addresses, deadline not yet passed — validation reaches `Quoting`, a
/// venue quote settles it in `Quoted`, and the commitment diff holds the
/// negated amount at the source token's address and the quoted amount at
/// the target token's address.
pub proof fn lemma_quote_path(
    intent: SwapIntentView,
    now: u64,
    quote: SwapQuoteView,
    signer: Seq<char>,
    msg_now: u64,
)
    requires
        now <= intent.deadline,
        intent.from_token.address != intent.to_token.address,
        is_pos_decimal(intent.amount),
    ensures
        spec_begin_intent(intent, now) == IntentStateView::Quoting,
        spec_settle_quote(Ok(quote)) == IntentStateView::Quoted(quote),
        spec_intent_message(intent, quote, signer, msg_now).signer_id == signer,
        spec_intent_message(intent, quote, signer, msg_now).intents.len() == 1,
        spec_intent_message(intent, quote, signer, msg_now).intents[0].intent == "token_diff"@,
        spec_intent_message(intent, quote, signer, msg_now).intents[0].diff == seq![
            (intent.from_token.address, seq!['-'] + intent.amount),
            (intent.to_token.address, quote.amount_out),
        ],
        msg_now + 300 <= u64::MAX ==> spec_intent_message(intent, quote, signer, msg_now).deadline
            == msg_now + 300,
{
}

/// An intent whose deadline is already past is routed to `Expired`, not
/// to `Quoting` — and `Quoting` is the only state from which the venue is
/// asked for a quote, so no pricing call is made for it.
pub proof fn lemma_expired_before_quote(intent: SwapIntentView, now: u64)
    requires
        intent.deadline < now,
    ensures
        spec_begin_intent(intent, now) == IntentStateView::Expired,
        spec_begin_intent(intent, now) != IntentStateView::Quoting,
{
}

/// The execute trigger enters `Executing` from `Quoted` alone: from
/// `Received`, `Rejected`, `Expired`, `Failed` or any other state it
/// changes nothing, and in particular never starts an execution.
pub proof fn lemma_execute_only_from_quoted(state: IntentStateView)
    ensures
        state is Quoted ==> spec_begin_execute(state) is Executing,
        !(state is Quoted) ==> spec_begin_execute(state) == state,
        !(state is Quoted) && !(state is Executing) ==> !(spec_begin_execute(state) is Executing),
{
}

} // verus!
