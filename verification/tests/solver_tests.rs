use runeswap_solver::config::Config;
use runeswap_solver::runeswap::{RuneSwapClient, RuneSwapQuoteResponse, RuneSwapTokenEntry};
use runeswap_solver::solver::{IntentState, NearIntentsSolver, SolverError};
use runeswap_solver::types::{SwapIntent, SwapQuote, Token};
use runeswap_solver::RuneSwapSolver;

fn eth() -> Token {
    Token { symbol: "ETH".to_string(), address: "0xETH".to_string(), decimals: 18 }
}

fn usdc() -> Token {
    Token { symbol: "USDC".to_string(), address: "0xUSDC".to_string(), decimals: 6 }
}

fn sample_intent(deadline: u64) -> SwapIntent {
    SwapIntent {
        id: "i1".to_string(),
        from_token: eth(),
        to_token: usdc(),
        amount: "1000000000000000000".to_string(),
        min_amount_out: "1900000000".to_string(),
        deadline,
    }
}

fn sample_solver() -> NearIntentsSolver {
    let client = RuneSwapClient::new("test_api_key").unwrap();
    NearIntentsSolver::new(
        "solver.near".to_string(),
        "test_private_key".to_string(),
        "wss://test.runeswap.io".to_string(),
        client,
    )
}

#[test]
fn test_create_solver() {
    let config = Config::new(
        "test_api_key".to_string(),
        "test.near".to_string(),
        "test_private_key".to_string(),
        "wss://test.runeswap.io".to_string(),
    );

    let solver = RuneSwapSolver::new(config).unwrap();

    assert_eq!(solver.config.runeswap_api_key, "test_api_key");
    assert_eq!(solver.config.near_account_id, "test.near");
}

#[test]
fn test_create_swap_intent() {
    let from_token = Token {
        symbol: "ETH".to_string(),
        address: "0xETH".to_string(),
        decimals: 18,
    };

    let to_token = Token {
        symbol: "USDC".to_string(),
        address: "0xUSDC".to_string(),
        decimals: 6,
    };

    let intent = SwapIntent {
        id: "test_intent_1".to_string(),
        from_token,
        to_token,
        amount: "1000000000000000000".to_string(),
        min_amount_out: "1900000000".to_string(),
        deadline: 1682661234,
    };

    assert_eq!(intent.from_token.symbol, "ETH");
    assert_eq!(intent.to_token.symbol, "USDC");
    assert_eq!(intent.amount, "1000000000000000000");
}

#[test]
fn expired_intent_goes_to_expired_without_quote() {
    let intent = sample_intent(100);
    let state = NearIntentsSolver::begin_intent(&intent, 101);
    assert!(matches!(state, IntentState::Expired));
}

#[test]
fn intent_at_deadline_still_quotes() {
    let intent = sample_intent(100);
    let state = NearIntentsSolver::begin_intent(&intent, 100);
    assert!(matches!(state, IntentState::Quoting));
}

#[test]
fn equal_tokens_fail_validation() {
    let mut intent = sample_intent(1000);
    intent.to_token = eth();
    let state = NearIntentsSolver::begin_intent(&intent, 1);
    assert!(matches!(state, IntentState::Failed(SolverError::InvalidIntent)));
}

#[test]
fn bad_amounts_fail_validation() {
    for bad in ["0", "000", "", "12a3", "-5", "1.5"] {
        let mut intent = sample_intent(1000);
        intent.amount = bad.to_string();
        let state = NearIntentsSolver::begin_intent(&intent, 1);
        assert!(matches!(state, IntentState::Failed(SolverError::InvalidIntent)));
    }
}

#[test]
fn leading_zeros_are_still_positive() {
    let mut intent = sample_intent(1000);
    intent.amount = "007".to_string();
    let state = NearIntentsSolver::begin_intent(&intent, 1);
    assert!(matches!(state, IntentState::Quoting));
}

#[test]
fn quote_outcomes_settle_into_the_right_states() {
    let quote = SwapQuote {
        intent_id: "i1".to_string(),
        amount_out: "1950000000".to_string(),
        price: "1950".to_string(),
        gas_estimate: 21000,
    };
    let quoted = NearIntentsSolver::settle_quote(IntentState::Quoting, Ok(quote));
    assert!(matches!(&quoted, IntentState::Quoted(q) if q.amount_out == "1950000000"));

    let rejected =
        NearIntentsSolver::settle_quote(IntentState::Quoting, Err(SolverError::QuoteRejected));
    assert!(matches!(rejected, IntentState::Rejected));

    let unavailable =
        NearIntentsSolver::settle_quote(IntentState::Quoting, Err(SolverError::VenueUnavailable));
    assert!(matches!(unavailable, IntentState::Failed(SolverError::VenueUnavailable)));

    let undecodable =
        NearIntentsSolver::settle_quote(IntentState::Quoting, Err(SolverError::VenueProtocolError));
    assert!(matches!(undecodable, IntentState::Failed(SolverError::VenueProtocolError)));
}

#[test]
fn execute_is_reachable_from_quoted_alone() {
    let quote = SwapQuote {
        intent_id: "i1".to_string(),
        amount_out: "1950000000".to_string(),
        price: "1950".to_string(),
        gas_estimate: 21000,
    };
    let started = NearIntentsSolver::begin_execute(IntentState::Quoted(quote));
    assert!(matches!(started, IntentState::Executing(_)));

    assert!(matches!(
        NearIntentsSolver::begin_execute(IntentState::Received),
        IntentState::Received
    ));
    assert!(matches!(
        NearIntentsSolver::begin_execute(IntentState::Rejected),
        IntentState::Rejected
    ));
    assert!(matches!(
        NearIntentsSolver::begin_execute(IntentState::Expired),
        IntentState::Expired
    ));
    assert!(matches!(
        NearIntentsSolver::begin_execute(IntentState::Failed(SolverError::InvalidIntent)),
        IntentState::Failed(SolverError::InvalidIntent)
    ));
}

#[test]
fn execution_outcomes_settle_into_the_right_states() {
    let quote = SwapQuote {
        intent_id: "i1".to_string(),
        amount_out: "1950000000".to_string(),
        price: "1950".to_string(),
        gas_estimate: 21000,
    };
    let executing = IntentState::Executing(quote.clone());
    let done = NearIntentsSolver::settle_execute(executing, Ok("tx-7".to_string()));
    assert!(matches!(&done, IntentState::Executed(tx) if tx == "tx-7"));

    let failed = NearIntentsSolver::settle_execute(
        IntentState::Executing(quote),
        Err(SolverError::VenueUnavailable),
    );
    assert!(matches!(failed, IntentState::Failed(SolverError::VenueUnavailable)));
}

#[test]
fn quote_mapping_and_diff_match_the_quoted_scenario() {
    let intent = sample_intent(9999999999);
    let response = RuneSwapQuoteResponse {
        quote_id: "q1".to_string(),
        from_amount: "1000000000000000000".to_string(),
        to_amount: "1950000000".to_string(),
        price: "1950".to_string(),
        gas_estimate: 21000,
        expires_at: 9999999999,
    };
    let quote = RuneSwapClient::quote_from_response(&intent, response);
    assert_eq!(quote.intent_id, "i1");
    assert_eq!(quote.amount_out, "1950000000");
    assert_eq!(quote.price, "1950");
    assert_eq!(quote.gas_estimate, 21000);

    let solver = sample_solver();
    let message = solver.build_intent_message(&intent, &quote, 1000);
    assert_eq!(message.signer_id, "solver.near");
    assert_eq!(message.deadline.timestamp, 1300);
    assert_eq!(message.intents.len(), 1);
    assert_eq!(message.intents[0].intent, "token_diff");
    let diff = &message.intents[0].diff;
    assert_eq!(diff.len(), 2);
    assert_eq!(diff[0].0, "0xETH");
    assert_eq!(diff[0].1, "-1000000000000000000");
    assert_eq!(diff[1].0, "0xUSDC");
    assert_eq!(diff[1].1, "1950000000");
}

#[test]
fn quote_request_takes_addresses_amount_and_sell_side() {
    let intent = sample_intent(1000);
    let request = RuneSwapClient::quote_request(&intent);
    assert_eq!(request.from_token, "0xETH");
    assert_eq!(request.to_token, "0xUSDC");
    assert_eq!(request.amount, "1000000000000000000");
    assert_eq!(request.side, "sell");
}

#[test]
fn execute_swap_returns_the_placeholder_transaction_id() {
    let solver = sample_solver();
    let quote = SwapQuote {
        intent_id: "i1".to_string(),
        amount_out: "1950000000".to_string(),
        price: "1950".to_string(),
        gas_estimate: 21000,
    };
    let tx = solver.execute_swap(&quote, 1234567890123).unwrap();
    assert_eq!(tx, "tx-1234567890123");
}

#[test]
fn token_listing_mapping_preserves_every_field() {
    let entries = vec![
        RuneSwapTokenEntry {
            symbol: "ETH".to_string(),
            address: "0xC02aaA39b223FE8D0A0e5C4F27eAD9083C756Cc2".to_string(),
            decimals: 18,
        },
        RuneSwapTokenEntry {
            symbol: "USDC".to_string(),
            address: "0xA0b86991c6218b36c1d19D4a2e9Eb0cE3606eB48".to_string(),
            decimals: 6,
        },
        RuneSwapTokenEntry {
            symbol: "NEAR".to_string(),
            address: "near".to_string(),
            decimals: 24,
        },
    ];
    let tokens = RuneSwapClient::tokens_from_response(entries);
    assert_eq!(tokens.len(), 3);
    assert_eq!(tokens[0].symbol, "ETH");
    assert_eq!(tokens[0].address, "0xC02aaA39b223FE8D0A0e5C4F27eAD9083C756Cc2");
    assert_eq!(tokens[0].decimals, 18);
    assert_eq!(tokens[1].symbol, "USDC");
    assert_eq!(tokens[1].address, "0xA0b86991c6218b36c1d19D4a2e9Eb0cE3606eB48");
    assert_eq!(tokens[1].decimals, 6);
    assert_eq!(tokens[2].symbol, "NEAR");
    assert_eq!(tokens[2].address, "near");
    assert_eq!(tokens[2].decimals, 24);
}

#[test]
fn token_listing_mapping_keeps_an_empty_listing_empty() {
    let tokens = RuneSwapClient::tokens_from_response(Vec::new());
    assert!(tokens.is_empty());
}

#[test]
fn venue_addresses_derive_from_the_base_url() {
    let client = RuneSwapClient::new("test_api_key").unwrap();
    assert_eq!(client.base_url, "https://api.runeswap.io/v1");
    assert_eq!(client.quote_url(), "https://api.runeswap.io/v1/quote");
    assert_eq!(client.execute_url(), "https://api.runeswap.io/v1/execute");
    assert_eq!(client.tokens_url(), "https://api.runeswap.io/v1/tokens");
}
