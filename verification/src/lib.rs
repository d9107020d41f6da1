//! Intent-processing engine for a market-making solver.
//!
//! The solver subscribes to a streaming intent bus, classifies inbound
//! frames, runs a per-intent quote-and-execute state machine against a
//! pricing venue, and assembles the token-diff commitment for each quote.

use vstd::prelude::*;

pub mod bus;
pub mod config;
pub mod decimal;
pub mod runeswap;
pub mod solver;
pub mod types;
pub mod wire;

use crate::config::Config;
use crate::runeswap::RuneSwapClient;
use crate::solver::SolverError;

verus! {

/// Top of the library: the configuration and the venue client built from
/// it, shared read-only by everything that prices or executes.
pub struct RuneSwapSolver {
    /// Configuration for the solver.
    pub config: Config,
    /// Client for the pricing venue.
    pub runeswap_client: RuneSwapClient,
}

impl RuneSwapSolver {
    /// Builds the solver and its venue client from a configuration.
    /// Fails with `VenueUnavailable` when the HTTP client cannot be
    /// assembled for the configured credential.
    pub fn new(config: Config) -> (r: Result<Self, SolverError>)
        ensures
            match r {
                Ok(s) => {
                    &&& s.config.runeswap_api_key@ == config.runeswap_api_key@
                    &&& s.config.near_account_id@ == config.near_account_id@
                    &&& s.config.near_private_key@ == config.near_private_key@
                    &&& s.config.solver_bus_url@ == config.solver_bus_url@
                    &&& s.runeswap_client.api_key@ == config.runeswap_api_key@
                    &&& s.runeswap_client.base_url@ == "https://api.runeswap.io/v1"@
                },
                Err(e) => e == SolverError::VenueUnavailable,
            },
    {
        let runeswap_client = match RuneSwapClient::new(config.runeswap_api_key.as_str()) {
            Ok(c) => c,
            Err(e) => {
                return Err(e);
            },
        };
        Ok(Self { config, runeswap_client })
    }
}

/// Strategy interface for solver implementations.
pub trait Solver {
    /// Processes one intent end to end.
    fn process_intent(&self) -> Result<(), SolverError>;

    /// Executes one previously quoted swap.
    fn execute_swap(&self) -> Result<(), SolverError>;
}

/// Masks a credential for diagnostic output: keys of eight characters or
/// fewer are fully hidden, longer keys keep their first and last four
/// characters around a fixed mask.
pub fn mask_api_key(api_key: &str) -> (r: String)
    ensures
        api_key@.len() <= 8 ==> r@ == "****"@,
        api_key@.len() > 8 ==> r@ == api_key@.subrange(0, 4) + "****"@ + api_key@.subrange(
            api_key@.len() - 4,
            api_key@.len() as int,
        ),
{
    let len: usize = api_key.unicode_len();
    if len <= 8 {
        String::from_str("****")
    } else {
        let mut r = String::from_str(api_key.substring_char(0, 4));
        r.append("****");
        r.append(api_key.substring_char(len - 4, len));
        r
    }
}

} // verus!
