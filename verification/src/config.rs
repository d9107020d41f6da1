//! Startup configuration of the solver and its validation.
//!
//! Reading the process environment is left to the binary around the
//! library; [`Config::resolve`] holds the validation rules: which values
//! are required, and the default bus address.

use vstd::prelude::*;

verus! {

/// Failure to assemble a valid configuration.
#[derive(Debug, Clone)]
pub enum ConfigError {
    /// A required configuration value was absent; carries its key.
    MissingEnv(String),
    /// The solver account identifier is not acceptable; carries it.
    InvalidNearAccountId(String),
}

impl ConfigError {
    /// A diagnostic line naming the configuration key at fault.
    pub fn message(&self) -> (r: String)
        ensures
            match self {
                ConfigError::MissingEnv(key) => r@ == "Missing environment variable: "@ + key@,
                ConfigError::InvalidNearAccountId(id) => r@ == "Invalid NEAR account ID: "@ + id@,
            },
    {
        match self {
            ConfigError::MissingEnv(key) => {
                let mut r = String::from_str("Missing environment variable: ");
                r.append(key.as_str());
                r
            },
            ConfigError::InvalidNearAccountId(id) => {
                let mut r = String::from_str("Invalid NEAR account ID: ");
                r.append(id.as_str());
                r
            },
        }
    }
}

/// Configuration of the solver: venue credential, solver account and
/// credential, and the bus address.
#[derive(Debug, Clone)]
pub struct Config {
    /// API key for the pricing venue.
    pub runeswap_api_key: String,
    /// Account ID of the solver on the NEAR blockchain.
    pub near_account_id: String,
    /// Private key of the solver account.
    pub near_private_key: String,
    /// Address of the solver bus.
    pub solver_bus_url: String,
}

impl Config {
    /// Builds a configuration from the four values.
    pub fn new(
        runeswap_api_key: String,
        near_account_id: String,
        near_private_key: String,
        solver_bus_url: String,
    ) -> (r: Self)
        ensures
            r.runeswap_api_key@ == runeswap_api_key@,
            r.near_account_id@ == near_account_id@,
            r.near_private_key@ == near_private_key@,
            r.solver_bus_url@ == solver_bus_url@,
    {
        Self { runeswap_api_key, near_account_id, near_private_key, solver_bus_url }
    }

    /// Validates configuration values as read from the environment: the
    /// venue key, account id and account key are required, and the bus
    /// address falls back to the well-known default when unset.
    pub fn resolve(
        runeswap_api_key: Option<String>,
        near_account_id: Option<String>,
        near_private_key: Option<String>,
        solver_bus_url: Option<String>,
    ) -> (r: Result<Self, ConfigError>)
        ensures
            match r {
                Ok(c) => {
                    &&& runeswap_api_key matches Some(k) && c.runeswap_api_key@ == k@
                    &&& near_account_id matches Some(a) && c.near_account_id@ == a@
                    &&& near_private_key matches Some(p) && c.near_private_key@ == p@
                    &&& match solver_bus_url {
                        Some(u) => c.solver_bus_url@ == u@,
                        None => c.solver_bus_url@ == "wss://solver-bus.runeswap.io"@,
                    }
                },
                Err(e) => {
                    &&& match e {
                        ConfigError::MissingEnv(key) => {
                            ||| runeswap_api_key is None && key@ == "RUNESWAP_API_KEY"@
                            ||| runeswap_api_key is Some && near_account_id is None && key@
                                == "NEAR_ACCOUNT_ID"@
                            ||| runeswap_api_key is Some && near_account_id is Some
                                && near_private_key is None && key@ == "NEAR_PRIVATE_KEY"@
                        },
                        _ => false,
                    }
                    &&& (runeswap_api_key is None || near_account_id is None
                        || near_private_key is None)
                },
            },
            r is Ok <==> runeswap_api_key is Some && near_account_id is Some
                && near_private_key is Some,
    {
        let api_key = match runeswap_api_key {
            Some(k) => k,
            None => {
                return Err(ConfigError::MissingEnv(String::from_str("RUNESWAP_API_KEY")));
            },
        };
        let account_id = match near_account_id {
            Some(a) => a,
            None => {
                return Err(ConfigError::MissingEnv(String::from_str("NEAR_ACCOUNT_ID")));
            },
        };
        let private_key = match near_private_key {
            Some(p) => p,
            None => {
                return Err(ConfigError::MissingEnv(String::from_str("NEAR_PRIVATE_KEY")));
            },
        };
        let bus_url = match solver_bus_url {
            Some(u) => u,
            None => String::from_str("wss://solver-bus.runeswap.io"),
        };
        Ok(Self::new(api_key, account_id, private_key, bus_url))
    }
}

} // verus!
