use runeswap_solver::config::{Config, ConfigError};
use runeswap_solver::decimal::{check_pos_decimal, scan_u64, u64_to_dec};
use runeswap_solver::mask_api_key;

#[test]
fn short_keys_are_fully_masked() {
    assert_eq!(mask_api_key(""), "****");
    assert_eq!(mask_api_key("abc"), "****");
    assert_eq!(mask_api_key("12345678"), "****");
}

#[test]
fn long_keys_keep_their_ends() {
    assert_eq!(mask_api_key("123456789"), "1234****6789");
    assert_eq!(mask_api_key("abcdefghijkl"), "abcd****ijkl");
}

#[test]
fn config_new_keeps_all_fields() {
    let config = Config::new(
        "key".to_string(),
        "acct.near".to_string(),
        "secret".to_string(),
        "wss://bus".to_string(),
    );
    assert_eq!(config.runeswap_api_key, "key");
    assert_eq!(config.near_account_id, "acct.near");
    assert_eq!(config.near_private_key, "secret");
    assert_eq!(config.solver_bus_url, "wss://bus");
}

#[test]
fn resolve_requires_each_credential_in_turn() {
    let missing_key = Config::resolve(
        None,
        Some("a".to_string()),
        Some("p".to_string()),
        None,
    );
    match missing_key {
        Err(ConfigError::MissingEnv(key)) => {
            assert_eq!(key, "RUNESWAP_API_KEY");
        },
        other => panic!("expected a missing key, got {:?}", other),
    }

    let missing_account = Config::resolve(Some("k".to_string()), None, Some("p".to_string()), None);
    assert!(matches!(missing_account, Err(ConfigError::MissingEnv(key)) if key == "NEAR_ACCOUNT_ID"));

    let missing_private = Config::resolve(Some("k".to_string()), Some("a".to_string()), None, None);
    assert!(matches!(missing_private, Err(ConfigError::MissingEnv(key)) if key == "NEAR_PRIVATE_KEY"));
}

#[test]
fn resolve_defaults_the_bus_address() {
    let config = Config::resolve(
        Some("k".to_string()),
        Some("a".to_string()),
        Some("p".to_string()),
        None,
    )
    .unwrap();
    assert_eq!(config.solver_bus_url, "wss://solver-bus.runeswap.io");

    let custom = Config::resolve(
        Some("k".to_string()),
        Some("a".to_string()),
        Some("p".to_string()),
        Some("wss://elsewhere".to_string()),
    )
    .unwrap();
    assert_eq!(custom.solver_bus_url, "wss://elsewhere");
}

#[test]
fn config_errors_carry_a_diagnostic_line() {
    let missing = ConfigError::MissingEnv("NEAR_ACCOUNT_ID".to_string());
    assert_eq!(missing.message(), "Missing environment variable: NEAR_ACCOUNT_ID");
    let invalid = ConfigError::InvalidNearAccountId("x".to_string());
    assert_eq!(invalid.message(), "Invalid NEAR account ID: x");
}

#[test]
fn decimal_rendering_is_exact() {
    assert_eq!(u64_to_dec(0), "0");
    assert_eq!(u64_to_dec(7), "7");
    assert_eq!(u64_to_dec(10), "10");
    assert_eq!(u64_to_dec(1234567890123), "1234567890123");
    assert_eq!(u64_to_dec(u64::MAX), "18446744073709551615");
}

#[test]
fn digit_runs_scan_to_their_value() {
    assert_eq!(scan_u64("123abc", 0), (3, Some(123)));
    assert_eq!(scan_u64("abc", 0), (0, Some(0)));
    assert_eq!(scan_u64("a42", 1), (3, Some(42)));
    assert_eq!(scan_u64("18446744073709551615", 0), (20, Some(u64::MAX)));
    assert_eq!(scan_u64("18446744073709551616", 0), (20, None));
}

#[test]
fn positive_decimal_amounts_are_recognized() {
    assert!(check_pos_decimal("1"));
    assert!(check_pos_decimal("007"));
    assert!(check_pos_decimal("1000000000000000000"));
    assert!(!check_pos_decimal(""));
    assert!(!check_pos_decimal("0"));
    assert!(!check_pos_decimal("000"));
    assert!(!check_pos_decimal("12a3"));
    assert!(!check_pos_decimal("-5"));
}
