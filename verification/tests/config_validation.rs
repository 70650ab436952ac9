use tezos_auth::auth::{AdminAuth, TezosAdminSession};
use tezos_auth::config::{
    parse_hmac_key, AuthConfig, CacheConfig, Config, CorsConfig, DatabaseConfig, RateLimitConfig,
    ServerConfig,
};
use tezos_auth::errors::{AppError, ExternalError, InternalError, YahooServiceError};
use tezos_auth::validation::{
    validate_date_range, validate_limit, validate_search_query, validate_symbol,
};

fn sample_config() -> Config {
    Config {
        database: DatabaseConfig { url: "sqlite:///data/data.db".to_string(), max_connections: 50 },
        server: ServerConfig { host: "0.0.0.0".to_string(), port: 3000 },
        rate_limiting: RateLimitConfig {
            api_requests_per_minute: 100,
            api_burst: 10,
            yahoo_api_requests_per_minute: 120,
            yahoo_api_burst: 5,
        },
        cache: CacheConfig {
            ttl_quotes_secs: 300,
            ttl_historical_secs: 3600,
            ttl_profiles_secs: 86400,
            cleanup_interval_secs: 3600,
            max_size_historical: 1000,
            max_size_quotes: 500,
            max_size_profiles: 200,
        },
        cors: CorsConfig { allowed_origins: vec![], allow_all_origins: true },
        auth: AuthConfig {
            enable_tezos_auth: false,
            admin_tezos_addresses: vec![],
            dev_mode: false,
            cookie_hmac_key: [0u8; 32],
        },
    }
}

#[test]
fn config_validate_accepts_sane_settings() {
    assert!(sample_config().validate().is_ok());
}

#[test]
fn config_validate_rejects_zero_limits() {
    let mut c = sample_config();
    c.rate_limiting.api_requests_per_minute = 0;
    assert!(matches!(c.validate(), Err(InternalError::ConfigurationError { .. })));

    let mut c = sample_config();
    c.rate_limiting.yahoo_api_requests_per_minute = 0;
    assert!(matches!(c.validate(), Err(InternalError::ConfigurationError { .. })));

    let mut c = sample_config();
    c.database.max_connections = 0;
    assert!(matches!(c.validate(), Err(InternalError::ConfigurationError { .. })));
}

#[test]
fn hmac_key_parses_from_64_hex_digits() {
    let text = "000102030405060708090a0b0c0d0e0f101112131415161718191a1b1c1d1e1f";
    let key = parse_hmac_key(text).expect("valid key text");
    assert_eq!(key[0], 0);
    assert_eq!(key[1], 1);
    assert_eq!(key[31], 0x1f);
}

#[test]
fn hmac_key_rejects_bad_text() {
    assert!(parse_hmac_key("").is_none());
    assert!(parse_hmac_key("00ff").is_none());
    assert!(parse_hmac_key("zz0102030405060708090a0b0c0d0e0f101112131415161718191a1b1c1d1e1f").is_none());
    // 66 digits: right alphabet, wrong length.
    assert!(parse_hmac_key("000102030405060708090a0b0c0d0e0f101112131415161718191a1b1c1d1e1f00").is_none());
}

#[test]
fn admin_auth_flags() {
    assert!(!AdminAuth::public().is_admin());
    let dev = AdminAuth { is_dev_admin: true, tezos_admin_address: None };
    assert!(dev.is_admin());
    let bound = AdminAuth { is_dev_admin: false, tezos_admin_address: Some("tz1x".to_string()) };
    assert!(bound.is_admin());
    let session = TezosAdminSession { address: "tz1x".to_string() };
    assert_eq!(session.address, "tz1x");
}

#[test]
fn symbol_validation() {
    assert!(validate_symbol("AAPL").is_ok());
    assert!(validate_symbol("BRK.B").is_ok());
    assert!(validate_symbol("BTC-USD").is_ok());
    assert!(validate_symbol("").is_err());
    assert!(validate_symbol("TOOLONGTOOLONGTOOLONG").is_err());
    assert!(validate_symbol("AA PL").is_err());
    assert!(validate_symbol("AAPL;DROP").is_err());
    assert!(matches!(validate_symbol(""), Err(InternalError::InvalidInput { .. })));
}

#[test]
fn search_query_validation() {
    assert_eq!(validate_search_query("apple").unwrap(), "apple");
    assert_eq!(validate_search_query("  apple inc  ").unwrap(), "apple inc");
    assert_eq!(validate_search_query("a&b, c.d-e").unwrap(), "a&b, c.d-e");
    assert_eq!(validate_search_query("semi;colon").unwrap(), "semicolon");
    assert!(validate_search_query("").is_err());
    assert!(validate_search_query("   ").is_err());
    assert!(validate_search_query(";;;").is_err());
    let long = "a".repeat(101);
    assert!(validate_search_query(long.as_str()).is_err());
    let exactly = "b".repeat(100);
    assert_eq!(validate_search_query(exactly.as_str()).unwrap().len(), 100);
}

#[test]
fn search_query_keeps_unicode_alphanumerics() {
    // Unicode letters are alphanumeric and survive the sanitizer.
    assert_eq!(validate_search_query("caf\u{e9}").unwrap(), "caf\u{e9}");
    assert_eq!(validate_search_query("M\u{fc}nchen Re").unwrap(), "M\u{fc}nchen Re");
    // Unicode whitespace is trimmed from the ends like ASCII whitespace.
    assert_eq!(validate_search_query("\u{a0}apple\u{a0}").unwrap(), "apple");
    // The length bound counts the trimmed text's bytes, not its characters.
    let heavy = "\u{20ac}".repeat(40); // 40 chars, 120 UTF-8 bytes
    assert!(validate_search_query(heavy.as_str()).is_err());
    let dense = "\u{e9}".repeat(50); // 50 chars, 100 UTF-8 bytes
    assert_eq!(validate_search_query(dense.as_str()).unwrap().chars().count(), 50);
}

#[test]
fn limit_validation() {
    assert_eq!(validate_limit(None, 1000, 100), 100);
    assert_eq!(validate_limit(Some(5), 1000, 100), 5);
    assert_eq!(validate_limit(Some(0), 1000, 100), 1);
    assert_eq!(validate_limit(Some(-3), 1000, 100), 1);
    assert_eq!(validate_limit(Some(5000), 1000, 100), 1000);
}

#[test]
fn date_range_validation() {
    assert!(validate_date_range(None, None).is_ok());
    assert!(validate_date_range(Some(100), None).is_ok());
    assert!(validate_date_range(None, Some(100)).is_ok());
    assert!(validate_date_range(Some(100), Some(200)).is_ok());
    assert!(validate_date_range(Some(200), Some(100)).is_err());
    // Exactly 3650 days is allowed; any more is not.
    let start = 0i64;
    let ten_years = 3650i64 * 86400;
    assert!(validate_date_range(Some(start), Some(ten_years)).is_ok());
    assert!(validate_date_range(Some(start), Some(ten_years + 86400)).is_err());
}

#[test]
fn error_kind_labels() {
    assert_eq!(AppError::Unauthorized.kind_label(), "unauthorized");
    assert_eq!(AppError::ValidationError("x".to_string()).kind_label(), "validation");
    assert_eq!(AppError::Internal("x".to_string()).kind_label(), "internal");
}

#[test]
fn internal_errors_map_to_external_kinds() {
    let e: ExternalError = InternalError::InvalidSymbol { symbol: "x".to_string() }.into();
    assert_eq!(e, ExternalError::SymbolNotFound);
    let e: ExternalError = InternalError::RateLimitExceeded { client_id: "c".to_string() }.into();
    assert_eq!(e, ExternalError::RateLimitExceeded);
    let e: ExternalError = InternalError::InsufficientData { message: "m".to_string() }.into();
    assert_eq!(e, ExternalError::InsufficientData);
    let e: ExternalError = InternalError::InvalidInput { message: "m".to_string() }.into();
    assert_eq!(e, ExternalError::InvalidRequest);
    let e: ExternalError = InternalError::Database("d".to_string()).into();
    assert_eq!(e, ExternalError::InternalError);
    let e: ExternalError = InternalError::ConfigurationError { message: "m".to_string() }.into();
    assert_eq!(e, ExternalError::InternalError);
}

#[test]
fn yahoo_errors_map_to_internal_kinds() {
    let e: InternalError = YahooServiceError::DatabaseError("boom".to_string()).into();
    assert!(matches!(e, InternalError::Database(_)));
    let e: InternalError = YahooServiceError::RateLimitExceeded.into();
    assert!(matches!(e, InternalError::RateLimitExceeded { .. }));
}

#[test]
fn rate_limit_defaults() {
    let d = tezos_auth::models::RateLimitConfig::default();
    assert_eq!(d.requests_per_minute, 100);
    assert_eq!(d.yahoo_api_requests_per_minute, 30);
}

#[test]
fn random_keys_are_fresh() {
    let a = tezos_auth::config::generate_random_key();
    let b = tezos_auth::config::generate_random_key();
    assert_ne!(a, b);
}
