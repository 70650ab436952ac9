use vstd::prelude::*;
use vstd::string::StringSliceAdditionalSpecFns;

use crate::errors::InternalError;
use crate::hexstr::{hex_decode, hex_decoded, hex_text_valid};

use rand::Rng;

verus! {

/// Application configuration, loaded once at process start and read-only
/// afterwards.
#[derive(Debug)]
pub struct Config {
    pub database: DatabaseConfig,
    pub server: ServerConfig,
    pub rate_limiting: RateLimitConfig,
    pub cache: CacheConfig,
    pub cors: CorsConfig,
    pub auth: AuthConfig,
}

#[derive(Debug)]
pub struct DatabaseConfig {
    pub url: String,
    pub max_connections: u32,
}

#[derive(Debug)]
pub struct ServerConfig {
    pub host: String,
    pub port: u16,
}

#[derive(Debug)]
pub struct RateLimitConfig {
    pub api_requests_per_minute: u32,
    pub api_burst: u32,
    pub yahoo_api_requests_per_minute: u32,
    pub yahoo_api_burst: u32,
}

/// Cache settings; the time-to-live fields are in whole seconds.
#[derive(Debug)]
pub struct CacheConfig {
    pub ttl_quotes_secs: u64,
    pub ttl_historical_secs: u64,
    pub ttl_profiles_secs: u64,
    pub cleanup_interval_secs: u64,
    pub max_size_historical: usize,
    pub max_size_quotes: usize,
    pub max_size_profiles: usize,
}

#[derive(Debug)]
pub struct CorsConfig {
    pub allowed_origins: Vec<String>,
    pub allow_all_origins: bool,
}

/// The authentication settings: the feature flag, the address allowlist,
/// the development bypass, and the 32-byte symmetric key that signs the
/// session cookie.
#[derive(Debug)]
pub struct AuthConfig {
    pub enable_tezos_auth: bool,
    pub admin_tezos_addresses: Vec<String>,
    pub dev_mode: bool,
    pub cookie_hmac_key: [u8; 32],
}

/// Whether an address occurs in a list of addresses.
pub open spec fn spec_in_list(list: Seq<String>, addr: Seq<char>) -> bool {
    exists|i: int| 0 <= i < list.len() && #[trigger] list[i]@ == addr
}

impl AuthConfig {
    /// Whether `addr` is one of the configured admin addresses.
    pub fn is_admin_address(&self, addr: &String) -> (r: bool)
        ensures
            r == spec_in_list(self.admin_tezos_addresses@, addr@),
    {
        let n = self.admin_tezos_addresses.len();
        let mut i: usize = 0;
        while i < n
            invariant
                n == self.admin_tezos_addresses@.len(),
                i <= n,
                forall|j: int| 0 <= j < i ==> #[trigger] self.admin_tezos_addresses@[j]@ != addr@,
            decreases n - i,
        {
            if self.admin_tezos_addresses[i].eq(addr) {
                return true;
            }
            i = i + 1;
        }
        false
    }
}

impl Config {
    /// Check the configuration's basic limits: the rate limits and the
    /// connection count must not be zero. `Ok` exactly when all hold.
    pub fn validate(&self) -> (r: Result<(), InternalError>)
        ensures
            r is Ok <==> (self.rate_limiting.api_requests_per_minute > 0
                && self.rate_limiting.yahoo_api_requests_per_minute > 0
                && self.database.max_connections > 0),
            r matches Err(e) ==> e is ConfigurationError,
    {
        if self.rate_limiting.api_requests_per_minute == 0 {
            return Err(
                InternalError::ConfigurationError {
                    message: "API_RATE_LIMIT_PER_MINUTE must be greater than 0".to_owned(),
                },
            );
        }
        if self.rate_limiting.yahoo_api_requests_per_minute == 0 {
            return Err(
                InternalError::ConfigurationError {
                    message: "YAHOO_API_RATE_LIMIT_PER_MINUTE must be greater than 0".to_owned(),
                },
            );
        }
        if self.database.max_connections == 0 {
            return Err(
                InternalError::ConfigurationError {
                    message: "DATABASE_MAX_CONNECTIONS must be greater than 0".to_owned(),
                },
            );
        }
        Ok(())
    }
}

// Limits applied by the input validators.
pub const MAX_SYMBOL_LENGTH: usize = 20;

pub const MAX_SEARCH_QUERY_LENGTH: usize = 100;

pub const MAX_BULK_SYMBOLS: usize = 20;

pub const MAX_COMPARE_SYMBOLS: usize = 10;

pub const DEFAULT_HISTORICAL_LIMIT: i32 = 100;

pub const MAX_HISTORICAL_LIMIT: i32 = 1000;

pub const MIN_TECHNICAL_INDICATOR_PERIODS: usize = 20;

/// Relies on <[u8; 32]>::try_from on a 32-byte slice: the same bytes as an
/// array.
#[verifier::external_body]
fn bytes32_of_vec(v: &Vec<u8>) -> (r: [u8; 32])
    requires
        v@.len() == 32,
    ensures
        r@ == v@,
{
    let arr: [u8; 32] = v.as_slice().try_into().unwrap();
    arr
}

/// Parse a 64-hex-digit text into the 32-byte cookie-signing key; `None`
/// exactly when the text is not well-formed hex of that length.
pub fn parse_hmac_key(text: &str) -> (r: Option<[u8; 32]>)
    ensures
        r is Some <==> (hex_text_valid(text.spec_bytes()) && hex_decoded(
            text.spec_bytes(),
        ).len() == 32),
        r matches Some(k) ==> k@ == hex_decoded(text.spec_bytes()),
{
    match hex_decode(text) {
        Some(v) => {
            if v.len() == 32 {
                Some(bytes32_of_vec(&v))
            } else {
                None
            }
        },
        None => None,
    }
}

/// Relies on rand's thread-local generator to fill 32 bytes; nothing is
/// assumed of the value drawn.
#[verifier::external_body]
pub fn generate_random_key() -> (r: [u8; 32]) {
    let mut key = [0u8; 32];
    rand::rng().fill_bytes(&mut key);
    key
}

} // verus!
