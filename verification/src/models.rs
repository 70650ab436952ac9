use vstd::prelude::*;

verus! {

/// Query parameters of the bulk-fetch endpoint: a comma-separated symbol
/// list, an optional interval, and an optional concurrency bound.
#[derive(Debug)]
pub struct BulkParams {
    pub symbols: String,
    pub interval: Option<String>,
    pub max_concurrent: Option<i32>,
}

/// Query parameters of the analysis endpoints.
#[derive(Debug)]
pub struct AnalysisParams {
    pub limit: Option<i32>,
    pub days: Option<i32>,
}

/// Query parameters of the search endpoint.
#[derive(Debug)]
pub struct SearchParams {
    pub q: String,
    pub limit: Option<i32>,
}

/// Rate-limiting settings of the market-data service.
#[derive(Debug, Clone, Copy, PartialEq, Eq, Structural)]
pub struct RateLimitConfig {
    pub requests_per_minute: u32,
    pub yahoo_api_requests_per_minute: u32,
}

impl Default for RateLimitConfig {
    /// The stock limits: 100 requests a minute for clients, a conservative
    /// 30 a minute against the upstream API.
    fn default() -> (r: Self)
        ensures
            r.requests_per_minute == 100,
            r.yahoo_api_requests_per_minute == 30,
    {
        RateLimitConfig { requests_per_minute: 100, yahoo_api_requests_per_minute: 30 }
    }
}

} // verus!
