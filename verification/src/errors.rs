use vstd::prelude::*;

verus! {

/// Error taxonomy of the authentication core.
///
/// `ValidationError` marks malformed input (bad base-58, checksum mismatch,
/// wrong length, unsupported prefix, address mismatch) and is safe to show to
/// the caller. `Unauthorized` covers a cryptographically invalid signature or
/// an address outside the allowlist. `Internal` marks unexpected failures in
/// a crypto primitive.
#[derive(Debug)]
pub enum AppError {
    Unauthorized,
    ValidationError(String),
    Internal(String),
}

impl AppError {
    /// A short, stable label for each error kind, usable in responses.
    pub fn kind_label(&self) -> (r: &'static str)
        ensures
            self is Unauthorized ==> r@ == "unauthorized"@,
            self is ValidationError ==> r@ == "validation"@,
            self is Internal ==> r@ == "internal"@,
    {
        match self {
            AppError::Unauthorized => "unauthorized",
            AppError::ValidationError(_) => "validation",
            AppError::Internal(_) => "internal",
        }
    }
}

/// Detailed error kinds used by the wider service; kept with plain-text
/// detail fields so every variant is a value the verifier can follow.
#[derive(Debug)]
pub enum InternalError {
    Database(String),
    YahooApi(String),
    RateLimitExceeded { client_id: String },
    InvalidSymbol { symbol: String },
    InvalidInput { message: String },
    InsufficientData { message: String },
    CalculationError { message: String },
    ConfigurationError { message: String },
}

/// Client-safe error kinds.
#[derive(Debug, PartialEq, Eq, Structural)]
pub enum ExternalError {
    InvalidRequest,
    SymbolNotFound,
    RateLimitExceeded,
    InsufficientData,
    InternalError,
}

/// How an internal error is shown to a client.
pub open spec fn external_of(err: InternalError) -> ExternalError {
    match err {
        InternalError::InvalidSymbol { .. } => ExternalError::SymbolNotFound,
        InternalError::RateLimitExceeded { .. } => ExternalError::RateLimitExceeded,
        InternalError::InsufficientData { .. } => ExternalError::InsufficientData,
        InternalError::InvalidInput { .. } => ExternalError::InvalidRequest,
        _ => ExternalError::InternalError,
    }
}

impl vstd::std_specs::convert::FromSpecImpl<InternalError> for ExternalError {
    open spec fn obeys_from_spec() -> bool {
        true
    }

    open spec fn from_spec(err: InternalError) -> Self {
        external_of(err)
    }
}

impl From<InternalError> for ExternalError {
    /// Map an internal error to the kind a client may see.
    fn from(err: InternalError) -> Self {
        match err {
            InternalError::InvalidSymbol { .. } => ExternalError::SymbolNotFound,
            InternalError::RateLimitExceeded { .. } => ExternalError::RateLimitExceeded,
            InternalError::InsufficientData { .. } => ExternalError::InsufficientData,
            InternalError::InvalidInput { .. } => ExternalError::InvalidRequest,
            InternalError::Database(_) => ExternalError::InternalError,
            InternalError::YahooApi(_) => ExternalError::InternalError,
            InternalError::CalculationError { .. } => ExternalError::InternalError,
            InternalError::ConfigurationError { .. } => ExternalError::InternalError,
        }
    }
}

/// Failures of the market-data service, in a form the error taxonomy can
/// absorb.
#[derive(Debug)]
pub enum YahooServiceError {
    DatabaseError(String),
    RateLimitExceeded,
}

impl vstd::std_specs::convert::FromSpecImpl<YahooServiceError> for InternalError {
    // The rate-limit arm mints a fresh String for the placeholder client
    // label, so the result is not a spec-level function of the input; the
    // contract lives on the impl of `from` instead.
    open spec fn obeys_from_spec() -> bool {
        false
    }

    open spec fn from_spec(err: YahooServiceError) -> Self {
        vstd::pervasive::arbitrary()
    }
}

impl From<YahooServiceError> for InternalError {
    /// Absorb a market-data failure: the database detail is carried over
    /// unchanged, and the rate-limit case gets the placeholder client
    /// label.
    fn from(err: YahooServiceError) -> (r: Self)
        ensures
            err matches YahooServiceError::DatabaseError(m) ==> (r matches InternalError::Database(
                m2,
            ) && m2@ == m@),
            err is RateLimitExceeded ==> (r matches InternalError::RateLimitExceeded {
                client_id,
            } && client_id@ == "unknown"@),
            r is Database <==> err is DatabaseError,
            r is RateLimitExceeded <==> err is RateLimitExceeded,
    {
        match err {
            YahooServiceError::DatabaseError(e) => InternalError::Database(e),
            YahooServiceError::RateLimitExceeded => InternalError::RateLimitExceeded {
                client_id: "unknown".to_owned(),
            },
        }
    }
}

} // verus!
