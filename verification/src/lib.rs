//! Challenge–response authentication for a wallet-backed admin login.
//!
//! A client proves ownership of a blockchain-style wallet address by
//! signing a freshly issued challenge; the proof is converted into a
//! tamper-evident session cookie that grants administrative capability.
//! The crate holds the byte-exact codec work (base-58-check, the packed
//! string layout wallets sign over, the session JSON grammar), the
//! public-key model over the three supported curves, the session token
//! signer/verifier, and the login orchestration and access decisions.
//! The HTTP edge around it lives outside the library and hands in plain
//! values.

pub mod auth;
pub mod auth_handler;
pub mod auth_middleware;
pub mod bytes;
pub mod codec;
pub mod config;
pub mod errors;
pub mod hexstr;
pub mod keys;
pub mod micheline;
pub mod models;
pub mod session;
pub mod session_json;
pub mod strutil;
pub mod validation;
