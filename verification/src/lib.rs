//! Request-routing core of a multi-tenant reverse proxy.
//!
//! Given an inbound request (its path-and-query string and its headers), the
//! core decides which upstream endpoint receives it: tenants are scanned in
//! registration order and the first whose rule set hits wins; otherwise a
//! round-robin pool of fallback backends answers; otherwise selection fails
//! with an explicit "no upstream available" result.
//!
//! The surrounding proxy engine (listeners, TLS, HTTP protocol handling,
//! process lifecycle) stays outside this crate; the core only consumes a
//! read-only view of each request and a configuration snapshot at startup.

pub mod config;
pub mod matching;
pub mod pattern;
pub mod text;
pub mod upstream;

pub use config::{ConfigField, ConfigParseError, ConfigValue};
pub use matching::{
    GefyraRequest, MatchAndCondition, MatchHeader, MatchOrCondition, MatchPath, MatchRule,
    MatchType,
};
pub use pattern::{CompiledPattern, RegexCompileError};
pub use upstream::{
    BackendPool, Carrier2, EmptyPool, GefyraClient, GefyraPeer, NoUpstreamAvailable, Selection,
    SelectionSource,
};
