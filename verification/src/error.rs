//! `AniError`: the one error type returned across the backend's command
//! boundary. Every variant maps to a stable i18n key.

use vstd::prelude::*;

use crate::text::{concat2, decimal, decimal_string};

verus! {

broadcast use vstd::string::group_string_axioms;

/// Any failure that may occur in the backend.
#[derive(Debug, Clone)]
pub enum AniError {
    /// The vendored `ani-cli` script reported an internal failure.
    Scraper {
        /// i18n key under `error.scraper.*`.
        key: &'static str,
    },
    /// The `ani-cli` subprocess didn't finish within its timeout.
    Timeout,
    /// Search returned zero results.
    NoResults,
    /// Stdout from `ani-cli` did not match the expected debug-mode shape.
    ParseFailed {
        /// Free-text detail for logs only.
        detail: String,
    },
    /// `ani-cli` was not found on PATH or under the bundled resource dir.
    MissingBinary,
    /// No `bash.exe` reachable (Windows).
    BashMissing,
    /// An upstream HTTP request returned a non-success status.
    Upstream {
        /// HTTP status code from the upstream server.
        status: u16,
    },
    /// A network-layer failure (connection refused, DNS, TLS).
    Network,
    /// External-player binary couldn't be spawned.
    PlayerSpawnFailed {
        /// The player command the user configured.
        binary: String,
    },
    /// The Syncplay binary couldn't be spawned.
    SyncplaySpawnFailed {
        /// The Syncplay binary the user configured.
        binary: String,
    },
    /// Cache (SQLite) operation failed.
    Cache,
    /// Filesystem I/O failure.
    Io,
    /// Configuration file (TOML) parse or write failure.
    Config,
    /// Metadata source (Kitsu or AniList) returned malformed data.
    Metadata,
    /// Stream session token was missing, expired, or signature-invalid.
    InvalidToken,
}

/// The i18n key of `e`.
pub open spec fn error_key(e: AniError) -> Seq<char> {
    match e {
        AniError::Scraper { key } => key@,
        AniError::Timeout => "error.scraper.timeout"@,
        AniError::NoResults => "error.search.no_results"@,
        AniError::ParseFailed { .. } => "error.scraper.parse_failed"@,
        AniError::MissingBinary => "error.scraper.missing_binary"@,
        AniError::BashMissing => "error.bash.missing"@,
        AniError::PlayerSpawnFailed { .. } => "error.player.spawn_failed"@,
        AniError::SyncplaySpawnFailed { .. } => "error.syncplay.spawn_failed"@,
        AniError::Upstream { .. } => "error.network.upstream"@,
        AniError::Network => "error.network.unreachable"@,
        AniError::Cache => "error.cache.generic"@,
        AniError::Io => "error.io.generic"@,
        AniError::Config => "error.config.parse"@,
        AniError::Metadata => "error.metadata.source"@,
        AniError::InvalidToken => "error.stream.invalid_token"@,
    }
}

/// The human-readable message of `e`, used in logs.
pub open spec fn error_message(e: AniError) -> Seq<char> {
    match e {
        AniError::Scraper { .. } => "scraper error"@,
        AniError::Timeout => "scraper timed out"@,
        AniError::NoResults => "no results"@,
        AniError::ParseFailed { detail } => "parse failed: "@ + detail@,
        AniError::MissingBinary => "missing ani-cli binary"@,
        AniError::BashMissing => "missing bash.exe (install Git for Windows)"@,
        AniError::PlayerSpawnFailed { binary } => "player spawn failed: "@ + binary@,
        AniError::SyncplaySpawnFailed { binary } => "syncplay spawn failed: "@ + binary@,
        AniError::Upstream { status } => "upstream "@ + decimal(status as nat),
        AniError::Network => "network error"@,
        AniError::Cache => "cache error"@,
        AniError::Io => "io error"@,
        AniError::Config => "config error"@,
        AniError::Metadata => "metadata source"@,
        AniError::InvalidToken => "invalid stream token"@,
    }
}

impl AniError {
    /// Stable i18n key used by the frontend to look up a localized message.
    pub fn key(&self) -> (r: &'static str)
        ensures
            r@ == error_key(*self),
    {
        match self {
            AniError::Scraper { key } => *key,
            AniError::Timeout => "error.scraper.timeout",
            AniError::NoResults => "error.search.no_results",
            AniError::ParseFailed { .. } => "error.scraper.parse_failed",
            AniError::MissingBinary => "error.scraper.missing_binary",
            AniError::BashMissing => "error.bash.missing",
            AniError::PlayerSpawnFailed { .. } => "error.player.spawn_failed",
            AniError::SyncplaySpawnFailed { .. } => "error.syncplay.spawn_failed",
            AniError::Upstream { .. } => "error.network.upstream",
            AniError::Network => "error.network.unreachable",
            AniError::Cache => "error.cache.generic",
            AniError::Io => "error.io.generic",
            AniError::Config => "error.config.parse",
            AniError::Metadata => "error.metadata.source",
            AniError::InvalidToken => "error.stream.invalid_token",
        }
    }

    /// The HTTP status an API response carries for the error: 404 for no
    /// results, 401 for a bad stream token, 502 for an upstream error,
    /// 503 for a network failure, 504 for a timeout, 500 otherwise.
    pub fn http_status(&self) -> (r: u16)
        ensures
            r == match *self {
                AniError::NoResults => 404u16,
                AniError::InvalidToken => 401u16,
                AniError::Upstream { .. } => 502u16,
                AniError::Network => 503u16,
                AniError::Timeout => 504u16,
                _ => 500u16,
            },
    {
        match self {
            AniError::NoResults => 404,
            AniError::InvalidToken => 401,
            AniError::Upstream { .. } => 502,
            AniError::Network => 503,
            AniError::Timeout => 504,
            _ => 500,
        }
    }

    /// The human-readable message (what the error displays as).
    pub fn message(&self) -> (r: String)
        ensures
            r@ == error_message(*self),
    {
        match self {
            AniError::Scraper { .. } => "scraper error".to_owned(),
            AniError::Timeout => "scraper timed out".to_owned(),
            AniError::NoResults => "no results".to_owned(),
            AniError::ParseFailed { detail } => concat2("parse failed: ", detail.as_str()),
            AniError::MissingBinary => "missing ani-cli binary".to_owned(),
            AniError::BashMissing => "missing bash.exe (install Git for Windows)".to_owned(),
            AniError::PlayerSpawnFailed { binary } => concat2(
                "player spawn failed: ",
                binary.as_str(),
            ),
            AniError::SyncplaySpawnFailed { binary } => concat2(
                "syncplay spawn failed: ",
                binary.as_str(),
            ),
            AniError::Upstream { status } => {
                let d = decimal_string(*status as u64);
                concat2("upstream ", d.as_str())
            },
            AniError::Network => "network error".to_owned(),
            AniError::Cache => "cache error".to_owned(),
            AniError::Io => "io error".to_owned(),
            AniError::Config => "config error".to_owned(),
            AniError::Metadata => "metadata source".to_owned(),
            AniError::InvalidToken => "invalid stream token".to_owned(),
        }
    }
}

/// `std::io::Error`, carried through opaquely.
#[verifier::external_type_specification]
#[verifier::external_body]
pub struct ExIoError(std::io::Error);

/// `toml::de::Error`, carried through opaquely.
#[verifier::external_type_specification]
#[verifier::external_body]
pub struct ExTomlDeError(toml::de::Error);

impl From<std::io::Error> for AniError {
    fn from(e: std::io::Error) -> (r: Self) {
        AniError::Io
    }
}

impl vstd::std_specs::convert::FromSpecImpl<std::io::Error> for AniError {
    open spec fn obeys_from_spec() -> bool {
        true
    }

    open spec fn from_spec(v: std::io::Error) -> Self {
        AniError::Io
    }
}

impl From<toml::de::Error> for AniError {
    fn from(e: toml::de::Error) -> (r: Self) {
        AniError::Config
    }
}

impl vstd::std_specs::convert::FromSpecImpl<toml::de::Error> for AniError {
    open spec fn obeys_from_spec() -> bool {
        true
    }

    open spec fn from_spec(v: toml::de::Error) -> Self {
        AniError::Config
    }
}

} // verus!
