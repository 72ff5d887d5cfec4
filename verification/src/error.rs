//! The library's error type.

use vstd::prelude::*;
use crate::text::{decimal_string, owned, push_str, spec_decimal};

verus! {

/// Primary error type for all operations of the library.
///
/// Errors that arise in the HTTP, JSON, URL, I/O and TOML layers are carried
/// as the message text of the layer that raised them.
#[derive(Debug)]
#[allow(inconsistent_fields)]
pub enum Error {
    /// The HTTP layer failed to send or receive a request.
    Http(String),
    /// The instance refused the credentials.
    Auth { message: String, status: Option<u16> },
    /// The instance answered with an error.
    Api { status: u16, message: String, detail: Option<String> },
    /// The instance asked the client to slow down.
    RateLimited { retry_after: Option<u64> },
    /// A schema definition could not be loaded or was inconsistent.
    Schema(String),
    /// The configuration is incomplete or invalid.
    Config(String),
    /// A query could not be built.
    Query(String),
    /// A JSON document could not be read.
    Json(String),
    /// A URL could not be parsed.
    UrlParse(String),
    /// A file could not be read.
    Io(String),
    /// A TOML document could not be read.
    Toml(String),
    /// Some of several requests failed.
    PartialResult { succeeded: usize, failed: usize, errors: Vec<Error> },
}

/// The text of an optional count as the debug form writes it: `Some(n)` or `None`.
pub open spec fn spec_debug_opt_u64(o: Option<u64>) -> Seq<char> {
    match o {
        Some(n) => "Some("@ + spec_decimal(n as nat) + ")"@,
        None => "None"@,
    }
}

/// The human-readable message of an error.
pub open spec fn spec_error_text(e: Error) -> Seq<char> {
    match e {
        Error::Http(m) => "HTTP error: "@ + m@,
        Error::Auth { message, .. } => "authentication failed: "@ + message@,
        Error::Api { status, message, .. } => "API error ("@ + spec_decimal(status as nat) + "): "@ + message@,
        Error::RateLimited { retry_after } => "rate limited, retry after "@ + spec_debug_opt_u64(retry_after) + "s"@,
        Error::Schema(m) => "schema error: "@ + m@,
        Error::Config(m) => "configuration error: "@ + m@,
        Error::Query(m) => "query error: "@ + m@,
        Error::Json(m) => "JSON error: "@ + m@,
        Error::UrlParse(m) => "URL parse error: "@ + m@,
        Error::Io(m) => "IO error: "@ + m@,
        Error::Toml(m) => "TOML parse error: "@ + m@,
        Error::PartialResult { succeeded, failed, .. } => "partial result: "@ + spec_decimal(succeeded as nat)
            + " succeeded, "@ + spec_decimal(failed as nat) + " failed"@,
    }
}

fn prefixed(prefix: &str, m: &String) -> (r: String)
    ensures
        r@ == prefix@ + m@,
{
    let mut s = owned(prefix);
    push_str(&mut s, m.as_str());
    s
}

impl Error {
    /// The human-readable message of the error.
    pub fn to_string(&self) -> (r: String)
        ensures
            r@ == spec_error_text(*self),
    {
        match self {
            Error::Http(m) => prefixed("HTTP error: ", m),
            Error::Auth { message, .. } => prefixed("authentication failed: ", message),
            Error::Api { status, message, .. } => {
                let mut s = owned("API error (");
                push_str(&mut s, decimal_string(*status as u64).as_str());
                push_str(&mut s, "): ");
                push_str(&mut s, message.as_str());
                s
            },
            Error::RateLimited { retry_after } => {
                let mut s = owned("rate limited, retry after ");
                match retry_after {
                    Some(n) => {
                        push_str(&mut s, "Some(");
                        push_str(&mut s, decimal_string(*n).as_str());
                        push_str(&mut s, ")");
                    },
                    None => push_str(&mut s, "None"),
                }
                push_str(&mut s, "s");
                s
            },
            Error::Schema(m) => prefixed("schema error: ", m),
            Error::Config(m) => prefixed("configuration error: ", m),
            Error::Query(m) => prefixed("query error: ", m),
            Error::Json(m) => prefixed("JSON error: ", m),
            Error::UrlParse(m) => prefixed("URL parse error: ", m),
            Error::Io(m) => prefixed("IO error: ", m),
            Error::Toml(m) => prefixed("TOML parse error: ", m),
            Error::PartialResult { succeeded, failed, .. } => {
                let mut s = owned("partial result: ");
                push_str(&mut s, decimal_string(*succeeded as u64).as_str());
                push_str(&mut s, " succeeded, ");
                push_str(&mut s, decimal_string(*failed as u64).as_str());
                push_str(&mut s, " failed");
                s
            },
        }
    }
}

/// Result type of the library.
pub type Result<T> = core::result::Result<T, Error>;

}
