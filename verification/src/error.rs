//! The error type of the library.
use vstd::prelude::*;
use crate::text::{append_str, string_from};

verus! {

#[verifier::external_type_specification]
#[verifier::external_body]
pub struct ExUrlParseError(url::ParseError);

#[verifier::external_type_specification]
#[verifier::external_body]
pub struct ExIoError(std::io::Error);

#[verifier::external_type_specification]
#[verifier::external_body]
pub struct ExHttpError(reqwest::Error);

#[verifier::external_type_specification]
#[verifier::external_body]
pub struct ExJsonError(serde_json::Error);

#[verifier::external_type_specification]
#[verifier::external_body]
pub struct ExInvalidHeaderValue(reqwest::header::InvalidHeaderValue);

#[verifier::external_type_specification]
#[verifier::external_body]
pub struct ExInvalidHeaderName(reqwest::header::InvalidHeaderName);

#[verifier::external_type_specification]
#[verifier::external_body]
pub struct ExAcquireError(tokio::sync::AcquireError);

/// What can go wrong in the library.
#[derive(Debug)]
pub enum WardenError {
    NoConfigs,
    AllFailed,
    ProtocolUnsupported(String),
    AuthMissing,
    Api(String),
    Io(std::io::Error),
    Http(reqwest::Error),
    Url(url::ParseError),
    Json(serde_json::Error),
    Header(reqwest::header::InvalidHeaderValue),
    HeaderName(reqwest::header::InvalidHeaderName),
    SemaphoreClosed(tokio::sync::AcquireError),
    Crypto(String),
    Other(String),
    ConfigParseError(String),
    TunnelError(String),
    ProtocolNotSupported(String),
    NoConfigsAvailable,
    AllConnectionsFailed,
    Update(String),
    Download(String),
}

/// The text that `url::ParseError` displays.
#[verifier::external_body]
pub(crate) fn url_error_text(e: &url::ParseError) -> String {
    e.to_string()
}

/// The text that `std::io::Error` displays.
#[verifier::external_body]
pub(crate) fn io_error_text(e: &std::io::Error) -> String {
    e.to_string()
}

/// The text that `reqwest::Error` displays.
#[verifier::external_body]
pub(crate) fn http_error_text(e: &reqwest::Error) -> String {
    e.to_string()
}

/// The text that `serde_json::Error` displays.
#[verifier::external_body]
pub(crate) fn json_error_text(e: &serde_json::Error) -> String {
    e.to_string()
}

/// The text that `InvalidHeaderValue` displays.
#[verifier::external_body]
pub(crate) fn header_value_error_text(e: &reqwest::header::InvalidHeaderValue) -> String {
    e.to_string()
}

/// The text that `InvalidHeaderName` displays.
#[verifier::external_body]
pub(crate) fn header_name_error_text(e: &reqwest::header::InvalidHeaderName) -> String {
    e.to_string()
}

/// `prefix` followed by the text of an outside error.
fn with_prefix(prefix: &str, text: String) -> (m: String)
    ensures
        m@.len() >= prefix@.len(),
        m@.subrange(0, prefix@.len() as int) == prefix@,
{
    let m = append_str(string_from(prefix), text.as_str());
    assert(m@.subrange(0, prefix@.len() as int) =~= prefix@);
    m
}

/// `m` starts with `p`.
pub open spec fn has_prefix(m: Seq<char>, p: Seq<char>) -> bool {
    m.len() >= p.len() && m.subrange(0, p.len() as int) == p
}

impl WardenError {
    /// The human-readable message of this error.
    pub fn message(&self) -> (m: String)
        ensures
            match self {
                WardenError::NoConfigs => m@ == "no configs available"@,
                WardenError::AllFailed => m@ == "all connection attempts failed"@,
                WardenError::ProtocolUnsupported(s) => m@ == "protocol not supported: "@ + s@,
                WardenError::AuthMissing => m@ == "auth token missing"@,
                WardenError::Api(s) => m@ == "api error: "@ + s@,
                WardenError::Io(_) => has_prefix(m@, "io: "@),
                WardenError::Http(_) => has_prefix(m@, "http: "@),
                WardenError::Url(_) => starts_with_url(m@),
                WardenError::Json(_) => has_prefix(m@, "json: "@),
                WardenError::Header(_) => has_prefix(m@, "invalid header: "@),
                WardenError::HeaderName(_) => has_prefix(m@, "invalid header name: "@),
                WardenError::SemaphoreClosed(_) => m@ == "semaphore closed"@,
                WardenError::Crypto(s) => m@ == "crypto: "@ + s@,
                WardenError::Other(s) => m@ == "other: "@ + s@,
                WardenError::ConfigParseError(s) => m@ == "config parse error: "@ + s@,
                WardenError::TunnelError(s) => m@ == "tunnel error: "@ + s@,
                WardenError::ProtocolNotSupported(s) => m@ == "protocol not supported: "@ + s@,
                WardenError::NoConfigsAvailable => m@ == "no configs available"@,
                WardenError::AllConnectionsFailed => m@ == "all connection attempts failed"@,
                WardenError::Update(s) => m@ == "update error: "@ + s@,
                WardenError::Download(s) => m@ == "download error: "@ + s@,
            },
    {
        match self {
            WardenError::NoConfigs => string_from("no configs available"),
            WardenError::AllFailed => string_from("all connection attempts failed"),
            WardenError::ProtocolUnsupported(s) => append_str(string_from("protocol not supported: "), s),
            WardenError::AuthMissing => string_from("auth token missing"),
            WardenError::Api(s) => append_str(string_from("api error: "), s),
            WardenError::Io(e) => with_prefix("io: ", io_error_text(e)),
            WardenError::Http(e) => with_prefix("http: ", http_error_text(e)),
            WardenError::Json(e) => with_prefix("json: ", json_error_text(e)),
            WardenError::Header(e) => with_prefix("invalid header: ", header_value_error_text(e)),
            WardenError::HeaderName(e) => with_prefix("invalid header name: ", header_name_error_text(e)),
            WardenError::SemaphoreClosed(_) => string_from("semaphore closed"),
            WardenError::Url(e) => {
                let text = url_error_text(e);
                let m = append_str(string_from("url: "), &text);
                proof {
                    reveal_strlit("url: ");
                    assert(m@.subrange(0, 5) =~= "url: "@);
                }
                m
            },
            WardenError::Crypto(s) => append_str(string_from("crypto: "), s),
            WardenError::Other(s) => append_str(string_from("other: "), s),
            WardenError::ConfigParseError(s) => append_str(string_from("config parse error: "), s),
            WardenError::TunnelError(s) => append_str(string_from("tunnel error: "), s),
            WardenError::ProtocolNotSupported(s) => append_str(string_from("protocol not supported: "), s),
            WardenError::NoConfigsAvailable => string_from("no configs available"),
            WardenError::AllConnectionsFailed => string_from("all connection attempts failed"),
            WardenError::Update(s) => append_str(string_from("update error: "), s),
            WardenError::Download(s) => append_str(string_from("download error: "), s),
        }
    }
}

/// `m` starts with `"url: "`.
pub open spec fn starts_with_url(m: Seq<char>) -> bool {
    m.len() >= 5 && m.subrange(0, 5) == "url: "@
}

impl From<std::io::Error> for WardenError {
    fn from(e: std::io::Error) -> (r: WardenError) {
        WardenError::Io(e)
    }
}

impl vstd::std_specs::convert::FromSpecImpl<std::io::Error> for WardenError {
    open spec fn obeys_from_spec() -> bool {
        true
    }

    open spec fn from_spec(v: std::io::Error) -> WardenError {
        WardenError::Io(v)
    }
}

impl From<reqwest::Error> for WardenError {
    fn from(e: reqwest::Error) -> (r: WardenError) {
        WardenError::Http(e)
    }
}

impl vstd::std_specs::convert::FromSpecImpl<reqwest::Error> for WardenError {
    open spec fn obeys_from_spec() -> bool {
        true
    }

    open spec fn from_spec(v: reqwest::Error) -> WardenError {
        WardenError::Http(v)
    }
}

impl From<url::ParseError> for WardenError {
    fn from(e: url::ParseError) -> (r: WardenError) {
        WardenError::Url(e)
    }
}

impl vstd::std_specs::convert::FromSpecImpl<url::ParseError> for WardenError {
    open spec fn obeys_from_spec() -> bool {
        true
    }

    open spec fn from_spec(v: url::ParseError) -> WardenError {
        WardenError::Url(v)
    }
}

impl From<serde_json::Error> for WardenError {
    fn from(e: serde_json::Error) -> (r: WardenError) {
        WardenError::Json(e)
    }
}

impl vstd::std_specs::convert::FromSpecImpl<serde_json::Error> for WardenError {
    open spec fn obeys_from_spec() -> bool {
        true
    }

    open spec fn from_spec(v: serde_json::Error) -> WardenError {
        WardenError::Json(v)
    }
}

impl From<reqwest::header::InvalidHeaderValue> for WardenError {
    fn from(e: reqwest::header::InvalidHeaderValue) -> (r: WardenError) {
        WardenError::Header(e)
    }
}

impl vstd::std_specs::convert::FromSpecImpl<reqwest::header::InvalidHeaderValue> for WardenError {
    open spec fn obeys_from_spec() -> bool {
        true
    }

    open spec fn from_spec(v: reqwest::header::InvalidHeaderValue) -> WardenError {
        WardenError::Header(v)
    }
}

impl From<reqwest::header::InvalidHeaderName> for WardenError {
    fn from(e: reqwest::header::InvalidHeaderName) -> (r: WardenError) {
        WardenError::HeaderName(e)
    }
}

impl vstd::std_specs::convert::FromSpecImpl<reqwest::header::InvalidHeaderName> for WardenError {
    open spec fn obeys_from_spec() -> bool {
        true
    }

    open spec fn from_spec(v: reqwest::header::InvalidHeaderName) -> WardenError {
        WardenError::HeaderName(v)
    }
}

impl From<tokio::sync::AcquireError> for WardenError {
    fn from(e: tokio::sync::AcquireError) -> (r: WardenError) {
        WardenError::SemaphoreClosed(e)
    }
}

impl vstd::std_specs::convert::FromSpecImpl<tokio::sync::AcquireError> for WardenError {
    open spec fn obeys_from_spec() -> bool {
        true
    }

    open spec fn from_spec(v: tokio::sync::AcquireError) -> WardenError {
        WardenError::SemaphoreClosed(v)
    }
}

} // verus!
