//! Errors of the Snowflake interfaces.
use vstd::prelude::*;

use crate::error::{error_of, ErrorKind, ErrorModel, EtlError};
use crate::text::{cat2, cat4, decimal, decimal_of};

verus! {

/// A status of an HTTP response.
#[derive(Clone, Copy, Debug, PartialEq, Eq, Structural)]
pub struct HttpStatus {
    code: u16,
}

impl HttpStatus {
    /// Statuses have three digits.
    #[verifier::type_invariant]
    spec fn wf(self) -> bool {
        100 <= self.code <= 999
    }

    /// The number of the status.
    pub closed spec fn number(self) -> u16 {
        self.code
    }

    /// Makes a status of a number, if it is one.
    pub fn from_u16(code: u16) -> (r: Option<HttpStatus>)
        ensures
            r is Some <==> 100 <= code <= 999,
            r matches Some(s) ==> s.number() == code,
    {
        if 100 <= code && code <= 999 {
            Some(HttpStatus { code })
        } else {
            None
        }
    }

    /// Returns the number of the status.
    pub fn as_u16(&self) -> (r: u16)
        ensures
            r == self.number(),
            100 <= r <= 999,
    {
        proof {
            use_type_invariant(self);
        }
        self.code
    }

    /// Returns whether the server is at fault.
    pub fn is_server_error(&self) -> (r: bool)
        ensures
            r == server_error(self.number()),
    {
        500 <= self.code && self.code <= 599
    }

    /// Returns the number and the name of the status.
    pub fn to_text(&self) -> (r: String)
        ensures
            r@ == http_status_text(self.number()),
    {
        let code = self.as_u16();
        display_status(code)
    }
}

/// Whether a status says that the server is at fault.
pub open spec fn server_error(code: u16) -> bool {
    500 <= code <= 599
}

/// What `reqwest::StatusCode` prints of a status.
pub uninterp spec fn http_status_text(code: u16) -> Seq<char>;

/// Prints a status, by the `Display` of `reqwest::StatusCode`. `StatusCode::from_u16` accepts
/// exactly the numbers from 100 to 999, and what is printed depends on the number alone.
#[verifier::external_body]
fn display_status(code: u16) -> (r: String)
    requires
        100 <= code <= 999,
    ensures
        r@ == http_status_text(code),
{
    match reqwest::StatusCode::from_u16(code) {
        Ok(status) => status.to_string(),
        Err(e) => e.to_string(),
    }
}

/// Errors of the Snowflake interfaces.
#[derive(Debug)]
pub enum Error {
    /// A request could not be made or answered; what the transport says of it.
    HttpTransport(String),
    /// A request was refused.
    HttpStatus { status: HttpStatus, body: String },
    /// Authentication failed.
    Auth(String),
    /// A statement failed.
    Sql { statement_handle: Option<String>, message: String },
    /// The streaming interface reported an error.
    Snowpipe { status_code: u32, message: String },
    /// A channel is not in the state that an operation needs.
    Channel(String),
    /// A row cannot be encoded.
    Encoding(String),
    /// The configuration or a source schema cannot be used.
    Config(String),
}

/// Result of an operation on the Snowflake interfaces.
pub type SnowflakeResult<T> = Result<T, Error>;

/// A refused request in words, by how its status reads.
pub open spec fn refusal_text(status: Seq<char>, body: Seq<char>) -> Seq<char> {
    "HTTP status "@ + status + ": "@ + body
}

/// Returns a refused request in words, given how its status reads.
pub fn refusal(status: &str, body: &str) -> (r: String)
    ensures
        r@ == refusal_text(status@, body@),
{
    cat4("HTTP status ", status, ": ", body)
}

impl Error {
    /// The error in words.
    pub open spec fn text(&self) -> Seq<char> {
        match *self {
            Error::HttpTransport(e) => "HTTP transport error: "@ + e@,
            Error::HttpStatus { status, body } => refusal_text(
                http_status_text(status.number()),
                body@,
            ),
            Error::Auth(e) => "Authentication error: "@ + e@,
            Error::Sql { statement_handle, message } => match statement_handle {
                Some(h) => "SQL error (handle "@ + h@ + "): "@ + message@,
                None => "SQL error: "@ + message@,
            },
            Error::Snowpipe { status_code, message } => "Snowpipe error (code "@ + decimal(
                status_code as nat,
            ) + "): "@ + message@,
            Error::Channel(e) => "Channel error: "@ + e@,
            Error::Encoding(e) => "Encoding error: "@ + e@,
            Error::Config(e) => "Configuration error: "@ + e@,
        }
    }

    /// Returns the error in words.
    pub fn to_text(&self) -> (r: String)
        ensures
            r@ == self.text(),
    {
        match self {
            Error::HttpTransport(e) => cat2("HTTP transport error: ", e.as_str()),
            Error::HttpStatus { status, body } => {
                let status = status.to_text();
                refusal(status.as_str(), body.as_str())
            },
            Error::Auth(e) => cat2("Authentication error: ", e.as_str()),
            Error::Sql { statement_handle, message } => match statement_handle {
                Some(h) => cat4("SQL error (handle ", h.as_str(), "): ", message.as_str()),
                None => cat2("SQL error: ", message.as_str()),
            },
            Error::Snowpipe { status_code, message } => {
                let code = decimal_of(*status_code as u128);
                cat4("Snowpipe error (code ", code.as_str(), "): ", message.as_str())
            },
            Error::Channel(e) => cat2("Channel error: ", e.as_str()),
            Error::Encoding(e) => cat2("Encoding error: ", e.as_str()),
            Error::Config(e) => cat2("Configuration error: ", e.as_str()),
        }
    }

    /// What a worker is to make of the error.
    pub open spec fn etl_kind(&self) -> ErrorKind {
        match *self {
            Error::Encoding(_) => ErrorKind::InvalidData,
            Error::Config(_) => ErrorKind::ConfigError,
            _ => ErrorKind::DestinationError,
        }
    }

    /// A short description of the error.
    pub open spec fn etl_description(&self) -> Seq<char> {
        match *self {
            Error::HttpTransport(_) => "Snowflake HTTP transport error"@,
            Error::HttpStatus { status, body: _ } => if server_error(status.number()) {
                "Snowflake server error"@
            } else {
                "Snowflake HTTP error"@
            },
            Error::Auth(_) => "Snowflake authentication failed"@,
            Error::Sql { statement_handle: _, message: _ } => "Snowflake SQL execution failed"@,
            Error::Snowpipe { status_code: _, message: _ } => "Snowpipe streaming error"@,
            Error::Channel(_) => "Snowflake channel error"@,
            Error::Encoding(_) => "Snowflake encoding error"@,
            Error::Config(_) => "Snowflake configuration error"@,
        }
    }

    /// The error as the pipeline reports it.
    pub open spec fn etl(&self) -> ErrorModel {
        error_of(self.etl_kind(), self.etl_description(), self.text())
    }

    /// Returns the error as the pipeline reports it.
    pub fn to_etl_error(&self) -> (r: EtlError)
        ensures
            r@ == self.etl(),
    {
        let (kind, description) = match self {
            Error::HttpTransport(_) => (
                ErrorKind::DestinationError,
                "Snowflake HTTP transport error",
            ),
            Error::HttpStatus { status, body: _ } => if status.is_server_error() {
                (ErrorKind::DestinationError, "Snowflake server error")
            } else {
                (ErrorKind::DestinationError, "Snowflake HTTP error")
            },
            Error::Auth(_) => (ErrorKind::DestinationError, "Snowflake authentication failed"),
            Error::Sql { statement_handle: _, message: _ } => (
                ErrorKind::DestinationError,
                "Snowflake SQL execution failed",
            ),
            Error::Snowpipe { status_code: _, message: _ } => (
                ErrorKind::DestinationError,
                "Snowpipe streaming error",
            ),
            Error::Channel(_) => (ErrorKind::DestinationError, "Snowflake channel error"),
            Error::Encoding(_) => (ErrorKind::InvalidData, "Snowflake encoding error"),
            Error::Config(_) => (ErrorKind::ConfigError, "Snowflake configuration error"),
        };
        EtlError::new(kind, description, self.to_text())
    }
}

/// Server errors are those from 500 to 599.
pub proof fn law_server_errors(code: u16)
    ensures
        server_error(code) <==> code >= 500 && code < 600,
{
}

/// Rows that cannot be encoded are invalid data and a wrong configuration is a configuration error; all
/// else is an error of the destination. The description says what failed, and the detail is the error's
/// text.
pub proof fn law_errors_are_classified(e: Error)
    ensures
        e is Encoding <==> e.etl().kind == ErrorKind::InvalidData,
        e is Config <==> e.etl().kind == ErrorKind::ConfigError,
        !(e is Encoding) && !(e is Config) ==> e.etl().kind == ErrorKind::DestinationError,
        e is HttpTransport ==> e.etl().description == "Snowflake HTTP transport error"@,
        e matches Error::HttpStatus { status, body } ==> (500 <= status.number() <= 599
            ==> e.etl().description == "Snowflake server error"@),
        e matches Error::HttpStatus { status, body } ==> (!(500 <= status.number() <= 599)
            ==> e.etl().description == "Snowflake HTTP error"@),
        e is Auth ==> e.etl().description == "Snowflake authentication failed"@,
        e is Sql ==> e.etl().description == "Snowflake SQL execution failed"@,
        e is Snowpipe ==> e.etl().description == "Snowpipe streaming error"@,
        e is Channel ==> e.etl().description == "Snowflake channel error"@,
        e is Encoding ==> e.etl().description == "Snowflake encoding error"@,
        e is Config ==> e.etl().description == "Snowflake configuration error"@,
        e.etl().detail == Some(e.text()),
{
}

/// What an error reads as.
pub proof fn law_errors_read_as_this(
    text: String,
    handle: String,
    code: u32,
    status: HttpStatus,
)
    ensures
        Error::HttpTransport(text).text() == "HTTP transport error: "@ + text@,
        Error::Auth(text).text() == "Authentication error: "@ + text@,
        Error::Channel(text).text() == "Channel error: "@ + text@,
        Error::Encoding(text).text() == "Encoding error: "@ + text@,
        Error::Config(text).text() == "Configuration error: "@ + text@,
        (Error::Sql { statement_handle: Some(handle), message: text }).text()
            == "SQL error (handle "@ + handle@ + "): "@ + text@,
        (Error::Sql { statement_handle: None, message: text }).text() == "SQL error: "@ + text@,
        (Error::Snowpipe { status_code: code, message: text }).text() == "Snowpipe error (code "@
            + decimal(code as nat) + "): "@ + text@,
        (Error::HttpStatus { status, body: text }).text() == "HTTP status "@ + http_status_text(
            status.number(),
        ) + ": "@ + text@,
{
}

/// A refusal is told by its status and its body.
pub proof fn law_refusals_read_as_this(status: &str, body: &str, r: String)
    requires
        call_ensures(refusal, (status, body), r),
    ensures
        r@ == "HTTP status "@ + status@ + ": "@ + body@,
{
}

/// Encoding and configuration errors keep their kind; all others are errors of the destination.
pub proof fn law_kinds_of_errors(e: Error)
    ensures
        e is Encoding <==> e.etl_kind() == ErrorKind::InvalidData,
        e is Config <==> e.etl_kind() == ErrorKind::ConfigError,
        !(e is Encoding) && !(e is Config) ==> e.etl_kind() == ErrorKind::DestinationError,
        e is HttpTransport ==> e.etl_description() == "Snowflake HTTP transport error"@,
        e is Auth ==> e.etl_description() == "Snowflake authentication failed"@,
        e is Sql ==> e.etl_description() == "Snowflake SQL execution failed"@,
        e is Snowpipe ==> e.etl_description() == "Snowpipe streaming error"@,
        e is Channel ==> e.etl_description() == "Snowflake channel error"@,
        e is Encoding ==> e.etl_description() == "Snowflake encoding error"@,
        e is Config ==> e.etl_description() == "Snowflake configuration error"@,
{
}

/// A status has three digits.
pub proof fn law_statuses_have_three_digits(code: u16, r: Option<HttpStatus>)
    requires
        call_ensures(HttpStatus::from_u16, (code,), r),
    ensures
        r is Some <==> 100 <= code <= 999,
        r matches Some(status) ==> status.number() == code,
{
}

} // verus!
