//! Outcomes of append requests: classification, retries and errors.
use prost::Message;
use vstd::prelude::*;

use crate::error::{error_of, ErrorKind, ErrorModel, EtlError};
use crate::text::{
    cat2, cat4, chars_of, contains_piece, decimal, decimal_of, find_last, has_piece,
    join, joined, last_place, law_last_place_is_the_last, lower_ascii, str_eq, string_of, to_lower_ascii, views,
};

verus! {

/// Requests that one connection may have under way.
pub const MAX_INFLIGHT_REQUESTS_PER_CONNECTION: usize = 100;

/// Requests that may be under way in all.
pub const MAX_SAFE_INFLIGHT_REQUESTS: usize = 100_000;

/// Seconds for which appends are retried while table metadata lags behind DDL.
pub const STORAGE_WRITE_METADATA_LAG_RETRY_TIMEOUT_SECS: u64 = 180;

/// Seconds before the first such retry.
pub const STORAGE_WRITE_METADATA_LAG_RETRY_DELAY_SECS: u64 = 1;

/// Most seconds between two such retries.
pub const STORAGE_WRITE_METADATA_LAG_MAX_RETRY_DELAY_SECS: u64 = 15;

/// Name of the message type that carries storage errors in status details.
pub const BIGQUERY_STORAGE_ERROR_TYPE_NAME: &'static str =
    "google.cloud.bigquery.storage.v1.StorageError";

/// Returns how many requests may be under way for a pool of connections.
pub fn compute_max_inflight_requests(connection_pool_size: usize) -> (r: usize)
    ensures
        r == if connection_pool_size * MAX_INFLIGHT_REQUESTS_PER_CONNECTION
            <= MAX_SAFE_INFLIGHT_REQUESTS {
            connection_pool_size * MAX_INFLIGHT_REQUESTS_PER_CONNECTION
        } else {
            MAX_SAFE_INFLIGHT_REQUESTS as int
        },
{
    if connection_pool_size <= MAX_SAFE_INFLIGHT_REQUESTS / MAX_INFLIGHT_REQUESTS_PER_CONNECTION {
        connection_pool_size * MAX_INFLIGHT_REQUESTS_PER_CONNECTION
    } else {
        MAX_SAFE_INFLIGHT_REQUESTS
    }
}

/// Status code of a gRPC call.
#[derive(Clone, Copy, Debug, PartialEq, Eq, Structural)]
pub enum GrpcCode {
    OkStatus,
    Cancelled,
    Unknown,
    InvalidArgument,
    DeadlineExceeded,
    NotFound,
    AlreadyExists,
    PermissionDenied,
    ResourceExhausted,
    FailedPrecondition,
    Aborted,
    OutOfRange,
    Unimplemented,
    Internal,
    Unavailable,
    DataLoss,
    Unauthenticated,
}

/// Status of a gRPC call.
#[derive(Debug)]
pub struct GrpcStatus {
    /// The status code.
    pub code: GrpcCode,
    /// The server's message.
    pub message: String,
    /// Encoded details.
    pub details: Vec<u8>,
}

/// What went wrong in a call to BigQuery.
#[derive(Debug)]
pub enum BigQueryCause {
    InvalidServiceAccountKey,
    InvalidServiceAccountAuthenticator,
    InvalidInstalledFlowAuthenticator,
    InvalidApplicationDefaultCredentialsAuthenticator,
    InvalidAuthorizedUserAuthenticator,
    AuthError,
    YupAuthError,
    NoToken,
    RequestError,
    /// The server answered with an HTTP error.
    ResponseError { code: i64 },
    NoDataAvailable,
    InvalidColumnIndex,
    InvalidColumnName,
    InvalidColumnType,
    SerializationError,
    TonicTransportError,
    TonicInvalidMetadataValueError,
    /// The server answered with a gRPC status.
    TonicStatusError(GrpcStatus),
    SemaphorePermitError,
    TokioTaskError,
    ConnectionPoolError,
}

/// A failed call to BigQuery.
#[derive(Debug)]
pub struct BigQueryError {
    /// What went wrong.
    pub cause: BigQueryCause,
    /// How the failure reads.
    pub text: String,
}

/// Kind and description of a failure.
pub open spec fn classified(cause: BigQueryCause) -> (ErrorKind, Seq<char>) {
    match cause {
        BigQueryCause::InvalidServiceAccountKey => (
            ErrorKind::DestinationAuthenticationError,
            "Invalid BigQuery service account key"@,
        ),
        BigQueryCause::InvalidServiceAccountAuthenticator => (
            ErrorKind::DestinationAuthenticationError,
            "Invalid BigQuery service account authenticator"@,
        ),
        BigQueryCause::InvalidInstalledFlowAuthenticator => (
            ErrorKind::DestinationAuthenticationError,
            "Invalid BigQuery installed flow authenticator"@,
        ),
        BigQueryCause::InvalidApplicationDefaultCredentialsAuthenticator => (
            ErrorKind::DestinationAuthenticationError,
            "Invalid BigQuery application default credentials"@,
        ),
        BigQueryCause::InvalidAuthorizedUserAuthenticator => (
            ErrorKind::DestinationAuthenticationError,
            "Invalid BigQuery authorized user authenticator"@,
        ),
        BigQueryCause::AuthError => (
            ErrorKind::DestinationAuthenticationError,
            "BigQuery authentication error"@,
        ),
        BigQueryCause::YupAuthError => (
            ErrorKind::DestinationAuthenticationError,
            "BigQuery OAuth authentication error"@,
        ),
        BigQueryCause::NoToken => (
            ErrorKind::DestinationAuthenticationError,
            "BigQuery authentication token missing"@,
        ),
        BigQueryCause::RequestError => (
            ErrorKind::DestinationIoError,
            "BigQuery request failed"@,
        ),
        BigQueryCause::TonicTransportError => (
            ErrorKind::DestinationIoError,
            "BigQuery transport error"@,
        ),
        BigQueryCause::ResponseError { code } => (
            ErrorKind::DestinationQueryFailed,
            "BigQuery response error"@,
        ),
        BigQueryCause::NoDataAvailable => (
            ErrorKind::InvalidState,
            "BigQuery result set positioning error"@,
        ),
        BigQueryCause::InvalidColumnIndex => (
            ErrorKind::InvalidData,
            "BigQuery invalid column index"@,
        ),
        BigQueryCause::InvalidColumnName => (
            ErrorKind::InvalidData,
            "BigQuery invalid column name"@,
        ),
        BigQueryCause::InvalidColumnType => (
            ErrorKind::ConversionError,
            "BigQuery column type mismatch"@,
        ),
        BigQueryCause::SerializationError => (
            ErrorKind::SerializationError,
            "BigQuery JSON serialization error"@,
        ),
        BigQueryCause::TonicInvalidMetadataValueError => (
            ErrorKind::InvalidData,
            "BigQuery invalid metadata value"@,
        ),
        BigQueryCause::TonicStatusError(status) => match status.code {
            GrpcCode::Unavailable => (ErrorKind::DestinationError, "BigQuery unavailable"@),
            GrpcCode::Internal => (ErrorKind::DestinationError, "BigQuery internal error"@),
            GrpcCode::Aborted => (ErrorKind::DestinationError, "BigQuery operation aborted"@),
            GrpcCode::Cancelled => (
                ErrorKind::DestinationError,
                "BigQuery operation cancelled"@,
            ),
            GrpcCode::DeadlineExceeded => (
                ErrorKind::DestinationError,
                "BigQuery deadline exceeded"@,
            ),
            GrpcCode::ResourceExhausted => (
                ErrorKind::DestinationError,
                "BigQuery resource exhausted"@,
            ),
            GrpcCode::FailedPrecondition => (
                ErrorKind::DestinationError,
                "BigQuery precondition failed"@,
            ),
            GrpcCode::Unknown => (ErrorKind::DestinationError, "BigQuery unknown error"@),
            GrpcCode::PermissionDenied => (
                ErrorKind::DestinationError,
                "BigQuery permission denied"@,
            ),
            GrpcCode::Unauthenticated => (
                ErrorKind::DestinationError,
                "BigQuery authentication failed"@,
            ),
            GrpcCode::InvalidArgument => (
                ErrorKind::DestinationError,
                "BigQuery invalid argument"@,
            ),
            GrpcCode::NotFound => (
                ErrorKind::DestinationTableMissing,
                "BigQuery entity not found"@,
            ),
            GrpcCode::AlreadyExists => (
                ErrorKind::DestinationTableAlreadyExists,
                "BigQuery entity already exists"@,
            ),
            GrpcCode::OutOfRange => (
                ErrorKind::DestinationError,
                "BigQuery offset out of range"@,
            ),
            GrpcCode::Unimplemented => (
                ErrorKind::DestinationError,
                "BigQuery operation not supported"@,
            ),
            GrpcCode::DataLoss => (ErrorKind::DestinationError, "BigQuery data loss"@),
            GrpcCode::OkStatus => (ErrorKind::DestinationError, "BigQuery unexpected ok status"@),
        },
        BigQueryCause::SemaphorePermitError => (
            ErrorKind::DestinationError,
            "BigQuery semaphore permit error"@,
        ),
        BigQueryCause::TokioTaskError => (
            ErrorKind::DestinationError,
            "BigQuery task execution error"@,
        ),
        BigQueryCause::ConnectionPoolError => (
            ErrorKind::DestinationError,
            "BigQuery connection pool error"@,
        ),
    }
}

/// Returns kind and description of a failure.
fn classify(cause: &BigQueryCause) -> (r: (ErrorKind, &'static str))
    ensures
        (r.0, r.1@) == classified(*cause),
{
    match cause {
        BigQueryCause::InvalidServiceAccountKey => (
            ErrorKind::DestinationAuthenticationError,
            "Invalid BigQuery service account key",
        ),
        BigQueryCause::InvalidServiceAccountAuthenticator => (
            ErrorKind::DestinationAuthenticationError,
            "Invalid BigQuery service account authenticator",
        ),
        BigQueryCause::InvalidInstalledFlowAuthenticator => (
            ErrorKind::DestinationAuthenticationError,
            "Invalid BigQuery installed flow authenticator",
        ),
        BigQueryCause::InvalidApplicationDefaultCredentialsAuthenticator => (
            ErrorKind::DestinationAuthenticationError,
            "Invalid BigQuery application default credentials",
        ),
        BigQueryCause::InvalidAuthorizedUserAuthenticator => (
            ErrorKind::DestinationAuthenticationError,
            "Invalid BigQuery authorized user authenticator",
        ),
        BigQueryCause::AuthError => (
            ErrorKind::DestinationAuthenticationError,
            "BigQuery authentication error",
        ),
        BigQueryCause::YupAuthError => (
            ErrorKind::DestinationAuthenticationError,
            "BigQuery OAuth authentication error",
        ),
        BigQueryCause::NoToken => (
            ErrorKind::DestinationAuthenticationError,
            "BigQuery authentication token missing",
        ),
        BigQueryCause::RequestError => (ErrorKind::DestinationIoError, "BigQuery request failed"),
        BigQueryCause::TonicTransportError => (
            ErrorKind::DestinationIoError,
            "BigQuery transport error",
        ),
        BigQueryCause::ResponseError { code: _ } => (
            ErrorKind::DestinationQueryFailed,
            "BigQuery response error",
        ),
        BigQueryCause::NoDataAvailable => (
            ErrorKind::InvalidState,
            "BigQuery result set positioning error",
        ),
        BigQueryCause::InvalidColumnIndex => (
            ErrorKind::InvalidData,
            "BigQuery invalid column index",
        ),
        BigQueryCause::InvalidColumnName => (
            ErrorKind::InvalidData,
            "BigQuery invalid column name",
        ),
        BigQueryCause::InvalidColumnType => (
            ErrorKind::ConversionError,
            "BigQuery column type mismatch",
        ),
        BigQueryCause::SerializationError => (
            ErrorKind::SerializationError,
            "BigQuery JSON serialization error",
        ),
        BigQueryCause::TonicInvalidMetadataValueError => (
            ErrorKind::InvalidData,
            "BigQuery invalid metadata value",
        ),
        BigQueryCause::TonicStatusError(status) => match status.code {
            GrpcCode::Unavailable => (ErrorKind::DestinationError, "BigQuery unavailable"),
            GrpcCode::Internal => (ErrorKind::DestinationError, "BigQuery internal error"),
            GrpcCode::Aborted => (ErrorKind::DestinationError, "BigQuery operation aborted"),
            GrpcCode::Cancelled => (ErrorKind::DestinationError, "BigQuery operation cancelled"),
            GrpcCode::DeadlineExceeded => (
                ErrorKind::DestinationError,
                "BigQuery deadline exceeded",
            ),
            GrpcCode::ResourceExhausted => (
                ErrorKind::DestinationError,
                "BigQuery resource exhausted",
            ),
            GrpcCode::FailedPrecondition => (
                ErrorKind::DestinationError,
                "BigQuery precondition failed",
            ),
            GrpcCode::Unknown => (ErrorKind::DestinationError, "BigQuery unknown error"),
            GrpcCode::PermissionDenied => (
                ErrorKind::DestinationError,
                "BigQuery permission denied",
            ),
            GrpcCode::Unauthenticated => (
                ErrorKind::DestinationError,
                "BigQuery authentication failed",
            ),
            GrpcCode::InvalidArgument => (
                ErrorKind::DestinationError,
                "BigQuery invalid argument",
            ),
            GrpcCode::NotFound => (
                ErrorKind::DestinationTableMissing,
                "BigQuery entity not found",
            ),
            GrpcCode::AlreadyExists => (
                ErrorKind::DestinationTableAlreadyExists,
                "BigQuery entity already exists",
            ),
            GrpcCode::OutOfRange => (
                ErrorKind::DestinationError,
                "BigQuery offset out of range",
            ),
            GrpcCode::Unimplemented => (
                ErrorKind::DestinationError,
                "BigQuery operation not supported",
            ),
            GrpcCode::DataLoss => (ErrorKind::DestinationError, "BigQuery data loss"),
            GrpcCode::OkStatus => (ErrorKind::DestinationError, "BigQuery unexpected ok status"),
        },
        BigQueryCause::SemaphorePermitError => (
            ErrorKind::DestinationError,
            "BigQuery semaphore permit error",
        ),
        BigQueryCause::TokioTaskError => (
            ErrorKind::DestinationError,
            "BigQuery task execution error",
        ),
        BigQueryCause::ConnectionPoolError => (
            ErrorKind::DestinationError,
            "BigQuery connection pool error",
        ),
    }
}

/// Label of a failure in metrics.
pub open spec fn label(cause: BigQueryCause) -> Seq<char> {
    match cause {
        BigQueryCause::TonicStatusError(status) => match status.code {
            GrpcCode::OkStatus => "ok"@,
            GrpcCode::Cancelled => "cancelled"@,
            GrpcCode::Unknown => "unknown"@,
            GrpcCode::InvalidArgument => "invalid_argument"@,
            GrpcCode::DeadlineExceeded => "deadline_exceeded"@,
            GrpcCode::NotFound => "not_found"@,
            GrpcCode::AlreadyExists => "already_exists"@,
            GrpcCode::PermissionDenied => "permission_denied"@,
            GrpcCode::ResourceExhausted => "resource_exhausted"@,
            GrpcCode::FailedPrecondition => "failed_precondition"@,
            GrpcCode::Aborted => "aborted"@,
            GrpcCode::OutOfRange => "out_of_range"@,
            GrpcCode::Unimplemented => "unimplemented"@,
            GrpcCode::Internal => "internal"@,
            GrpcCode::Unavailable => "unavailable"@,
            GrpcCode::DataLoss => "data_loss"@,
            GrpcCode::Unauthenticated => "unauthenticated"@,
        },
        _ => "other"@,
    }
}

/// Returns the label of a failure in metrics.
pub fn error_code_label(error: &BigQueryError) -> (r: &'static str)
    ensures
        r@ == label(error.cause),
{
    match &error.cause {
        BigQueryCause::TonicStatusError(status) => match status.code {
            GrpcCode::OkStatus => "ok",
            GrpcCode::Cancelled => "cancelled",
            GrpcCode::Unknown => "unknown",
            GrpcCode::InvalidArgument => "invalid_argument",
            GrpcCode::DeadlineExceeded => "deadline_exceeded",
            GrpcCode::NotFound => "not_found",
            GrpcCode::AlreadyExists => "already_exists",
            GrpcCode::PermissionDenied => "permission_denied",
            GrpcCode::ResourceExhausted => "resource_exhausted",
            GrpcCode::FailedPrecondition => "failed_precondition",
            GrpcCode::Aborted => "aborted",
            GrpcCode::OutOfRange => "out_of_range",
            GrpcCode::Unimplemented => "unimplemented",
            GrpcCode::Internal => "internal",
            GrpcCode::Unavailable => "unavailable",
            GrpcCode::DataLoss => "data_loss",
            GrpcCode::Unauthenticated => "unauthenticated",
        },
        _ => "other",
    }
}

/// The details that an encoded `google.rpc.Status` holds, each by its type URL and its encoded
/// value; none if the bytes are no such message.
pub uninterp spec fn rpc_status_details(bytes: Seq<u8>) -> Option<Seq<(Seq<char>, Seq<u8>)>>;

/// The code number that an encoded `StorageError` holds; none if the bytes are no such message.
pub uninterp spec fn storage_error_number(bytes: Seq<u8>) -> Option<int>;

/// What decoded details hold.
pub open spec fn detail_views(details: Seq<(String, Vec<u8>)>) -> Seq<(Seq<char>, Seq<u8>)> {
    Seq::new(details.len(), |i: int| (details[i].0@, details[i].1@))
}

/// `prost::Message::decode` for `google.rpc.Status`: what the bytes decode to is a function of
/// the bytes.
#[verifier::external_body]
fn decode_rpc_status(bytes: &[u8]) -> (r: Option<Vec<(String, Vec<u8>)>>)
    ensures
        r is Some <==> rpc_status_details(bytes@) is Some,
        r matches Some(details) ==> rpc_status_details(bytes@) == Some(detail_views(details@)),
{
    let status = gcp_bigquery_client::google::rpc::Status::decode(bytes).ok()?;
    Some(status.details.into_iter().map(|detail| (detail.type_url, detail.value)).collect())
}

/// `prost::Message::decode` for BigQuery's `StorageError`: what the bytes decode to is a
/// function of the bytes.
#[verifier::external_body]
fn decode_storage_error(bytes: &[u8]) -> (r: Option<i32>)
    ensures
        r is Some <==> storage_error_number(bytes@) is Some,
        r matches Some(code) ==> storage_error_number(bytes@) == Some(code as int),
{
    gcp_bigquery_client::google::cloud::bigquery::storage::v1::StorageError::decode(bytes)
        .ok()
        .map(|error| error.code)
}

/// Name of a storage error code, if the number is one.
pub open spec fn storage_code_name(code: int) -> Option<Seq<char>> {
    if code == 0 {
        Some("STORAGE_ERROR_CODE_UNSPECIFIED"@)
    } else if code == 1 {
        Some("TABLE_NOT_FOUND"@)
    } else if code == 2 {
        Some("STREAM_ALREADY_COMMITTED"@)
    } else if code == 3 {
        Some("STREAM_NOT_FOUND"@)
    } else if code == 4 {
        Some("INVALID_STREAM_TYPE"@)
    } else if code == 5 {
        Some("INVALID_STREAM_STATE"@)
    } else if code == 6 {
        Some("STREAM_FINALIZED"@)
    } else if code == 7 {
        Some("SCHEMA_MISMATCH_EXTRA_FIELDS"@)
    } else if code == 8 {
        Some("OFFSET_ALREADY_EXISTS"@)
    } else if code == 9 {
        Some("OFFSET_OUT_OF_RANGE"@)
    } else if code == 10 {
        Some("CMEK_NOT_PROVIDED"@)
    } else if code == 11 {
        Some("INVALID_CMEK_PROVIDED"@)
    } else if code == 12 {
        Some("CMEK_ENCRYPTION_ERROR"@)
    } else if code == 13 {
        Some("KMS_SERVICE_ERROR"@)
    } else if code == 14 {
        Some("KMS_PERMISSION_DENIED"@)
    } else {
        None
    }
}

/// `StorageErrorCode::try_from` and `StorageErrorCode::as_str_name` of BigQuery's storage
/// protocol: the numbers from zero to fourteen are codes, and each has the name stated here.
#[verifier::external_body]
fn storage_code_name_of(code: i32) -> (r: Option<String>)
    ensures
        r is Some <==> storage_code_name(code as int) is Some,
        r matches Some(name) ==> storage_code_name(code as int) == Some(name@),
{
    gcp_bigquery_client::google::cloud::bigquery::storage::v1::storage_error::StorageErrorCode::try_from(
        code,
    )
        .ok()
        .map(|code| code.as_str_name().to_owned())
}

/// What follows the last slash of a type URL.
pub open spec fn message_name(url: Seq<char>) -> Seq<char> {
    url.skip(last_place(url, '/') + 1)
}

/// The storage error code that one detail carries, by its name.
pub open spec fn detail_code(detail: (Seq<char>, Seq<u8>)) -> Option<Seq<char>> {
    if message_name(detail.0) != BIGQUERY_STORAGE_ERROR_TYPE_NAME@ {
        None
    } else {
        match storage_error_number(detail.1) {
            None => None,
            Some(n) => storage_code_name(n),
        }
    }
}

/// The storage error codes that details carry, in order.
pub open spec fn detail_codes(details: Seq<(Seq<char>, Seq<u8>)>) -> Seq<Seq<char>>
    decreases details.len(),
{
    if details.len() == 0 {
        Seq::empty()
    } else {
        match detail_code(details.last()) {
            Some(name) => detail_codes(details.drop_last()).push(name),
            None => detail_codes(details.drop_last()),
        }
    }
}

/// The storage error codes that a status carries.
pub open spec fn status_codes(details: Seq<u8>) -> Seq<Seq<char>> {
    match rpc_status_details(details) {
        None => Seq::empty(),
        Some(d) => detail_codes(d),
    }
}

/// Returns what follows the last slash of a type URL.
fn message_name_of(url: &str) -> (r: String)
    ensures
        r@ == message_name(url@),
{
    let chars = chars_of(url);
    let n: usize = chars.len();
    let start: usize = match find_last(&chars, '/') {
        Some(i) => i + 1,
        None => 0,
    };
    let out = string_of(chars.as_slice(), start, n);
    proof {
        assert(last_place(url@, '/') >= -1) by {
            lemma_last_place_range(url@, '/');
        }
        assert(out@ =~= url@.skip(start as int));
    }
    out
}

proof fn lemma_last_place_range(s: Seq<char>, c: char)
    ensures
        -1 <= last_place(s, c) < s.len(),
    decreases s.len(),
{
    if s.len() > 0 {
        lemma_last_place_range(s.drop_last(), c);
    }
}

/// Returns the storage error codes that decoded details carry.
pub fn storage_error_codes_of(details: &Vec<(String, Vec<u8>)>) -> (r: Vec<String>)
    ensures
        views(r@) == detail_codes(detail_views(details@)),
{
    let ghost all = detail_views(details@);
    let mut out: Vec<String> = Vec::new();
    let mut i: usize = 0;
    proof {
        assert(views(out@) =~= detail_codes(all.take(0)));
    }
    while i < details.len()
        invariant
            i <= details@.len(),
            all == detail_views(details@),
            views(out@) == detail_codes(all.take(i as int)),
        decreases details@.len() - i,
    {
        let ghost had = views(out@);
        proof {
            assert(all.take(i + 1).drop_last() =~= all.take(i as int));
            assert(all.take(i + 1).last() == (details@[i as int].0@, details@[i as int].1@));
        }
        let name = message_name_of(details[i].0.as_str());
        if str_eq(name.as_str(), BIGQUERY_STORAGE_ERROR_TYPE_NAME) {
            if let Some(code) = decode_storage_error(details[i].1.as_slice()) {
                if let Some(code_name) = storage_code_name_of(code) {
                    out.push(code_name);
                    proof {
                        assert(views(out@) =~= had.push(code_name@));
                    }
                }
            }
        }
        i = i + 1;
    }
    proof {
        assert(all.take(all.len() as int) =~= all);
    }
    out
}

/// Returns the storage error codes that a status carries in its details.
pub fn decode_storage_error_codes(status: &GrpcStatus) -> (r: Vec<String>)
    ensures
        views(r@) == status_codes(status.details@),
{
    match decode_rpc_status(status.details.as_slice()) {
        Some(details) => storage_error_codes_of(&details),
        None => {
            let out: Vec<String> = Vec::new();
            proof {
                assert(views(out@) =~= Seq::<Seq<char>>::empty());
            }
            out
        },
    }
}

/// Whether a message speaks of fields that the schema does not have.
pub open spec fn tells_of_extra_fields(message: Seq<char>) -> bool {
    let m = lower_ascii(message);
    has_piece(m, "missing in the proto message"@) || has_piece(m, "extra proto fields"@)
        || has_piece(m, "schema_mismatch_extra_field"@) || has_piece(
        m,
        "schema_mismatch_extra_fields"@,
    )
}

/// Whether an append failed because the schema that BigQuery writes with lags behind. The storage
/// error codes decide; the message does only where there is no code.
pub open spec fn schema_lags(code: GrpcCode, message: Seq<char>, codes: Seq<Seq<char>>) -> bool {
    code == GrpcCode::InvalidArgument && (codes.contains("SCHEMA_MISMATCH_EXTRA_FIELDS"@) || (
    codes.len() == 0 && tells_of_extra_fields(message)))
}

/// Returns whether an append failed because the schema lags, from the codes of its status.
pub fn schema_propagation_lags(code: GrpcCode, message: &str, codes: &Vec<String>) -> (r: bool)
    ensures
        r == schema_lags(code, message@, views(codes@)),
{
    if code != GrpcCode::InvalidArgument {
        return false;
    }
    let mut i: usize = 0;
    while i < codes.len()
        invariant
            i <= codes@.len(),
            code == GrpcCode::InvalidArgument,
            forall|j: int|
                0 <= j < i ==> #[trigger] views(codes@)[j] != "SCHEMA_MISMATCH_EXTRA_FIELDS"@,
        decreases codes@.len() - i,
    {
        if str_eq(codes[i].as_str(), "SCHEMA_MISMATCH_EXTRA_FIELDS") {
            proof {
                assert(views(codes@)[i as int] == "SCHEMA_MISMATCH_EXTRA_FIELDS"@);
            }
            return true;
        }
        i = i + 1;
    }
    if codes.len() > 0 {
        return false;
    }
    let m = to_lower_ascii(message);
    contains_piece(m.as_str(), "missing in the proto message") || contains_piece(
        m.as_str(),
        "extra proto fields",
    ) || contains_piece(m.as_str(), "schema_mismatch_extra_field") || contains_piece(
        m.as_str(),
        "schema_mismatch_extra_fields",
    )
}

/// Returns whether a failure is due to the schema that BigQuery writes with.
pub fn is_retryable_schema_propagation_error(error: &BigQueryError) -> (r: bool)
    ensures
        r == (error.cause matches BigQueryCause::TonicStatusError(s) && schema_lags(
            s.code,
            s.message@,
            status_codes(s.details@),
        )),
{
    match &error.cause {
        BigQueryCause::TonicStatusError(status) => {
            let codes = decode_storage_error_codes(status);
            schema_propagation_lags(status.code, status.message.as_str(), &codes)
        },
        _ => false,
    }
}

/// Whether an append failed because its table was just dropped and created again.
pub open spec fn recreation_lags(code: GrpcCode, message: Seq<char>) -> bool {
    code == GrpcCode::NotFound && has_piece(lower_ascii(message), "is re-created"@)
}

/// Returns whether a failure is due to a table that was dropped and created again.
pub fn is_retryable_table_recreation_error(error: &BigQueryError) -> (r: bool)
    ensures
        r == (error.cause matches BigQueryCause::TonicStatusError(s) && recreation_lags(
            s.code,
            s.message@,
        )),
{
    match &error.cause {
        BigQueryCause::TonicStatusError(status) => {
            if status.code != GrpcCode::NotFound {
                return false;
            }
            let m = to_lower_ascii(status.message.as_str());
            contains_piece(m.as_str(), "is re-created")
        },
        _ => false,
    }
}

/// Whether a failed append can be sent again once BigQuery's metadata has caught up.
pub open spec fn lags(error: BigQueryError) -> bool {
    error.cause matches BigQueryCause::TonicStatusError(s) && (schema_lags(
        s.code,
        s.message@,
        status_codes(s.details@),
    ) || recreation_lags(s.code, s.message@))
}

/// Returns the text of a failure that can be sent again once the metadata has caught up.
pub fn retryable_storage_write_metadata_lag_detail(error: &BigQueryError) -> (r: Option<String>)
    ensures
        r is Some <==> lags(*error),
        r matches Some(t) ==> t@ == error.text@,
{
    if is_retryable_schema_propagation_error(error) || is_retryable_table_recreation_error(error) {
        Some(error.text.clone())
    } else {
        None
    }
}

/// The pipeline's error for a failure, with the storage error codes that came with it.
pub open spec fn coded_failure(error: BigQueryError, codes: Seq<Seq<char>>) -> ErrorModel {
    ErrorModel {
        kind: classified(error.cause).0,
        description: classified(error.cause).1,
        detail: if codes.len() > 0 {
            Some("storage_error_codes="@ + joined(codes, ","@))
        } else {
            None
        },
        source: Some(error.text@),
    }
}

/// The storage error codes that came with a failure.
pub open spec fn cause_codes(cause: BigQueryCause) -> Seq<Seq<char>> {
    match cause {
        BigQueryCause::TonicStatusError(s) => status_codes(s.details@),
        _ => Seq::empty(),
    }
}

/// The pipeline's error for a failure.
pub open spec fn failure_of(error: BigQueryError) -> ErrorModel {
    coded_failure(error, cause_codes(error.cause))
}

/// Makes the pipeline's error for a failure from the storage error codes that came with it.
pub fn failure_with_codes(err: &BigQueryError, codes: &Vec<String>) -> (r: EtlError)
    ensures
        r@ == coded_failure(*err, views(codes@)),
{
    let (kind, description) = classify(&err.cause);
    let error = if codes.len() > 0 {
        let list = join(codes.as_slice(), ",");
        EtlError::new(
            kind,
            description,
            cat2("storage_error_codes=", list.as_str()),
        )
    } else {
        EtlError::plain(kind, description)
    };
    error.with_source(err.text.clone())
}

/// Makes the pipeline's error for a failure.
pub fn bq_error_to_etl_error(err: &BigQueryError) -> (r: EtlError)
    ensures
        r@ == failure_of(*err),
{
    let codes = match &err.cause {
        BigQueryCause::TonicStatusError(status) => decode_storage_error_codes(status),
        _ => {
            let out: Vec<String> = Vec::new();
            proof {
                assert(views(out@) =~= Seq::<Seq<char>>::empty());
            }
            out
        },
    };
    failure_with_codes(err, &codes)
}

/// Why one row of an append request was refused.
#[derive(Debug)]
pub struct RowError {
    /// Place of the row in the request.
    pub index: i64,
    /// Number of the error code.
    pub code: i32,
    /// The server's message.
    pub message: String,
}

/// How the storage protocol's `RowError` prints itself for debugging.
pub uninterp spec fn row_error_text(index: int, code: int, message: Seq<char>) -> Seq<char>;

impl RowError {
    /// How the row error reads.
    pub open spec fn text(&self) -> Seq<char> {
        row_error_text(self.index as int, self.code as int, self.message@)
    }
}

/// The `Debug` form of BigQuery's `RowError`: it is a function of the three fields.
#[verifier::external_body]
fn debug_row_error(index: i64, code: i32, message: &str) -> (r: String)
    ensures
        r@ == row_error_text(index as int, code as int, message@),
{
    let error = gcp_bigquery_client::google::cloud::bigquery::storage::v1::RowError {
        index,
        code,
        message: message.to_owned(),
    };
    format!("{error:?}")
}

/// The pipeline's error for a refused row.
pub open spec fn refused_row(text: Seq<char>) -> ErrorModel {
    error_of(ErrorKind::DestinationError, "BigQuery row error"@, text)
}

/// Makes the pipeline's error for a refused row from how the refusal reads.
pub fn row_failure(text: String) -> (r: EtlError)
    ensures
        r@ == refused_row(text@),
{
    EtlError::new(ErrorKind::DestinationError, "BigQuery row error", text)
}

/// Makes the pipeline's error for a refused row.
pub fn row_error_to_etl_error(err: &RowError) -> (r: EtlError)
    ensures
        r@ == refused_row(err.text()),
{
    row_failure(debug_row_error(err.index, err.code, err.message.as_str()))
}

/// Makes the error for metadata that did not catch up in time; the worker may retry the batch.
pub fn storage_write_metadata_lag_timeout_error(detail: &str) -> (r: EtlError)
    ensures
        r@ == lag_timeout_error(detail@),
{
    let secs = decimal_of(STORAGE_WRITE_METADATA_LAG_RETRY_TIMEOUT_SECS as u128);
    EtlError::new(
        ErrorKind::DestinationAtomicBatchRetryable,
        "BigQuery storage write metadata lag timed out",
        cat4(
            "BigQuery did not accept the storage write metadata within ",
            secs.as_str(),
            " seconds after DDL: ",
            detail,
        ),
    )
}

/// The error for metadata that did not catch up in time.
pub open spec fn lag_timeout_error(detail: Seq<char>) -> ErrorModel {
    error_of(
        ErrorKind::DestinationAtomicBatchRetryable,
        "BigQuery storage write metadata lag timed out"@,
        "BigQuery did not accept the storage write metadata within "@ + decimal(
            STORAGE_WRITE_METADATA_LAG_RETRY_TIMEOUT_SECS as nat,
        ) + " seconds after DDL: "@ + detail,
    )
}

/// Whether a lookup says that its table or dataset is not there: only a 404 does.
pub open spec fn says_missing(cause: BigQueryCause) -> bool {
    cause matches BigQueryCause::ResponseError { code } && code == 404
}

/// What an error of the service counts as. Credentials that do not work are authentication errors, a
/// broken transport is an I/O error, and of the answers only the two about a table have kinds of their
/// own.
pub proof fn law_errors_are_classified(cause: BigQueryCause)
    ensures
        cause is InvalidServiceAccountKey || cause is InvalidServiceAccountAuthenticator
            || cause is InvalidInstalledFlowAuthenticator
            || cause is InvalidApplicationDefaultCredentialsAuthenticator
            || cause is InvalidAuthorizedUserAuthenticator || cause is AuthError
            || cause is YupAuthError || cause is NoToken <==> classified(cause).0
            == ErrorKind::DestinationAuthenticationError,
        cause is RequestError || cause is TonicTransportError <==> classified(cause).0
            == ErrorKind::DestinationIoError,
        cause is ResponseError <==> classified(cause).0 == ErrorKind::DestinationQueryFailed,
        cause is NoDataAvailable <==> classified(cause).0 == ErrorKind::InvalidState,
        cause is InvalidColumnIndex || cause is InvalidColumnName
            || cause is TonicInvalidMetadataValueError <==> classified(cause).0
            == ErrorKind::InvalidData,
        cause is InvalidColumnType <==> classified(cause).0 == ErrorKind::ConversionError,
        cause is SerializationError <==> classified(cause).0 == ErrorKind::SerializationError,
        (cause matches BigQueryCause::TonicStatusError(s) && s.code == GrpcCode::NotFound)
            <==> classified(cause).0 == ErrorKind::DestinationTableMissing,
        (cause matches BigQueryCause::TonicStatusError(s) && s.code == GrpcCode::AlreadyExists)
            <==> classified(cause).0 == ErrorKind::DestinationTableAlreadyExists,
        cause is SemaphorePermitError || cause is TokioTaskError || cause is ConnectionPoolError
            ==> classified(cause).0 == ErrorKind::DestinationError,
        cause matches BigQueryCause::TonicStatusError(s) ==> (s.code != GrpcCode::NotFound && s.code
            != GrpcCode::AlreadyExists ==> classified(cause).0 == ErrorKind::DestinationError),
{
}

/// What is said of an error of the service.
pub proof fn law_errors_are_described(cause: BigQueryCause)
    ensures
        cause is InvalidServiceAccountKey ==> classified(cause).1
            == "Invalid BigQuery service account key"@,
        cause is InvalidServiceAccountAuthenticator ==> classified(cause).1
            == "Invalid BigQuery service account authenticator"@,
        cause is InvalidInstalledFlowAuthenticator ==> classified(cause).1
            == "Invalid BigQuery installed flow authenticator"@,
        cause is InvalidApplicationDefaultCredentialsAuthenticator ==> classified(cause).1
            == "Invalid BigQuery application default credentials"@,
        cause is InvalidAuthorizedUserAuthenticator ==> classified(cause).1
            == "Invalid BigQuery authorized user authenticator"@,
        cause is AuthError ==> classified(cause).1 == "BigQuery authentication error"@,
        cause is YupAuthError ==> classified(cause).1 == "BigQuery OAuth authentication error"@,
        cause is NoToken ==> classified(cause).1 == "BigQuery authentication token missing"@,
        cause is RequestError ==> classified(cause).1 == "BigQuery request failed"@,
        cause is TonicTransportError ==> classified(cause).1 == "BigQuery transport error"@,
        cause is ResponseError ==> classified(cause).1 == "BigQuery response error"@,
        cause is NoDataAvailable ==> classified(cause).1
            == "BigQuery result set positioning error"@,
        cause is InvalidColumnIndex ==> classified(cause).1 == "BigQuery invalid column index"@,
        cause is InvalidColumnName ==> classified(cause).1 == "BigQuery invalid column name"@,
        cause is InvalidColumnType ==> classified(cause).1 == "BigQuery column type mismatch"@,
        cause is SerializationError ==> classified(cause).1
            == "BigQuery JSON serialization error"@,
        cause is TonicInvalidMetadataValueError ==> classified(cause).1
            == "BigQuery invalid metadata value"@,
        cause is SemaphorePermitError ==> classified(cause).1
            == "BigQuery semaphore permit error"@,
        cause is TokioTaskError ==> classified(cause).1 == "BigQuery task execution error"@,
        cause is ConnectionPoolError ==> classified(cause).1 == "BigQuery connection pool error"@,
{
}

/// What is said of an answer by its status code, and how metrics label it.
pub proof fn law_statuses_are_described(status: GrpcStatus)
    ensures
        ({
            let cause = BigQueryCause::TonicStatusError(status);
            let text = classified(cause).1;
            let name = label(cause);
            &&& status.code == GrpcCode::OkStatus ==> text == "BigQuery unexpected ok status"@
                && name == "ok"@
            &&& status.code == GrpcCode::Cancelled ==> text == "BigQuery operation cancelled"@
                && name == "cancelled"@
            &&& status.code == GrpcCode::Unknown ==> text == "BigQuery unknown error"@ && name
                == "unknown"@
            &&& status.code == GrpcCode::InvalidArgument ==> text == "BigQuery invalid argument"@
                && name == "invalid_argument"@
            &&& status.code == GrpcCode::DeadlineExceeded ==> text == "BigQuery deadline exceeded"@
                && name == "deadline_exceeded"@
            &&& status.code == GrpcCode::NotFound ==> text == "BigQuery entity not found"@ && name
                == "not_found"@
            &&& status.code == GrpcCode::AlreadyExists ==> text == "BigQuery entity already exists"@
                && name == "already_exists"@
            &&& status.code == GrpcCode::PermissionDenied ==> text == "BigQuery permission denied"@
                && name == "permission_denied"@
            &&& status.code == GrpcCode::ResourceExhausted ==> text == "BigQuery resource exhausted"@
                && name == "resource_exhausted"@
            &&& status.code == GrpcCode::FailedPrecondition ==> text
                == "BigQuery precondition failed"@ && name == "failed_precondition"@
            &&& status.code == GrpcCode::Aborted ==> text == "BigQuery operation aborted"@ && name
                == "aborted"@
            &&& status.code == GrpcCode::OutOfRange ==> text == "BigQuery offset out of range"@
                && name == "out_of_range"@
            &&& status.code == GrpcCode::Unimplemented ==> text
                == "BigQuery operation not supported"@ && name == "unimplemented"@
            &&& status.code == GrpcCode::Internal ==> text == "BigQuery internal error"@ && name
                == "internal"@
            &&& status.code == GrpcCode::Unavailable ==> text == "BigQuery unavailable"@ && name
                == "unavailable"@
            &&& status.code == GrpcCode::DataLoss ==> text == "BigQuery data loss"@ && name
                == "data_loss"@
            &&& status.code == GrpcCode::Unauthenticated ==> text
                == "BigQuery authentication failed"@ && name == "unauthenticated"@
        }),
        forall|cause: BigQueryCause|
            !(cause is TonicStatusError) ==> #[trigger] label(cause) == "other"@,
{
}

/// The names of the storage errors by their numbers; no other number has a name.
pub proof fn law_storage_errors_have_these_names(code: int)
    ensures
        storage_code_name(0) == Some("STORAGE_ERROR_CODE_UNSPECIFIED"@),
        storage_code_name(1) == Some("TABLE_NOT_FOUND"@),
        storage_code_name(2) == Some("STREAM_ALREADY_COMMITTED"@),
        storage_code_name(3) == Some("STREAM_NOT_FOUND"@),
        storage_code_name(4) == Some("INVALID_STREAM_TYPE"@),
        storage_code_name(5) == Some("INVALID_STREAM_STATE"@),
        storage_code_name(6) == Some("STREAM_FINALIZED"@),
        storage_code_name(7) == Some("SCHEMA_MISMATCH_EXTRA_FIELDS"@),
        storage_code_name(8) == Some("OFFSET_ALREADY_EXISTS"@),
        storage_code_name(9) == Some("OFFSET_OUT_OF_RANGE"@),
        storage_code_name(10) == Some("CMEK_NOT_PROVIDED"@),
        storage_code_name(11) == Some("INVALID_CMEK_PROVIDED"@),
        storage_code_name(12) == Some("CMEK_ENCRYPTION_ERROR"@),
        storage_code_name(13) == Some("KMS_SERVICE_ERROR"@),
        storage_code_name(14) == Some("KMS_PERMISSION_DENIED"@),
        code < 0 || code > 14 ==> storage_code_name(code) is None,
{
}

/// The name of a message is what stands behind the last slash of its address.
pub proof fn law_message_names_follow_the_last_slash(host: Seq<char>, name: Seq<char>)
    requires
        !name.contains('/'),
    ensures
        message_name(host.push('/') + name) == name,
        message_name(name) == name,
{
    let url = host.push('/') + name;
    law_last_place_is_the_last(url, '/');
    law_last_place_is_the_last(name, '/');
    lemma_last_place_range(url, '/');
    lemma_last_place_range(name, '/');
    let p = last_place(url, '/');
    assert(url[host.len() as int] == '/');
    assert(p >= host.len()) by {
        if p < host.len() {
            assert(url[host.len() as int] != '/');
        }
    }
    assert(p == host.len()) by {
        if p > host.len() {
            assert(url[p] == name[p - host.len() - 1]);
            assert(name.contains('/'));
        }
    }
    assert(url.skip(host.len() as int + 1) =~= name);
    let q = last_place(name, '/');
    assert(q == -1) by {
        if q >= 0 {
            assert(name[q] == '/');
            assert(name.contains('/'));
        }
    }
    assert(name.skip(0) =~= name);
}

/// The storage errors of an answer are those of its details, in order; details of other messages and
/// unknown numbers are passed over.
pub proof fn law_storage_errors_are_collected(
    details: Seq<(Seq<char>, Seq<u8>)>,
    detail: (Seq<char>, Seq<u8>),
)
    ensures
        detail_codes(Seq::empty()).len() == 0,
        detail_code(detail) matches Some(name) ==> detail_codes(details.push(detail))
            == detail_codes(details).push(name),
        detail_code(detail) is None ==> detail_codes(details.push(detail)) == detail_codes(details),
        detail_code(detail) is Some ==> message_name(detail.0)
            == BIGQUERY_STORAGE_ERROR_TYPE_NAME@,
{
    assert(details.push(detail).drop_last() =~= details);
}

/// A write is tried again for a schema that lags behind if and only if the argument was refused and the
/// storage errors name extra fields, or there are none and the message tells of them, in whatever case.
pub proof fn law_lagging_schemas_are_recognised(
    code: GrpcCode,
    message: Seq<char>,
    codes: Seq<Seq<char>>,
)
    ensures
        code != GrpcCode::InvalidArgument ==> !schema_lags(code, message, codes),
        code == GrpcCode::InvalidArgument && codes.contains("SCHEMA_MISMATCH_EXTRA_FIELDS"@)
            ==> schema_lags(code, message, codes),
        code == GrpcCode::InvalidArgument && codes.len() > 0 && !codes.contains(
            "SCHEMA_MISMATCH_EXTRA_FIELDS"@,
        ) ==> !schema_lags(code, message, codes),
        code == GrpcCode::InvalidArgument && codes.len() == 0 ==> (schema_lags(code, message, codes)
            <==> (has_piece(lower_ascii(message), "missing in the proto message"@) || has_piece(
            lower_ascii(message),
            "extra proto fields"@,
        ) || has_piece(lower_ascii(message), "schema_mismatch_extra_field"@) || has_piece(
            lower_ascii(message),
            "schema_mismatch_extra_fields"@,
        ))),
        recreation_lags(code, message) <==> code == GrpcCode::NotFound && has_piece(
            lower_ascii(message),
            "is re-created"@,
        ),
{
}

/// Only answers with a status can tell of a lag; a table is missing only by the answer 404.
pub proof fn law_only_statuses_tell_of_a_lag(error: BigQueryError)
    ensures
        lags(error) ==> error.cause is TonicStatusError,
        error.cause matches BigQueryCause::TonicStatusError(s) ==> (lags(error) <==> schema_lags(
            s.code,
            s.message@,
            status_codes(s.details@),
        ) || recreation_lags(s.code, s.message@)),
        says_missing(error.cause) <==> error.cause == (BigQueryCause::ResponseError { code: 404 }),
        failure_of(error).kind == classified(error.cause).0,
        failure_of(error).description == classified(error.cause).1,
        failure_of(error).source == Some(error.text@),
        cause_codes(error.cause).len() == 0 ==> failure_of(error).detail is None,
        cause_codes(error.cause).len() > 0 ==> failure_of(error).detail == Some(
            "storage_error_codes="@ + joined(cause_codes(error.cause), ","@),
        ),
{
}

/// Each connection carries up to a hundred requests at once, and all of them together up to a hundred
/// thousand.
pub proof fn law_requests_at_once_are_limited(connections: usize, r: usize)
    requires
        call_ensures(compute_max_inflight_requests, (connections,), r),
    ensures
        connections <= 1_000 ==> r == 100 * connections,
        connections > 1_000 ==> r == 100_000,
{
}

/// A refused row and a lag that does not end are errors of the destination; only the second can be
/// tried again, with the whole batch.
pub proof fn law_failed_rows_and_lags_are_errors(text: Seq<char>)
    ensures
        refused_row(text).kind == ErrorKind::DestinationError,
        refused_row(text).description == "BigQuery row error"@,
        refused_row(text).detail == Some(text),
        refused_row(text).source is None,
        lag_timeout_error(text).kind == ErrorKind::DestinationAtomicBatchRetryable,
        lag_timeout_error(text).description == "BigQuery storage write metadata lag timed out"@,
        lag_timeout_error(text).detail == Some(
            "BigQuery did not accept the storage write metadata within "@ + decimal(180)
                + " seconds after DDL: "@ + text,
        ),
        lag_timeout_error(text).source is None,
{
}

/// A failure keeps the text of its error as the source, and lists the storage codes if there are any.
pub proof fn law_failures_list_their_codes(error: BigQueryError, codes: Seq<Seq<char>>)
    ensures
        coded_failure(error, codes).source == Some(error.text@),
        coded_failure(error, codes).kind == classified(error.cause).0,
        coded_failure(error, codes).description == classified(error.cause).1,
        codes.len() == 0 <==> coded_failure(error, codes).detail is None,
        codes.len() > 0 ==> coded_failure(error, codes).detail == Some(
            "storage_error_codes="@ + joined(codes, ","@),
        ),
{
}

} // verus!
