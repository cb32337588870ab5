//! Append attempts: what the answers amount to, and when to try again.
use vstd::prelude::*;

use crate::bigquery::append::{
    bq_error_to_etl_error, failure_of, lag_timeout_error, lags, refused_row,
    retryable_storage_write_metadata_lag_detail, row_error_to_etl_error,
    storage_write_metadata_lag_timeout_error, BigQueryError, RowError,
    STORAGE_WRITE_METADATA_LAG_MAX_RETRY_DELAY_SECS, STORAGE_WRITE_METADATA_LAG_RETRY_DELAY_SECS,
    STORAGE_WRITE_METADATA_LAG_RETRY_TIMEOUT_SECS,
};
use crate::error::{ErrorKind, ErrorModel, EtlError};
use crate::text::{cat4, cat6, decimal, decimal_of};
use crate::time::{Duration, NANOS_PER_SEC};

verus! {

/// An accepted append request.
#[derive(Debug)]
pub struct AppendResponse {
    /// Encoded size of the answer.
    pub encoded_len: usize,
    /// Rows that were refused.
    pub row_errors: Vec<RowError>,
}

/// Answers to the requests of one batch.
#[derive(Debug)]
pub struct BatchAppendResult {
    /// Place of the batch among the requests.
    pub batch_index: usize,
    /// The answers in order.
    pub responses: Vec<Result<AppendResponse, BigQueryError>>,
    /// Bytes sent for the batch.
    pub bytes_sent: usize,
}

/// What the answers to one batch amount to.
#[derive(Debug)]
pub enum BatchProcessResult {
    /// All rows were taken.
    Success { bytes_sent: usize, bytes_received: usize },
    /// The batch is to be sent again once metadata has caught up.
    RetryableStorageWriteMetadataLag { detail: String },
    /// Rows were refused.
    RowErrors { errors: Vec<RowError> },
    /// A request failed.
    RequestError { error: BigQueryError },
}

/// The first failed request among the answers.
pub open spec fn first_failure(responses: Seq<Result<AppendResponse, BigQueryError>>) -> Option<
    BigQueryError,
>
    decreases responses.len(),
{
    if responses.len() == 0 {
        None
    } else {
        match first_failure(responses.drop_last()) {
            Some(e) => Some(e),
            None => match responses.last() {
                Err(e) => Some(e),
                Ok(_) => None,
            },
        }
    }
}

/// Bytes of all accepted answers.
pub open spec fn received(responses: Seq<Result<AppendResponse, BigQueryError>>) -> nat
    decreases responses.len(),
{
    if responses.len() == 0 {
        0
    } else {
        received(responses.drop_last()) + match responses.last() {
            Ok(a) => a.encoded_len as nat,
            Err(_) => 0,
        }
    }
}

/// All refused rows, in order.
pub open spec fn refused(responses: Seq<Result<AppendResponse, BigQueryError>>) -> Seq<RowError>
    decreases responses.len(),
{
    if responses.len() == 0 {
        Seq::empty()
    } else {
        refused(responses.drop_last()) + match responses.last() {
            Ok(a) => a.row_errors@,
            Err(_) => Seq::empty(),
        }
    }
}

proof fn lemma_received_prefix(responses: Seq<Result<AppendResponse, BigQueryError>>, n: int)
    requires
        0 <= n <= responses.len(),
    ensures
        received(responses.take(n)) <= received(responses),
    decreases responses.len() - n,
{
    if n < responses.len() {
        assert(responses.take(n + 1).drop_last() =~= responses.take(n));
        lemma_received_prefix(responses, n + 1);
    } else {
        assert(responses.take(n) =~= responses);
    }
}

proof fn lemma_first_failure_stays(
    responses: Seq<Result<AppendResponse, BigQueryError>>,
    n: int,
)
    requires
        0 <= n <= responses.len(),
        first_failure(responses.take(n)) is Some,
    ensures
        first_failure(responses) == first_failure(responses.take(n)),
    decreases responses.len() - n,
{
    if n < responses.len() {
        assert(responses.take(n + 1).drop_last() =~= responses.take(n));
        lemma_first_failure_stays(responses, n + 1);
    } else {
        assert(responses.take(n) =~= responses);
    }
}

/// What the answers to a batch amount to: the first failed request decides, then refused rows.
pub open spec fn batch_outcome(result: BatchAppendResult, out: BatchProcessResult) -> bool {
    let responses = result.responses@;
    match first_failure(responses) {
        Some(e) => if lags(e) {
            out matches BatchProcessResult::RetryableStorageWriteMetadataLag { detail }
                && detail@ == e.text@
        } else {
            out == (BatchProcessResult::RequestError { error: e })
        },
        None => if refused(responses).len() > 0 {
            out matches BatchProcessResult::RowErrors { errors } && errors@ == refused(responses)
        } else {
            out matches BatchProcessResult::Success { bytes_sent, bytes_received } && bytes_sent
                == result.bytes_sent && bytes_received == received(responses)
        },
    }
}

/// Says what a failed request amounts to.
pub fn batch_process_result_from_request_error(error: BigQueryError) -> (r: BatchProcessResult)
    ensures
        lags(error) ==> (r matches BatchProcessResult::RetryableStorageWriteMetadataLag { detail }
            && detail@ == error.text@),
        !lags(error) ==> r == (BatchProcessResult::RequestError { error }),
{
    match retryable_storage_write_metadata_lag_detail(&error) {
        Some(detail) => BatchProcessResult::RetryableStorageWriteMetadataLag { detail },
        None => BatchProcessResult::RequestError { error },
    }
}

/// Says what the answers to a batch amount to.
pub fn process_single_batch_append_result(result: BatchAppendResult) -> (r: BatchProcessResult)
    requires
        received(result.responses@) <= usize::MAX,
    ensures
        batch_outcome(result, r),
{
    let bytes_sent: usize = result.bytes_sent;
    let ghost all = result.responses@;
    let mut total: usize = 0;
    let mut errors: Vec<RowError> = Vec::new();
    for response in it: result.responses
        invariant
            it.seq() == all,
            all == result.responses@,
            received(all) <= usize::MAX,
            first_failure(all.take(it.index())) is None,
            total == received(all.take(it.index())),
            errors@ == refused(all.take(it.index())),
    {
        proof {
            let n = it.index();
            assert(all.take(n + 1).drop_last() =~= all.take(n));
            assert(all.take(n + 1).last() == all[n]);
            lemma_received_prefix(all, n + 1);
        }
        match response {
            Ok(answer) => {
                total = total + answer.encoded_len;
                let mut row_errors = answer.row_errors;
                errors.append(&mut row_errors);
            },
            Err(error) => {
                proof {
                    lemma_first_failure_stays(all, it.index() + 1);
                }
                return batch_process_result_from_request_error(error);
            },
        }
    }
    proof {
        assert(all.take(all.len() as int) =~= all);
    }
    if errors.len() > 0 {
        BatchProcessResult::RowErrors { errors }
    } else {
        BatchProcessResult::Success { bytes_sent, bytes_received: total }
    }
}

/// A request that is to be sent again, with the reason.
#[derive(Debug)]
pub struct RetryableAppendRequest<T> {
    /// The request.
    pub request: T,
    /// Why it was not taken.
    pub detail: String,
}

/// What the answers to all batches amount to.
#[derive(Debug)]
pub enum AppendProcessingResult<T> {
    /// Everything was taken.
    Success { bytes_sent: usize, bytes_received: usize },
    /// Some requests are to be sent again.
    Retry {
        bytes_sent: usize,
        bytes_received: usize,
        pending_requests: Vec<RetryableAppendRequest<T>>,
    },
    /// Something failed for good; there is at least one error.
    Error(Vec<EtlError>),
}

/// What the pipeline's errors say.
pub open spec fn error_views(errors: Seq<EtlError>) -> Seq<ErrorModel> {
    Seq::new(errors.len(), |i: int| errors[i]@)
}

/// The pipeline's errors for refused rows.
pub open spec fn row_failures(errors: Seq<RowError>) -> Seq<ErrorModel> {
    Seq::new(errors.len(), |i: int| refused_row(errors[i].text()))
}

/// The lasting errors among the answers to a batch.
pub open spec fn batch_errors(result: BatchAppendResult) -> Seq<ErrorModel> {
    match first_failure(result.responses@) {
        Some(e) => if lags(e) {
            Seq::empty()
        } else {
            seq![failure_of(e)]
        },
        None => row_failures(refused(result.responses@)),
    }
}

/// Whether a batch was taken.
pub open spec fn batch_taken(result: BatchAppendResult) -> bool {
    first_failure(result.responses@) is None && refused(result.responses@).len() == 0
}

/// Why a batch is to be sent again, if it is.
pub open spec fn batch_lag(result: BatchAppendResult) -> Option<Seq<char>> {
    match first_failure(result.responses@) {
        Some(e) => if lags(e) {
            Some(e.text@)
        } else {
            None
        },
        None => None,
    }
}

/// The lasting errors of all batches, in order.
pub open spec fn all_errors(results: Seq<BatchAppendResult>) -> Seq<ErrorModel>
    decreases results.len(),
{
    if results.len() == 0 {
        Seq::empty()
    } else {
        all_errors(results.drop_last()) + batch_errors(results.last())
    }
}

/// Bytes sent for the batches that were taken.
pub open spec fn sent_total(results: Seq<BatchAppendResult>) -> nat
    decreases results.len(),
{
    if results.len() == 0 {
        0
    } else {
        sent_total(results.drop_last()) + if batch_taken(results.last()) {
            results.last().bytes_sent as nat
        } else {
            0
        }
    }
}

/// Bytes received for the batches that were taken.
pub open spec fn received_total(results: Seq<BatchAppendResult>) -> nat
    decreases results.len(),
{
    if results.len() == 0 {
        0
    } else {
        received_total(results.drop_last()) + if batch_taken(results.last()) {
            received(results.last().responses@)
        } else {
            0
        }
    }
}

/// Why request `i` is to be sent again: the last reason that came for it.
pub open spec fn lag_of(results: Seq<BatchAppendResult>, i: int) -> Option<Seq<char>>
    decreases results.len(),
{
    if results.len() == 0 {
        None
    } else if results.last().batch_index == i && batch_lag(results.last()) is Some {
        batch_lag(results.last())
    } else {
        lag_of(results.drop_last(), i)
    }
}

/// The requests to send again, in order, each with its reason.
pub open spec fn pending<T>(requests: Seq<T>, results: Seq<BatchAppendResult>) -> Seq<
    (T, Seq<char>),
>
    decreases requests.len(),
{
    if requests.len() == 0 {
        Seq::empty()
    } else {
        let head = pending(requests.drop_last(), results);
        match lag_of(results, requests.len() - 1) {
            Some(detail) => head.push((requests.last(), detail)),
            None => head,
        }
    }
}

/// What requests that are to be sent again hold.
pub open spec fn pending_views<T>(requests: Seq<RetryableAppendRequest<T>>) -> Seq<
    (T, Seq<char>),
> {
    Seq::new(requests.len(), |i: int| (requests[i].request, requests[i].detail@))
}

/// Whether the sums of an attempt fit and every answer is for one of the requests.
pub open spec fn answers_fit(requests: nat, results: Seq<BatchAppendResult>) -> bool {
    &&& sent_total(results) <= usize::MAX
    &&& received_total(results) <= usize::MAX
    &&& forall|i: int|
        0 <= i < results.len() ==> (#[trigger] results[i]).batch_index < requests && received(
            results[i].responses@,
        ) <= usize::MAX
}

/// What an attempt amounts to: lasting errors first, then requests to send again.
pub open spec fn attempt_outcome<T>(
    requests: Seq<T>,
    results: Seq<BatchAppendResult>,
    out: AppendProcessingResult<T>,
) -> bool {
    if all_errors(results).len() > 0 {
        out matches AppendProcessingResult::Error(errors) && error_views(errors@) == all_errors(
            results,
        )
    } else if pending(requests, results).len() > 0 {
        out matches AppendProcessingResult::Retry { bytes_sent, bytes_received, pending_requests }
            && bytes_sent == sent_total(results) && bytes_received == received_total(results)
            && pending_views(pending_requests@) == pending(requests, results)
    } else {
        out matches AppendProcessingResult::Success { bytes_sent, bytes_received } && bytes_sent
            == sent_total(results) && bytes_received == received_total(results)
    }
}

proof fn lemma_totals_prefix(results: Seq<BatchAppendResult>, n: int)
    requires
        0 <= n <= results.len(),
    ensures
        sent_total(results.take(n)) <= sent_total(results),
        received_total(results.take(n)) <= received_total(results),
    decreases results.len() - n,
{
    if n < results.len() {
        assert(results.take(n + 1).drop_last() =~= results.take(n));
        lemma_totals_prefix(results, n + 1);
    } else {
        assert(results.take(n) =~= results);
    }
}

fn push_row_failures(errors: &mut Vec<EtlError>, rows: Vec<RowError>)
    ensures
        error_views(final(errors)@) == error_views(old(errors)@) + row_failures(rows@),
{
    let ghost before = error_views(errors@);
    let ghost all = rows@;
    proof {
        assert(before + row_failures(all.take(0)) =~= before);
    }
    for row in it: rows
        invariant
            it.seq() == all,
            error_views(errors@) == before + row_failures(all.take(it.index())),
    {
        let ghost had = errors@;
        let e = row_error_to_etl_error(&row);
        errors.push(e);
        proof {
            assert(error_views(errors@) =~= error_views(had).push(e@));
            assert(row_failures(all.take(it.index() + 1)) =~= row_failures(
                all.take(it.index()),
            ).push(refused_row(row.text())));
        }
    }
    proof {
        assert(all.take(all.len() as int) =~= all);
    }
}

/// Says what an attempt to append batches amounts to.
pub fn append_table_batches_once<T>(
    append_requests: Vec<T>,
    results: Vec<BatchAppendResult>,
) -> (r: AppendProcessingResult<T>)
    requires
        answers_fit(append_requests@.len(), results@),
    ensures
        attempt_outcome(append_requests@, results@, r),
{
    let n: usize = append_requests.len();
    let ghost all = results@;
    let ghost requests = append_requests@;
    let mut sent: usize = 0;
    let mut got: usize = 0;
    let mut errors: Vec<EtlError> = Vec::new();
    let mut details: Vec<Option<String>> = Vec::new();
    let mut k: usize = 0;
    while k < n
        invariant
            k <= n,
            details@.len() == k,
            forall|i: int| 0 <= i < k ==> #[trigger] details@[i] is None,
        decreases n - k,
    {
        details.push(None);
        k = k + 1;
    }
    proof {
        assert(error_views(errors@) =~= all_errors(all.take(0)));
    }
    for result in it: results
        invariant
            it.seq() == all,
            answers_fit(n as nat, all),
            n == requests.len(),
            error_views(errors@) == all_errors(all.take(it.index())),
            sent == sent_total(all.take(it.index())),
            got == received_total(all.take(it.index())),
            details@.len() == n,
            forall|i: int|
                0 <= i < n ==> match (#[trigger] details@[i]) {
                    Some(d) => lag_of(all.take(it.index()), i) == Some(d@),
                    None => lag_of(all.take(it.index()), i) is None,
                },
    {
        let ghost at = it.index();
        let ghost had = errors@;
        let ghost before = details@;
        proof {
            assert(all.take(at + 1).drop_last() =~= all.take(at));
            assert(all.take(at + 1).last() == all[at]);
            lemma_totals_prefix(all, at + 1);
            assert(all[at].batch_index < n);
        }
        let index: usize = result.batch_index;
        match process_single_batch_append_result(result) {
            BatchProcessResult::Success { bytes_sent, bytes_received } => {
                sent = sent + bytes_sent;
                got = got + bytes_received;
                proof {
                    assert(batch_errors(all[at]) =~= Seq::<ErrorModel>::empty());
                    assert(all_errors(all.take(at + 1)) =~= all_errors(all.take(at)));
                }
            },
            BatchProcessResult::RetryableStorageWriteMetadataLag { detail } => {
                details.set(index, Some(detail));
                proof {
                    assert(all_errors(all.take(at + 1)) =~= all_errors(all.take(at)));
                }
            },
            BatchProcessResult::RowErrors { errors: rows } => {
                push_row_failures(&mut errors, rows);
            },
            BatchProcessResult::RequestError { error } => {
                let e = bq_error_to_etl_error(&error);
                errors.push(e);
                proof {
                    assert(error_views(errors@) =~= error_views(had) + seq![e@]);
                }
            },
        }
    }
    proof {
        assert(all.take(all.len() as int) =~= all);
    }
    if errors.len() > 0 {
        return AppendProcessingResult::Error(errors);
    }
    let mut waiting: Vec<RetryableAppendRequest<T>> = Vec::new();
    let mut i: usize = 0;
    proof {
        assert(pending_views(waiting@) =~= pending(requests.take(0), all));
    }
    for request in it: append_requests
        invariant
            it.seq() == requests,
            n == requests.len(),
            i == it.index(),
            details@.len() == n,
            forall|j: int|
                0 <= j < n ==> match (#[trigger] details@[j]) {
                    Some(d) => lag_of(all, j) == Some(d@),
                    None => lag_of(all, j) is None,
                },
            pending_views(waiting@) == pending(requests.take(i as int), all),
    {
        let ghost had = waiting@;
        proof {
            assert(requests.take(i + 1).drop_last() =~= requests.take(i as int));
            assert(requests.take(i + 1).last() == request);
        }
        if let Some(detail) = &details[i] {
            let detail = detail.clone();
            waiting.push(RetryableAppendRequest { request, detail });
            proof {
                assert(pending_views(waiting@) =~= pending_views(had).push((request, detail@)));
            }
        }
        i = i + 1;
    }
    proof {
        assert(requests.take(requests.len() as int) =~= requests);
    }
    if waiting.len() > 0 {
        AppendProcessingResult::Retry {
            bytes_sent: sent,
            bytes_received: got,
            pending_requests: waiting,
        }
    } else {
        AppendProcessingResult::Success { bytes_sent: sent, bytes_received: got }
    }
}

/// Says what an attempt amounts to that failed as a whole.
pub fn append_processing_result_from_request_error<T>(
    error: BigQueryError,
    append_requests: Vec<T>,
) -> (r: AppendProcessingResult<T>)
    ensures
        lags(error) ==> (r matches AppendProcessingResult::Retry {
            bytes_sent,
            bytes_received,
            pending_requests,
        } && bytes_sent == 0 && bytes_received == 0 && pending_views(pending_requests@)
            == Seq::new(
            append_requests@.len(),
            |i: int| (append_requests@[i], error.text@),
        )),
        !lags(error) ==> (r matches AppendProcessingResult::Error(errors) && error_views(errors@)
            == seq![failure_of(error)]),
{
    match retryable_storage_write_metadata_lag_detail(&error) {
        Some(detail) => {
            let ghost requests = append_requests@;
            let mut waiting: Vec<RetryableAppendRequest<T>> = Vec::new();
            for request in it: append_requests
                invariant
                    it.seq() == requests,
                    detail@ == error.text@,
                    pending_views(waiting@) == Seq::new(
                        it.index() as nat,
                        |i: int| (requests[i], error.text@),
                    ),
            {
                let ghost had = waiting@;
                let copy = detail.clone();
                waiting.push(RetryableAppendRequest { request, detail: copy });
                proof {
                    assert(pending_views(waiting@) =~= pending_views(had).push((request, copy@)));
                    assert(request == requests[it.index()]);
                    assert(pending_views(waiting@) =~= Seq::new(
                        (it.index() + 1) as nat,
                        |i: int| (requests[i], error.text@),
                    ));
                }
            }
            AppendProcessingResult::Retry {
                bytes_sent: 0,
                bytes_received: 0,
                pending_requests: waiting,
            }
        },
        None => {
            let e = bq_error_to_etl_error(&error);
            let errors = vec![e];
            proof {
                assert(error_views(errors@) =~= seq![e@]);
            }
            AppendProcessingResult::Error(errors)
        },
    }
}

/// How many of the reasons differ from the first.
pub open spec fn other_details(details: Seq<Seq<char>>, first: Seq<char>) -> nat
    decreases details.len(),
{
    if details.len() == 0 {
        0
    } else {
        other_details(details.drop_last(), first) + if details.last() != first {
            1nat
        } else {
            0nat
        }
    }
}

/// One line about the requests that are to be sent again.
pub open spec fn lag_summary(details: Seq<Seq<char>>) -> Seq<char> {
    if details.len() == 0 {
        "storage write metadata lag error"@
    } else if details.len() == 1 {
        details[0]
    } else {
        let others = other_details(details, details[0]);
        if others == 0 {
            details[0] + " ("@ + decimal(details.len()) + " batches)"@
        } else {
            details[0] + " ("@ + decimal(details.len()) + " batches, "@ + decimal(others)
                + " additional retry details)"@
        }
    }
}

/// The reasons for which requests are to be sent again.
pub open spec fn pending_details<T>(requests: Seq<RetryableAppendRequest<T>>) -> Seq<Seq<char>> {
    Seq::new(requests.len(), |i: int| requests[i].detail@)
}

/// Writes one line about the requests that are to be sent again.
pub fn format_retryable_storage_write_metadata_lag_requests<T>(
    requests: &Vec<RetryableAppendRequest<T>>,
) -> (r: String)
    ensures
        r@ == lag_summary(pending_details(requests@)),
{
    let ghost details = pending_details(requests@);
    if requests.len() == 0 {
        return "storage write metadata lag error".to_owned();
    }
    if requests.len() == 1 {
        return requests[0].detail.clone();
    }
    let mut others: usize = 0;
    let mut i: usize = 0;
    while i < requests.len()
        invariant
            i <= requests@.len(),
            requests@.len() > 0,
            details == pending_details(requests@),
            others <= i,
            others == other_details(details.take(i as int), details[0]),
        decreases requests@.len() - i,
    {
        proof {
            assert(details.take(i + 1).drop_last() =~= details.take(i as int));
            assert(details.take(i + 1).last() == requests@[i as int].detail@);
        }
        if requests[i].detail != requests[0].detail {
            others = others + 1;
        }
        i = i + 1;
    }
    proof {
        assert(details.take(details.len() as int) =~= details);
    }
    let count = decimal_of(requests.len() as u128);
    if others == 0 {
        cat4(requests[0].detail.as_str(), " (", count.as_str(), " batches)")
    } else {
        let extra = decimal_of(others as u128);
        cat6(
            requests[0].detail.as_str(),
            " (",
            count.as_str(),
            " batches, ",
            extra.as_str(),
            " additional retry details)",
        )
    }
}

/// What to do after an attempt.
#[derive(Debug)]
pub enum AppendStep<T> {
    /// All is written.
    Done { bytes_sent: usize, bytes_received: usize },
    /// The append failed; there is at least one error.
    Failed(Vec<EtlError>),
    /// Wait, then send these requests.
    Wait { delay: Duration, requests: Vec<T> },
}

/// An append that may take several attempts.
#[derive(Debug)]
pub struct AppendRun {
    /// Bytes sent so far.
    pub bytes_sent: usize,
    /// Bytes received so far.
    pub bytes_received: usize,
    /// How long to wait before the next attempt.
    pub retry_delay: Duration,
}

/// Longest time for which an append is retried.
pub open spec fn retry_timeout() -> int {
    STORAGE_WRITE_METADATA_LAG_RETRY_TIMEOUT_SECS * NANOS_PER_SEC
}

/// Longest wait between attempts.
pub open spec fn max_retry_delay() -> int {
    STORAGE_WRITE_METADATA_LAG_MAX_RETRY_DELAY_SECS * NANOS_PER_SEC
}

impl AppendRun {
    /// Whether the wait lies between the first and the longest.
    pub open spec fn wf(&self) -> bool {
        STORAGE_WRITE_METADATA_LAG_RETRY_DELAY_SECS * NANOS_PER_SEC <= self.retry_delay.nanos
            <= max_retry_delay()
    }

    /// Starts an append.
    pub fn new() -> (r: Self)
        ensures
            r.wf(),
            r.bytes_sent == 0,
            r.bytes_received == 0,
            r.retry_delay.nanos == STORAGE_WRITE_METADATA_LAG_RETRY_DELAY_SECS * NANOS_PER_SEC,
    {
        AppendRun {
            bytes_sent: 0,
            bytes_received: 0,
            retry_delay: Duration::from_secs(STORAGE_WRITE_METADATA_LAG_RETRY_DELAY_SECS),
        }
    }

    /// Takes in what an attempt amounts to, `elapsed` after the start, and says what to do.
    pub fn on_result<T>(
        &mut self,
        result: AppendProcessingResult<T>,
        elapsed: Duration,
    ) -> (r: AppendStep<T>)
        requires
            old(self).wf(),
            match result {
                AppendProcessingResult::Success { bytes_sent, bytes_received } => old(
                    self,
                ).bytes_sent + bytes_sent <= usize::MAX && old(self).bytes_received
                    + bytes_received <= usize::MAX,
                AppendProcessingResult::Retry {
                    bytes_sent,
                    bytes_received,
                    pending_requests,
                } => old(self).bytes_sent + bytes_sent <= usize::MAX && old(self).bytes_received
                    + bytes_received <= usize::MAX,
                AppendProcessingResult::Error(errors) => true,
            },
        ensures
            final(self).wf(),
            match result {
                AppendProcessingResult::Error(errors) => r == AppendStep::<T>::Failed(errors)
                    && *final(self) == *old(self),
                AppendProcessingResult::Success { bytes_sent, bytes_received } => {
                    &&& final(self).bytes_sent == old(self).bytes_sent + bytes_sent
                    &&& final(self).bytes_received == old(self).bytes_received + bytes_received
                    &&& final(self).retry_delay == old(self).retry_delay
                    &&& r == (AppendStep::<T>::Done {
                        bytes_sent: final(self).bytes_sent,
                        bytes_received: final(self).bytes_received,
                    })
                },
                AppendProcessingResult::Retry {
                    bytes_sent,
                    bytes_received,
                    pending_requests,
                } => {
                    &&& final(self).bytes_sent == old(self).bytes_sent + bytes_sent
                    &&& final(self).bytes_received == old(self).bytes_received + bytes_received
                    &&& if pending_requests@.len() == 0 {
                        &&& final(self).retry_delay == old(self).retry_delay
                        &&& r == (AppendStep::<T>::Done {
                            bytes_sent: final(self).bytes_sent,
                            bytes_received: final(self).bytes_received,
                        })
                    } else if elapsed.nanos >= retry_timeout() {
                        &&& final(self).retry_delay == old(self).retry_delay
                        &&& r matches AppendStep::Failed(errors) && error_views(errors@)
                            == seq![lag_timeout_error(
                            lag_summary(pending_details(pending_requests@)),
                        )]
                    } else {
                        &&& r matches AppendStep::Wait { delay, requests } && requests@
                            == Seq::new(
                            pending_requests@.len(),
                            |i: int| pending_requests@[i].request,
                        ) && delay.nanos == if old(self).retry_delay.nanos <= retry_timeout()
                            - elapsed.nanos {
                            old(self).retry_delay.nanos as int
                        } else {
                            retry_timeout() - elapsed.nanos
                        }
                        &&& final(self).retry_delay.nanos == if 2 * old(self).retry_delay.nanos
                            <= max_retry_delay() {
                            2 * old(self).retry_delay.nanos
                        } else {
                            max_retry_delay()
                        }
                    }
                },
            },
            r matches AppendStep::Wait { delay, requests } ==> 0 < delay.nanos && elapsed.nanos
                + delay.nanos <= retry_timeout() && requests@.len() > 0,
    {
        match result {
            AppendProcessingResult::Error(errors) => AppendStep::Failed(errors),
            AppendProcessingResult::Success { bytes_sent, bytes_received } => {
                self.bytes_sent = self.bytes_sent + bytes_sent;
                self.bytes_received = self.bytes_received + bytes_received;
                AppendStep::Done {
                    bytes_sent: self.bytes_sent,
                    bytes_received: self.bytes_received,
                }
            },
            AppendProcessingResult::Retry { bytes_sent, bytes_received, pending_requests } => {
                self.bytes_sent = self.bytes_sent + bytes_sent;
                self.bytes_received = self.bytes_received + bytes_received;
                if pending_requests.len() == 0 {
                    return AppendStep::Done {
                        bytes_sent: self.bytes_sent,
                        bytes_received: self.bytes_received,
                    };
                }
                let timeout = Duration::from_secs(STORAGE_WRITE_METADATA_LAG_RETRY_TIMEOUT_SECS);
                let remaining = timeout.saturating_sub(&elapsed);
                if remaining.nanos == 0 {
                    let summary = format_retryable_storage_write_metadata_lag_requests(
                        &pending_requests,
                    );
                    let e = storage_write_metadata_lag_timeout_error(summary.as_str());
                    let errors = vec![e];
                    proof {
                        assert(error_views(errors@) =~= seq![e@]);
                    }
                    return AppendStep::Failed(errors);
                }
                let delay = self.retry_delay.shorter(&remaining);
                let limit = Duration::from_secs(STORAGE_WRITE_METADATA_LAG_MAX_RETRY_DELAY_SECS);
                self.retry_delay = self.retry_delay.doubled_up_to(&limit);
                let ghost waiting = pending_requests@;
                let mut requests: Vec<T> = Vec::new();
                for p in it: pending_requests
                    invariant
                        it.seq() == waiting,
                        requests@ == Seq::new(it.index() as nat, |i: int| waiting[i].request),
                {
                    requests.push(p.request);
                    proof {
                        assert(requests@ =~= Seq::new(
                            (it.index() + 1) as nat,
                            |i: int| waiting[i].request,
                        ));
                    }
                }
                AppendStep::Wait { delay, requests }
            },
        }
    }
}

/// Every request that is sent again was answered with a lag, and carries the reason of the last
/// such answer.
pub proof fn law_only_lagging_requests_are_sent_again<T>(
    requests: Seq<T>,
    results: Seq<BatchAppendResult>,
    k: int,
)
    requires
        0 <= k < pending(requests, results).len(),
    ensures
        exists|i: int|
            0 <= i < requests.len() && #[trigger] requests[i] == pending(requests, results)[k].0
                && lag_of(results, i) == Some(pending(requests, results)[k].1),
    decreases requests.len(),
{
    let head = pending(requests.drop_last(), results);
    if k < head.len() {
        law_only_lagging_requests_are_sent_again(requests.drop_last(), results, k);
        let i = choose|i: int|
            0 <= i < requests.drop_last().len() && #[trigger] requests.drop_last()[i]
                == head[k].0 && lag_of(results, i) == Some(head[k].1);
        assert(requests[i] == head[k].0);
    } else {
        assert(requests[requests.len() - 1] == pending(requests, results)[k].0);
    }
}

/// The first failed answer of a batch decides; without one the batch did not fail.
pub proof fn law_first_failed_answer_decides(
    responses: Seq<Result<AppendResponse, BigQueryError>>,
)
    ensures
        first_failure(responses) is None <==> forall|i: int|
            0 <= i < responses.len() ==> (#[trigger] responses[i]) is Ok,
        first_failure(responses) matches Some(e) ==> exists|i: int|
            0 <= i < responses.len() && #[trigger] responses[i] == Err::<
                AppendResponse,
                BigQueryError,
            >(e) && forall|j: int| 0 <= j < i ==> (#[trigger] responses[j]) is Ok,
    decreases responses.len(),
{
    if responses.len() > 0 {
        let rest = responses.drop_last();
        law_first_failed_answer_decides(rest);
        match first_failure(rest) {
            Some(e) => {
                let i = choose|i: int|
                    0 <= i < rest.len() && #[trigger] rest[i] == Err::<
                        AppendResponse,
                        BigQueryError,
                    >(e) && forall|j: int| 0 <= j < i ==> (#[trigger] rest[j]) is Ok;
                assert(responses[i] == rest[i]);
                assert forall|j: int| 0 <= j < i implies (#[trigger] responses[j]) is Ok by {
                    assert(responses[j] == rest[j]);
                }
            },
            None => {
                assert forall|j: int| 0 <= j < rest.len() implies (
                #[trigger] responses[j]) is Ok by {
                    assert(responses[j] == rest[j]);
                }
                assert(responses[responses.len() - 1] == responses.last());
            },
        }
    }
}

/// Received bytes and refused rows are those of all answers together, in order.
pub proof fn law_answers_add_up(
    responses: Seq<Result<AppendResponse, BigQueryError>>,
    next: Result<AppendResponse, BigQueryError>,
)
    ensures
        received(Seq::empty()) == 0,
        refused(Seq::empty()).len() == 0,
        next matches Ok(a) ==> received(responses.push(next)) == received(responses) + a.encoded_len
            && refused(responses.push(next)) == refused(responses) + a.row_errors@,
        next is Err ==> received(responses.push(next)) == received(responses) && refused(
            responses.push(next),
        ) == refused(responses),
{
    assert(responses.push(next).drop_last() =~= responses);
    assert(refused(responses) + Seq::<RowError>::empty() =~= refused(responses));
}

/// A batch is taken if and only if every answer is good and no row was refused. It is sent again if and
/// only if its first failed answer tells of a lag. In every other case it has at least one error, so
/// exactly one of the three holds.
pub proof fn law_batches_are_taken_sent_again_or_failed(result: BatchAppendResult)
    ensures
        batch_taken(result) <==> (forall|i: int|
            0 <= i < result.responses@.len() ==> (#[trigger] result.responses@[i]) is Ok) && refused(
            result.responses@,
        ).len() == 0,
        batch_taken(result) ==> batch_errors(result).len() == 0 && batch_lag(result) is None,
        batch_lag(result) is Some ==> batch_errors(result).len() == 0 && !batch_taken(result),
        !batch_taken(result) && batch_lag(result) is None ==> batch_errors(result).len() > 0,
        batch_lag(result) matches Some(detail) ==> (first_failure(result.responses@) matches Some(e)
            && lags(e) && detail == e.text@),
        first_failure(result.responses@) matches Some(e) ==> (!lags(e) ==> batch_errors(result)
            == seq![failure_of(e)]),
        first_failure(result.responses@) is None ==> batch_errors(result).len() == refused(
            result.responses@,
        ).len() && forall|i: int|
            0 <= i < batch_errors(result).len() ==> (#[trigger] batch_errors(result)[i]).kind
                == ErrorKind::DestinationError && batch_errors(result)[i].description
                == "BigQuery row error"@,
{
    law_first_failed_answer_decides(result.responses@);
}

/// The errors and the byte counts of an attempt are those of its batches together; only batches that
/// were taken count.
pub proof fn law_attempts_add_up(results: Seq<BatchAppendResult>, next: BatchAppendResult)
    ensures
        all_errors(Seq::empty()).len() == 0,
        sent_total(Seq::empty()) == 0,
        received_total(Seq::empty()) == 0,
        all_errors(results.push(next)) == all_errors(results) + batch_errors(next),
        batch_taken(next) ==> sent_total(results.push(next)) == sent_total(results)
            + next.bytes_sent && received_total(results.push(next)) == received_total(results)
            + received(next.responses@),
        !batch_taken(next) ==> sent_total(results.push(next)) == sent_total(results)
            && received_total(results.push(next)) == received_total(results),
{
    assert(results.push(next).drop_last() =~= results);
}

/// A request waits if and only if some answer to it tells of a lag.
pub proof fn law_lagging_requests_wait(results: Seq<BatchAppendResult>, i: int)
    ensures
        lag_of(results, i) is Some <==> exists|k: int|
            0 <= k < results.len() && (#[trigger] results[k]).batch_index == i && batch_lag(
                results[k],
            ) is Some,
        lag_of(results, i) matches Some(detail) ==> exists|k: int|
            0 <= k < results.len() && (#[trigger] results[k]).batch_index == i && batch_lag(
                results[k],
            ) == Some(detail),
    decreases results.len(),
{
    if results.len() > 0 {
        let rest = results.drop_last();
        law_lagging_requests_wait(rest, i);
        let last = results.len() - 1;
        assert(results[last] == results.last());
        if results.last().batch_index == i && batch_lag(results.last()) is Some {
            assert(batch_lag(results[last]) is Some);
        } else {
            if lag_of(rest, i) is Some {
                let detail = lag_of(rest, i)->Some_0;
                let k = choose|k: int|
                    0 <= k < rest.len() && (#[trigger] rest[k]).batch_index == i && batch_lag(
                        rest[k],
                    ) == Some(detail);
                assert(results[k] == rest[k]);
            }
            if exists|k: int|
                0 <= k < results.len() && (#[trigger] results[k]).batch_index == i && batch_lag(
                    results[k],
                ) is Some {
                let k = choose|k: int|
                    0 <= k < results.len() && (#[trigger] results[k]).batch_index == i && batch_lag(
                        results[k],
                    ) is Some;
                assert(k != last);
                assert(rest[k] == results[k]);
            }
        }
    }
}

/// The requests that are sent again are the waiting ones, each once and in their order.
pub proof fn law_waiting_requests_are_sent_again<T>(
    requests: Seq<T>,
    request: T,
    results: Seq<BatchAppendResult>,
)
    ensures
        pending(Seq::<T>::empty(), results).len() == 0,
        lag_of(results, requests.len() as int) matches Some(detail) ==> pending(
            requests.push(request),
            results,
        ) == pending(requests, results).push((request, detail)),
        lag_of(results, requests.len() as int) is None ==> pending(requests.push(request), results)
            == pending(requests, results),
{
    assert(requests.push(request).drop_last() =~= requests);
}

/// An attempt fails if any batch has an error, is repeated if none has and some request waits, and
/// succeeds otherwise.
pub proof fn law_attempts_end_in_one_way<T>(
    requests: Seq<T>,
    results: Seq<BatchAppendResult>,
    out: AppendProcessingResult<T>,
)
    requires
        attempt_outcome(requests, results, out),
    ensures
        out is Error <==> all_errors(results).len() > 0,
        out is Retry <==> all_errors(results).len() == 0 && pending(requests, results).len() > 0,
        out is Success <==> all_errors(results).len() == 0 && pending(requests, results).len() == 0,
        out matches AppendProcessingResult::Success { bytes_sent, bytes_received } ==> bytes_sent
            == sent_total(results) && bytes_received == received_total(results),
        out matches AppendProcessingResult::Error(errors) ==> error_views(errors@) == all_errors(
            results,
        ),
{
}

/// Details that differ from the first are counted.
pub proof fn law_other_details_are_counted(
    details: Seq<Seq<char>>,
    detail: Seq<char>,
    first: Seq<char>,
)
    ensures
        other_details(Seq::empty(), first) == 0,
        detail == first ==> other_details(details.push(detail), first) == other_details(
            details,
            first,
        ),
        detail != first ==> other_details(details.push(detail), first) == other_details(
            details,
            first,
        ) + 1,
{
    assert(details.push(detail).drop_last() =~= details);
}

/// A summary of lags starts with the first detail and says how many batches lag, and how many of them
/// tell something else.
pub proof fn law_lags_are_summarised(details: Seq<Seq<char>>, detail: Seq<char>)
    ensures
        lag_summary(Seq::empty()) == "storage write metadata lag error"@,
        lag_summary(seq![detail]) == detail,
        details.len() > 1 && other_details(details, details[0]) == 0 ==> lag_summary(details)
            == details[0] + " ("@ + decimal(details.len()) + " batches)"@,
        details.len() > 1 && other_details(details, details[0]) > 0 ==> lag_summary(details)
            == details[0] + " ("@ + decimal(details.len()) + " batches, "@ + decimal(
            other_details(details, details[0]),
        ) + " additional retry details)"@,
{
}

/// Lagging requests are tried again for three minutes, with delays of one to fifteen seconds.
pub proof fn law_retries_are_bounded(run: AppendRun)
    ensures
        retry_timeout() == 180_000_000_000,
        max_retry_delay() == 15_000_000_000,
        run.wf() <==> 1_000_000_000 <= run.retry_delay.nanos <= 15_000_000_000,
{
}

/// What is made of a batch's answers: its first failed one, as a lag or as an error; or its refused rows;
/// or what was sent and received.
pub proof fn law_outcomes_of_a_batch(result: BatchAppendResult, out: BatchProcessResult)
    requires
        batch_outcome(result, out),
    ensures
        out is Success <==> batch_taken(result),
        out is RetryableStorageWriteMetadataLag <==> batch_lag(result) is Some,
        out is RequestError || out is RowErrors <==> batch_errors(result).len() > 0,
        out matches BatchProcessResult::Success { bytes_sent, bytes_received } ==> bytes_sent
            == result.bytes_sent && bytes_received == received(result.responses@),
        out matches BatchProcessResult::RetryableStorageWriteMetadataLag { detail } ==> batch_lag(
            result,
        ) == Some(detail@),
        out matches BatchProcessResult::RowErrors { errors } ==> errors@ == refused(
            result.responses@,
        ),
        out matches BatchProcessResult::RequestError { error } ==> first_failure(result.responses@)
            == Some(error),
{
}

/// A lag is waited out with all its requests; any other error fails the whole batch.
pub proof fn law_lags_are_waited_out<T>(
    error: BigQueryError,
    requests: Vec<T>,
    batch: BatchProcessResult,
    append: AppendProcessingResult<T>,
)
    requires
        call_ensures(batch_process_result_from_request_error, (error,), batch),
        call_ensures(append_processing_result_from_request_error::<T>, (error, requests), append),
    ensures
        lags(error) <==> batch is RetryableStorageWriteMetadataLag,
        lags(error) <==> append is Retry,
        !lags(error) ==> batch is RequestError && append is Error,
        append matches AppendProcessingResult::Retry { bytes_sent, bytes_received, pending_requests }
            ==> pending_requests@.len() == requests@.len() && bytes_sent == 0 && bytes_received
            == 0,
{
    match append {
        AppendProcessingResult::Retry { bytes_sent, bytes_received, pending_requests } => {
            assert(pending_views(pending_requests@).len() == pending_requests@.len());
        },
        _ => {},
    }
}

/// What was sent and received is added up; a retry waits until the time is over, with the requests that
/// are still pending, and each wait is twice the one before, up to the limit.
pub proof fn law_appends_are_waited_for<T>(
    run: &mut AppendRun,
    result: AppendProcessingResult<T>,
    elapsed: Duration,
    r: AppendStep<T>,
)
    requires
        call_ensures(AppendRun::on_result::<T>, (run, result, elapsed), r),
    ensures
        result is Error ==> r is Failed && *final(run) == *old(run),
        result matches AppendProcessingResult::Success { bytes_sent, bytes_received } ==> (
        r matches AppendStep::Done { bytes_sent: s, bytes_received: t } && s == old(run).bytes_sent
            + bytes_sent && t == old(run).bytes_received + bytes_received),
        result matches AppendProcessingResult::Retry {
            bytes_sent,
            bytes_received,
            pending_requests,
        } ==> {
            &&& final(run).bytes_sent == old(run).bytes_sent + bytes_sent
            &&& final(run).bytes_received == old(run).bytes_received + bytes_received
            &&& pending_requests@.len() == 0 <==> r is Done
            &&& pending_requests@.len() > 0 ==> (r is Failed <==> elapsed.nanos >= 180_000_000_000)
            &&& r matches AppendStep::Wait { delay, requests } ==> requests@.len()
                == pending_requests@.len() && delay.nanos <= old(run).retry_delay.nanos
                && elapsed.nanos + delay.nanos <= 180_000_000_000
            &&& r is Wait ==> final(run).retry_delay.nanos <= 2 * old(run).retry_delay.nanos
        },
{
}

/// Pending requests keep their request and its reason, and refused rows are errors, each in order.
pub proof fn law_pending_requests_are_viewed_in_order<T>(
    requests: Seq<RetryableAppendRequest<T>>,
    errors: Seq<RowError>,
)
    ensures
        pending_views(requests).len() == requests.len(),
        pending_details(requests).len() == requests.len(),
        forall|i: int|
            0 <= i < requests.len() ==> #[trigger] pending_views(requests)[i] == (
                requests[i].request,
                requests[i].detail@,
            ),
        forall|i: int|
            0 <= i < requests.len() ==> #[trigger] pending_details(requests)[i]
                == requests[i].detail@,
        row_failures(errors).len() == errors.len(),
        forall|i: int|
            0 <= i < errors.len() ==> #[trigger] row_failures(errors)[i] == refused_row(
                errors[i].text(),
            ),
{
}

} // verus!
