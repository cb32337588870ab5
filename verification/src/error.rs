//! Errors that the pipeline's workers act on.
use vstd::prelude::*;

verus! {

/// What a worker is to make of an error.
#[derive(Clone, Copy, Debug, PartialEq, Eq, Structural)]
pub enum ErrorKind {
    /// A task of the apply worker panicked.
    ApplyWorkerPanic,
    /// The configuration cannot be used.
    ConfigError,
    /// A value could not be converted.
    ConversionError,
    /// The stored table schema contradicts the destination.
    CorruptedTableSchema,
    /// The batch can be sent again as a whole.
    DestinationAtomicBatchRetryable,
    /// The destination did not accept the credentials.
    DestinationAuthenticationError,
    /// The destination could not be reached.
    DestinationConnectionFailed,
    /// The destination failed in some other way.
    DestinationError,
    /// Reading from or writing to the destination failed.
    DestinationIoError,
    /// A query or a DDL statement failed.
    DestinationQueryFailed,
    /// The table is already there.
    DestinationTableAlreadyExists,
    /// The table is not there.
    DestinationTableMissing,
    /// The table name cannot be used.
    DestinationTableNameInvalid,
    /// The destination took too long.
    DestinationTimeout,
    /// The data cannot be represented.
    InvalidData,
    /// An invariant of the pipeline is broken.
    InvalidState,
    /// A value could not be serialized.
    SerializationError,
    /// The source table cannot be replicated as it is.
    SourceSchemaError,
    /// Nothing more is known.
    Unknown,
}

/// An error of the pipeline.
#[derive(Debug)]
pub struct EtlError {
    /// What a worker is to make of it.
    pub kind: ErrorKind,
    /// A fixed sentence that says what failed.
    pub description: &'static str,
    /// The particulars, where there are any.
    pub detail: Option<String>,
    /// How the failure reads that led to this one, where there is one.
    pub source: Option<String>,
}

/// Result of an operation of the pipeline.
pub type EtlResult<T> = Result<T, EtlError>;

/// What an [`EtlError`] says.
pub struct ErrorModel {
    /// See [`EtlError::kind`].
    pub kind: ErrorKind,
    /// See [`EtlError::description`].
    pub description: Seq<char>,
    /// See [`EtlError::detail`].
    pub detail: Option<Seq<char>>,
    /// See [`EtlError::source`].
    pub source: Option<Seq<char>>,
}

/// An error with its particulars.
pub open spec fn error_of(
    kind: ErrorKind,
    description: Seq<char>,
    detail: Seq<char>,
) -> ErrorModel {
    ErrorModel { kind, description, detail: Some(detail), source: None }
}

impl View for EtlError {
    type V = ErrorModel;

    open spec fn view(&self) -> ErrorModel {
        ErrorModel {
            kind: self.kind,
            description: self.description@,
            detail: match self.detail {
                Some(d) => Some(d@),
                None => None,
            },
            source: match self.source {
                Some(s) => Some(s@),
                None => None,
            },
        }
    }
}

impl EtlError {
    /// Creates an error with particulars.
    pub fn new(kind: ErrorKind, description: &'static str, detail: String) -> (r: Self)
        ensures
            r@ == error_of(kind, description@, detail@),
    {
        EtlError { kind, description, detail: Some(detail), source: None }
    }

    /// Creates an error without particulars.
    pub fn plain(kind: ErrorKind, description: &'static str) -> (r: Self)
        ensures
            r@ == (ErrorModel { kind, description: description@, detail: None, source: None }),
    {
        EtlError { kind, description, detail: None, source: None }
    }

    /// Names the failure that led to this error.
    pub fn with_source(self, source: String) -> (r: Self)
        ensures
            r@ == (ErrorModel { source: Some(source@), ..self@ }),
    {
        EtlError {
            kind: self.kind,
            description: self.description,
            detail: self.detail,
            source: Some(source),
        }
    }

    /// Returns what a worker is to make of the error.
    pub fn kind(&self) -> (r: ErrorKind)
        ensures
            r == self@.kind,
    {
        self.kind
    }

    /// Returns the description.
    pub fn description(&self) -> (r: Option<&str>)
        ensures
            r matches Some(d) && d@ == self@.description,
    {
        Some(self.description)
    }

    /// Returns the particulars, if there are any.
    pub fn detail(&self) -> (r: Option<&str>)
        ensures
            r is Some <==> self@.detail is Some,
            r matches Some(d) ==> self@.detail == Some(d@),
    {
        match &self.detail {
            Some(d) => Some(d.as_str()),
            None => None,
        }
    }

    /// Returns how the failure reads that led to this error, if there is one.
    pub fn source(&self) -> (r: Option<&str>)
        ensures
            r is Some <==> self@.source is Some,
            r matches Some(s) ==> self@.source == Some(s@),
    {
        match &self.source {
            Some(s) => Some(s.as_str()),
            None => None,
        }
    }
}

/// Whether a result is the given text or the given error.
pub open spec fn text_result(r: EtlResult<String>, s: Result<Seq<char>, ErrorModel>) -> bool {
    match (r, s) {
        (Ok(a), Ok(b)) => a@ == b,
        (Err(a), Err(b)) => a@ == b,
        _ => false,
    }
}

/// All texts, or the first error.
pub open spec fn collected<E>(results: Seq<Result<Seq<char>, E>>) -> Result<Seq<Seq<char>>, E>
    decreases results.len(),
{
    if results.len() == 0 {
        Ok(Seq::empty())
    } else {
        match collected(results.drop_last()) {
            Err(e) => Err(e),
            Ok(texts) => match results.last() {
                Err(e) => Err(e),
                Ok(t) => Ok(texts.push(t)),
            },
        }
    }
}

/// An error among the first results is the error of all of them.
pub proof fn lemma_collected_error<E>(results: Seq<Result<Seq<char>, E>>, n: int)
    requires
        0 <= n <= results.len(),
        collected(results.take(n)) is Err,
    ensures
        collected(results) == collected(results.take(n)),
    decreases results.len() - n,
{
    if n < results.len() {
        assert(results.take(n + 1).drop_last() =~= results.take(n));
        lemma_collected_error(results, n + 1);
    } else {
        assert(results.take(n) =~= results);
    }
}

/// Results are collected if and only if none of them is an error; the first error decides, and texts
/// keep their order.
pub proof fn law_first_error_decides<E>(results: Seq<Result<Seq<char>, E>>)
    ensures
        collected(results) is Ok <==> forall|i: int|
            0 <= i < results.len() ==> (#[trigger] results[i]) is Ok,
        collected(results) matches Ok(texts) ==> texts.len() == results.len() && forall|i: int|
            0 <= i < results.len() ==> results[i] == Ok::<Seq<char>, E>(#[trigger] texts[i]),
        collected(results) matches Err(e) ==> exists|i: int|
            0 <= i < results.len() && #[trigger] results[i] == Err::<Seq<char>, E>(e) && forall|
                j: int,
            |
                0 <= j < i ==> (#[trigger] results[j]) is Ok,
    decreases results.len(),
{
    if results.len() > 0 {
        let rest = results.drop_last();
        law_first_error_decides(rest);
        match collected(rest) {
            Err(e) => {
                let i = choose|i: int|
                    0 <= i < rest.len() && #[trigger] rest[i] == Err::<Seq<char>, E>(e) && forall|
                        j: int,
                    |
                        0 <= j < i ==> (#[trigger] rest[j]) is Ok;
                assert(results[i] == rest[i]);
                assert forall|j: int| 0 <= j < i implies (#[trigger] results[j]) is Ok by {
                    assert(results[j] == rest[j]);
                }
            },
            Ok(texts) => {
                assert forall|i: int| 0 <= i < rest.len() implies (#[trigger] results[i]) is Ok
                    && results[i] == Ok::<Seq<char>, E>(texts[i]) by {
                    assert(rest[i] == results[i]);
                }
                let last = results.len() - 1;
                assert(results[last] == results.last());
            },
        }
    }
}

/// An error with particulars has its kind, its description and the particulars, and no source. A result
/// is a text if and only if the text is what it should be.
pub proof fn law_errors_have_particulars(
    kind: ErrorKind,
    description: Seq<char>,
    detail: Seq<char>,
    r: EtlResult<String>,
    text: Seq<char>,
    e: ErrorModel,
)
    ensures
        error_of(kind, description, detail).kind == kind,
        error_of(kind, description, detail).description == description,
        error_of(kind, description, detail).detail == Some(detail),
        error_of(kind, description, detail).source is None,
        text_result(r, Ok(text)) <==> r is Ok && r->Ok_0@ == text,
        text_result(r, Err(e)) <==> r is Err && r->Err_0@ == e,
{
}

/// An error has the kind and the texts that it was made with; a source is added without changing the
/// rest.
pub proof fn law_errors_have_what_they_were_made_with(
    kind: ErrorKind,
    description: &'static str,
    source: String,
    plain: EtlError,
    with: EtlError,
    k: ErrorKind,
    d: Option<&str>,
    t: Option<&str>,
    s: Option<&str>,
    none: Option<&str>,
)
    requires
        call_ensures(EtlError::plain, (kind, description), plain),
        call_ensures(EtlError::with_source, (plain, source), with),
        call_ensures(EtlError::kind, (&with,), k),
        call_ensures(EtlError::description, (&with,), d),
        call_ensures(EtlError::detail, (&with,), t),
        call_ensures(EtlError::source, (&with,), s),
        call_ensures(EtlError::source, (&plain,), none),
    ensures
        k == kind,
        d matches Some(text) && text@ == description@,
        t is None,
        s matches Some(text) && text@ == source@,
        none is None,
{
}

} // verus!
