//! The error taxonomy: the single error currency of the core, the total
//! mapping onto coarse service codes, and the folding of the messaging
//! layer's delivery outcomes into the taxonomy.
use vstd::prelude::*;
use vstd::string::*;

verus! {

/// Coarse error code for cross-service reporting.
#[derive(Clone, Copy, Debug, PartialEq, Eq, Structural, Hash)]
pub enum ServiceErrorCode {
    Internal,
    NotFound,
    Timeout,
    Unavailable,
    Unimplemented,
}

/// Failure reported by the metastore, the durable source of truth for
/// indexes and sources. The metastore classifies its own failures; this
/// core wraps them and inherits that classification unchanged.
#[derive(Clone, Debug, PartialEq, Eq)]
pub struct MetastoreError {
    pub code: ServiceErrorCode,
    pub message: String,
}

impl MetastoreError {
    /// The metastore's own classification of this failure.
    pub fn error_code(&self) -> (code: ServiceErrorCode)
        ensures
            code == self.code,
    {
        self.code
    }
}

/// The single error currency of the core: every failure path of every
/// operation produces exactly one of these.
#[derive(Clone, Debug, PartialEq, Eq)]
pub enum IndexingError {
    Internal(String),
    Metastore(MetastoreError),
    Timeout(String),
    Unavailable(String),
    Unimplemented(String),
}

/// Alias used by every fallible operation of the core.
pub type IndexingResult<T> = Result<T, IndexingError>;

/// The total code mapping: each variant names exactly one code, and the
/// `Metastore` variant delegates to the wrapped error's own code.
pub open spec fn spec_error_code(e: IndexingError) -> ServiceErrorCode {
    match e {
        IndexingError::Internal(_) => ServiceErrorCode::Internal,
        IndexingError::Metastore(m) => m.code,
        IndexingError::Timeout(_) => ServiceErrorCode::Timeout,
        IndexingError::Unavailable(_) => ServiceErrorCode::Unavailable,
        IndexingError::Unimplemented(_) => ServiceErrorCode::Unimplemented,
    }
}

/// Human-readable form of each variant.
pub open spec fn spec_error_message(e: IndexingError) -> Seq<char> {
    match e {
        IndexingError::Internal(m) => "internal error: "@ + m@,
        IndexingError::Metastore(m) => "metastore error: "@ + m.message@,
        IndexingError::Timeout(m) => "request timed out: "@ + m@,
        IndexingError::Unavailable(m) => "service unavailable: "@ + m@,
        IndexingError::Unimplemented(m) => m@,
    }
}

/// Outcome of asking the messaging runtime to deliver one request: a
/// reply carrying the application's own error, a delivery failure, or a
/// failure inside the target while it processed the request. Adding an
/// outcome here requires adding a case to the fold below — never a
/// silent default.
#[derive(Clone, Debug, PartialEq, Eq)]
pub enum AskError<E> {
    ErrorReply(E),
    MessageNotDelivered,
    ProcessMessageError,
}

impl IndexingError {
    /// The code a cross-service report carries for this error.
    pub fn error_code(&self) -> (code: ServiceErrorCode)
        ensures
            code == spec_error_code(*self),
    {
        match self {
            IndexingError::Internal(_) => ServiceErrorCode::Internal,
            IndexingError::Metastore(metastore_error) => metastore_error.error_code(),
            IndexingError::Timeout(_) => ServiceErrorCode::Timeout,
            IndexingError::Unavailable(_) => ServiceErrorCode::Unavailable,
            IndexingError::Unimplemented(_) => ServiceErrorCode::Unimplemented,
        }
    }

    /// Stable name of the service this taxonomy belongs to.
    pub fn service_name() -> (name: &'static str)
        ensures
            name@ == "indexing"@,
    {
        "indexing"
    }

    pub fn new_internal(message: String) -> (e: Self)
        ensures
            e == IndexingError::Internal(message),
    {
        IndexingError::Internal(message)
    }

    pub fn new_timeout(message: String) -> (e: Self)
        ensures
            e == IndexingError::Timeout(message),
    {
        IndexingError::Timeout(message)
    }

    pub fn new_unavailable(message: String) -> (e: Self)
        ensures
            e == IndexingError::Unavailable(message),
    {
        IndexingError::Unavailable(message)
    }

    pub fn new_unimplemented(message: String) -> (e: Self)
        ensures
            e == IndexingError::Unimplemented(message),
    {
        IndexingError::Unimplemented(message)
    }

    /// Folds a delivery outcome into the taxonomy, exhaustively: an
    /// application-level reply passes through unchanged, a message that
    /// could not be delivered is `Unavailable`, a failure inside the
    /// target while processing is `Internal`.
    pub fn from_ask_error(error: AskError<IndexingError>) -> (e: IndexingError)
        ensures
            match error {
                AskError::ErrorReply(reply) => e == reply,
                AskError::MessageNotDelivered => e matches IndexingError::Unavailable(m) && m@
                    == "request could not be delivered to actor"@,
                AskError::ProcessMessageError => e matches IndexingError::Internal(m) && m@
                    == "an error occurred while processing the request"@,
            },
    {
        match error {
            AskError::ErrorReply(reply) => reply,
            AskError::MessageNotDelivered => IndexingError::new_unavailable(
                String::from_str("request could not be delivered to actor"),
            ),
            AskError::ProcessMessageError => IndexingError::new_internal(
                String::from_str("an error occurred while processing the request"),
            ),
        }
    }

    /// The display form of this error.
    pub fn message_string(&self) -> (r: String)
        ensures
            r@ == spec_error_message(*self),
    {
        match self {
            IndexingError::Internal(m) => {
                let mut out = String::from_str("internal error: ");
                out.append(m.as_str());
                out
            },
            IndexingError::Metastore(m) => {
                let mut out = String::from_str("metastore error: ");
                out.append(m.message.as_str());
                out
            },
            IndexingError::Timeout(m) => {
                let mut out = String::from_str("request timed out: ");
                out.append(m.as_str());
                out
            },
            IndexingError::Unavailable(m) => {
                let mut out = String::from_str("service unavailable: ");
                out.append(m.as_str());
                out
            },
            IndexingError::Unimplemented(m) => m.clone(),
        }
    }
}

} // verus!
