//! The error a route answers with, and the failures of the store behind it.

use vstd::prelude::*;

verus! {

/// What went wrong, as the error envelope names it.
#[derive(Clone, Copy, Debug, PartialEq, Eq, Structural)]
pub enum ErrorKind {
    /// A malformed or unacceptable request.
    BadRequest,
    /// The caller may not do this.
    Forbidden,
    /// The caller is not known.
    NotAuthorized,
    /// No object of a generic kind by that name.
    NotFound,
    /// No warehouse by that name.
    NoSuchWarehouse,
    /// No namespace by that name.
    NoSuchNamespace,
    /// No table by that name.
    NoSuchTable,
    /// No view by that name.
    NoSuchView,
    /// No mirror by that name.
    NoSuchMirror,
    /// No scan plan by that id.
    NoSuchPlan,
    /// No scan-plan task by that id.
    NoSuchPlanTask,
    /// The object exists already.
    AlreadyExists,
    /// The request collides with work in flight.
    Conflict,
    /// A requirement or a race refused the commit; nothing was written.
    CommitFailed,
    /// Whether the commit landed is unknown.
    CommitStateUnknown,
    /// The namespace still holds something.
    NamespaceNotEmpty,
    /// A write to an asset that is read-only here.
    ForeignReadOnly,
    /// The request contradicts itself.
    Unprocessable,
    /// The operation is not offered.
    UnsupportedOperation,
    /// A service this route needs is not there.
    ServiceUnavailable,
    /// The server failed.
    InternalServer,
    /// A failure of the store, passed on as the store reported it.
    Store(StoreKind),
}

/// The classes of failure that the store reports.
#[derive(Clone, Copy, Debug, PartialEq, Eq, Structural)]
pub enum StoreKind {
    /// The row is not there.
    NotFound,
    /// The row collides with another.
    Conflict,
    /// The store refused the values.
    Validation,
    /// Anything else.
    Internal,
}

/// A failure that the store reports.
#[derive(Debug)]
pub struct StoreError {
    /// Its class.
    pub kind: StoreKind,
    /// Its message.
    pub message: String,
}

/// An error answer: what went wrong, and the message that says so.
#[derive(Debug)]
pub struct ApiError {
    /// What went wrong.
    pub kind: ErrorKind,
    /// The message.
    pub message: String,
}

/// The model of an error answer.
#[verifier::ext_equal]
pub struct ErrorView {
    /// What went wrong.
    pub kind: ErrorKind,
    /// The message.
    pub message: Seq<char>,
}

impl View for ApiError {
    type V = ErrorView;

    open spec fn view(&self) -> ErrorView {
        ErrorView { kind: self.kind, message: self.message@ }
    }
}

/// The error answer of a kind and a message.
pub open spec fn error_of(kind: ErrorKind, message: Seq<char>) -> ErrorView {
    ErrorView { kind, message }
}

/// The answer to a malformed or unacceptable request.
pub open spec fn bad_request(message: Seq<char>) -> ErrorView {
    error_of(ErrorKind::BadRequest, message)
}

/// The 404 of the management API.
pub open spec fn not_found(message: Seq<char>) -> ErrorView {
    error_of(ErrorKind::NotFound, message)
}

/// A store failure passed on unchanged.
pub open spec fn store_failure(error: StoreError) -> ErrorView {
    error_of(ErrorKind::Store(error.kind), error.message@)
}

/// A store failure as the management API answers it: a missing row is a 404, a
/// collision an already-exists, a refused value a bad request.
pub open spec fn management_view(error: StoreError) -> ErrorView {
    match error.kind {
        StoreKind::NotFound => not_found(error.message@),
        StoreKind::Conflict => error_of(ErrorKind::AlreadyExists, error.message@),
        StoreKind::Validation => bad_request(error.message@),
        StoreKind::Internal => store_failure(error),
    }
}

/// The management API answers a failure of the store with what it says: a
/// missing row is not found, a collision exists already, a refused value is a
/// bad request, and anything else stays the store's.
pub proof fn store_failures_are_told(error: StoreError)
    ensures
        management_view(error).message == error.message@,
        management_view(error).kind == (match error.kind {
            StoreKind::NotFound => ErrorKind::NotFound,
            StoreKind::Conflict => ErrorKind::AlreadyExists,
            StoreKind::Validation => ErrorKind::BadRequest,
            StoreKind::Internal => ErrorKind::Store(StoreKind::Internal),
        }),
        store_failure(error).kind == ErrorKind::Store(error.kind),
        store_failure(error).message == error.message@,
{
}

impl ApiError {
    /// An error answer of the given kind.
    pub fn new(kind: ErrorKind, message: &str) -> (r: ApiError)
        ensures
            r@ == error_of(kind, message@),
    {
        ApiError { kind, message: message.to_owned() }
    }

    /// The answer to a malformed or unacceptable request.
    pub fn bad_request(message: &str) -> (r: ApiError)
        ensures
            r@ == bad_request(message@),
    {
        ApiError { kind: ErrorKind::BadRequest, message: message.to_owned() }
    }

    /// The 404 of the management API.
    pub fn not_found(message: &str) -> (r: ApiError)
        ensures
            r@ == not_found(message@),
    {
        ApiError { kind: ErrorKind::NotFound, message: message.to_owned() }
    }

    /// A store failure passed on unchanged.
    pub fn from_store(error: &StoreError) -> (r: ApiError)
        ensures
            r@ == store_failure(*error),
    {
        ApiError { kind: ErrorKind::Store(error.kind), message: error.message.clone() }
    }

    /// The HTTP status of the answer; `None` for a store failure, whose status
    /// the store's own error type decides.
    pub fn status(&self) -> (r: Option<u16>)
        ensures
            r == status_of(self.kind),
    {
        match self.kind {
            ErrorKind::BadRequest => Some(400),
            ErrorKind::NotAuthorized => Some(401),
            ErrorKind::Forbidden => Some(403),
            ErrorKind::NotFound | ErrorKind::NoSuchWarehouse | ErrorKind::NoSuchNamespace
            | ErrorKind::NoSuchTable | ErrorKind::NoSuchView | ErrorKind::NoSuchMirror
            | ErrorKind::NoSuchPlan | ErrorKind::NoSuchPlanTask => Some(404),
            ErrorKind::UnsupportedOperation => Some(406),
            ErrorKind::AlreadyExists | ErrorKind::Conflict | ErrorKind::CommitFailed
            | ErrorKind::NamespaceNotEmpty | ErrorKind::ForeignReadOnly => Some(409),
            ErrorKind::Unprocessable => Some(422),
            ErrorKind::InternalServer | ErrorKind::CommitStateUnknown => Some(500),
            ErrorKind::ServiceUnavailable => Some(503),
            ErrorKind::Store(_) => None,
        }
    }
}

/// The HTTP status of each kind of error answer.
pub open spec fn status_of(kind: ErrorKind) -> Option<u16> {
    match kind {
        ErrorKind::BadRequest => Some(400u16),
        ErrorKind::NotAuthorized => Some(401u16),
        ErrorKind::Forbidden => Some(403u16),
        ErrorKind::NotFound => Some(404u16),
        ErrorKind::NoSuchWarehouse => Some(404u16),
        ErrorKind::NoSuchNamespace => Some(404u16),
        ErrorKind::NoSuchTable => Some(404u16),
        ErrorKind::NoSuchView => Some(404u16),
        ErrorKind::NoSuchMirror => Some(404u16),
        ErrorKind::NoSuchPlan => Some(404u16),
        ErrorKind::NoSuchPlanTask => Some(404u16),
        ErrorKind::UnsupportedOperation => Some(406u16),
        ErrorKind::AlreadyExists => Some(409u16),
        ErrorKind::Conflict => Some(409u16),
        ErrorKind::CommitFailed => Some(409u16),
        ErrorKind::NamespaceNotEmpty => Some(409u16),
        ErrorKind::ForeignReadOnly => Some(409u16),
        ErrorKind::Unprocessable => Some(422u16),
        ErrorKind::InternalServer => Some(500u16),
        ErrorKind::CommitStateUnknown => Some(500u16),
        ErrorKind::ServiceUnavailable => Some(503u16),
        ErrorKind::Store(_) => None,
    }
}

/// Maps a store failure onto the management API's envelope.
pub fn management_error(error: &StoreError) -> (r: ApiError)
    ensures
        r@ == management_view(*error),
{
    match error.kind {
        StoreKind::NotFound => ApiError::not_found(error.message.as_str()),
        StoreKind::Conflict => ApiError::new(ErrorKind::AlreadyExists, error.message.as_str()),
        StoreKind::Validation => ApiError::bad_request(error.message.as_str()),
        StoreKind::Internal => ApiError::from_store(error),
    }
}

/// The model of a result: its value as it is, its error by its view.
pub open spec fn outcome<T>(r: Result<T, ApiError>) -> Result<T, ErrorView> {
    match r {
        Ok(v) => Ok(v),
        Err(e) => Err(e@),
    }
}

/// The model of a result: its value and its error each by its view.
pub open spec fn viewed<T: View>(r: Result<T, ApiError>) -> Result<T::V, ErrorView> {
    match r {
        Ok(v) => Ok(v@),
        Err(e) => Err(e@),
    }
}

/// Whether the result is the given error answer.
pub open spec fn fails_with<T>(r: Result<T, ApiError>, e: ErrorView) -> bool {
    r is Err && r->Err_0@ == e
}

} // verus!
