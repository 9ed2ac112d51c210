//! Failures of a state read, and their classification.
//!
//! Every failure is either the caller's (`Client`: a consequence of the
//! request as given, safe to report in detail) or the node's (`Internal`:
//! possibly transient, reported to the caller without detail). The mapping
//! from engine faults to the two kinds is fixed here and used at every
//! boundary.

use vstd::prelude::*;
use vstd::std_specs::convert::FromSpec;
use crate::response::ConversionError;
use crate::types::{ObjectID, ObjectRef, SequenceNumber, TransactionDigest};

verus! {

/// A task that did not run to completion, as the runtime reports it.
#[verifier::external_type_specification]
#[verifier::external_body]
pub struct ExJoinError(tokio::task::JoinError);

/// A fault of no particular kind, with its context.
#[verifier::external_type_specification]
#[verifier::external_body]
pub struct ExAnyhowError(anyhow::Error);

/// A fault in what the caller asked for.
#[derive(Debug, PartialEq, Eq)]
pub enum UserInputError {
    /// No such object, or no such version of it.
    ObjectNotFound { object_id: ObjectID, version: Option<SequenceNumber> },
    /// The object was deleted at this reference.
    ObjectDeleted { object_ref: ObjectRef },
    /// The version asked for lies beyond the latest one.
    ObjectSequenceNumberTooHigh {
        object_id: ObjectID,
        asked_version: SequenceNumber,
        latest_version: SequenceNumber,
    },
    /// The request cannot be served as stated.
    Unsupported(String),
}

/// A fault reported by the storage and execution engine.
#[derive(Debug, PartialEq, Eq)]
#[allow(inconsistent_fields)]
pub enum MgoError {
    /// The node keeps no index to answer from.
    IndexStoreNotAvailable,
    /// No transaction with this digest.
    TransactionNotFound { digest: TransactionDigest },
    /// The request uses a feature that is switched off.
    UnsupportedFeatureError { error: String },
    /// The request itself is at fault.
    UserInputError { error: UserInputError },
    /// The message version is not served under the current protocol version.
    WrongMessageVersion { error: String },
    /// The store failed.
    StorageError(String),
    /// Execution failed.
    ExecutionError(String),
    /// Any other fault of the engine.
    Unknown(String),
}

/// The two kinds of failure.
#[derive(Clone, Copy, Debug, PartialEq, Eq, Structural)]
pub enum ErrorKind {
    /// Caused by the request; the same request fails the same way again.
    Client,
    /// Caused by the node or its environment.
    Internal,
}

/// Failures that are the node's own.
#[derive(Debug)]
pub enum StateReadInternalError {
    MgoError(MgoError),
    JoinError(tokio::task::JoinError),
    Anyhow(anyhow::Error),
}

/// Failures that follow from the request.
#[derive(Debug)]
pub enum StateReadClientError {
    MgoError(MgoError),
    UserInputError(UserInputError),
}

/// The error of every state read: one of the two kinds, with its cause.
#[derive(Debug)]
pub enum StateReadError {
    Internal(StateReadInternalError),
    Client(StateReadClientError),
}

/// Result of a state read.
pub type StateReadResult<T> = Result<T, StateReadError>;

impl MgoError {
    /// Whether the fault is one of the five that a request causes: a missing
    /// index, an unknown transaction, a disabled feature, bad input, or a
    /// message version that the protocol does not serve.
    pub open spec fn is_client_kind(&self) -> bool {
        self is IndexStoreNotAvailable || self is TransactionNotFound
            || self is UnsupportedFeatureError || self is UserInputError
            || self is WrongMessageVersion
    }

    /// The kind this engine fault is reported as.
    pub open spec fn kind_spec(&self) -> ErrorKind {
        if self.is_client_kind() {
            ErrorKind::Client
        } else {
            ErrorKind::Internal
        }
    }

    /// Classifies the fault.
    pub fn kind(&self) -> (kind: ErrorKind)
        ensures
            kind == self.kind_spec(),
    {
        match self {
            MgoError::IndexStoreNotAvailable
            | MgoError::TransactionNotFound { .. }
            | MgoError::UnsupportedFeatureError { .. }
            | MgoError::UserInputError { .. }
            | MgoError::WrongMessageVersion { .. } => ErrorKind::Client,
            _ => ErrorKind::Internal,
        }
    }
}

/// The state-read error that an engine fault becomes: `Client` for the five
/// request-caused faults, `Internal` for every other, the fault kept inside.
pub open spec fn classify(e: MgoError) -> StateReadError {
    if e.is_client_kind() {
        StateReadError::Client(StateReadClientError::MgoError(e))
    } else {
        StateReadError::Internal(StateReadInternalError::MgoError(e))
    }
}

impl StateReadError {
    /// The kind of this error.
    pub open spec fn kind_spec(&self) -> ErrorKind {
        match self {
            StateReadError::Internal(_) => ErrorKind::Internal,
            StateReadError::Client(_) => ErrorKind::Client,
        }
    }

    /// Whether the error is the caller's or the node's.
    pub fn kind(&self) -> (kind: ErrorKind)
        ensures
            kind == self.kind_spec(),
    {
        match self {
            StateReadError::Internal(_) => ErrorKind::Internal,
            StateReadError::Client(_) => ErrorKind::Client,
        }
    }

    /// Whether the detail of this error may be shown to the caller.
    pub fn is_client(&self) -> (b: bool)
        ensures
            b == (self.kind_spec() == ErrorKind::Client),
    {
        match self {
            StateReadError::Internal(_) => false,
            StateReadError::Client(_) => true,
        }
    }
}

impl From<MgoError> for StateReadError {
    fn from(e: MgoError) -> (res: StateReadError) {
        match e {
            MgoError::IndexStoreNotAvailable
            | MgoError::TransactionNotFound { .. }
            | MgoError::UnsupportedFeatureError { .. }
            | MgoError::UserInputError { .. }
            | MgoError::WrongMessageVersion { .. } => StateReadError::Client(
                StateReadClientError::MgoError(e),
            ),
            _ => StateReadError::Internal(StateReadInternalError::MgoError(e)),
        }
    }
}

impl vstd::std_specs::convert::FromSpecImpl<MgoError> for StateReadError {
    open spec fn obeys_from_spec() -> bool {
        true
    }

    open spec fn from_spec(e: MgoError) -> StateReadError {
        classify(e)
    }
}

impl From<UserInputError> for StateReadError {
    fn from(e: UserInputError) -> (res: StateReadError) {
        StateReadError::Client(StateReadClientError::UserInputError(e))
    }
}

impl vstd::std_specs::convert::FromSpecImpl<UserInputError> for StateReadError {
    open spec fn obeys_from_spec() -> bool {
        true
    }

    open spec fn from_spec(e: UserInputError) -> StateReadError {
        StateReadError::Client(StateReadClientError::UserInputError(e))
    }
}

impl From<tokio::task::JoinError> for StateReadError {
    fn from(e: tokio::task::JoinError) -> (res: StateReadError) {
        StateReadError::Internal(StateReadInternalError::JoinError(e))
    }
}

impl vstd::std_specs::convert::FromSpecImpl<tokio::task::JoinError> for StateReadError {
    open spec fn obeys_from_spec() -> bool {
        true
    }

    open spec fn from_spec(e: tokio::task::JoinError) -> StateReadError {
        StateReadError::Internal(StateReadInternalError::JoinError(e))
    }
}

impl From<anyhow::Error> for StateReadError {
    fn from(e: anyhow::Error) -> (res: StateReadError) {
        StateReadError::Internal(StateReadInternalError::Anyhow(e))
    }
}

impl vstd::std_specs::convert::FromSpecImpl<anyhow::Error> for StateReadError {
    open spec fn obeys_from_spec() -> bool {
        true
    }

    open spec fn from_spec(e: anyhow::Error) -> StateReadError {
        StateReadError::Internal(StateReadInternalError::Anyhow(e))
    }
}

/// Calls the `Display` impl of `tokio::task::JoinError`, which says whether
/// the task was cancelled or panicked.
#[verifier::external_body]
fn join_error_text(e: &tokio::task::JoinError) -> (text: String) {
    e.to_string()
}

/// Calls the `Display` impl of `anyhow::Error`, which gives the outermost
/// message of the error.
#[verifier::external_body]
fn anyhow_error_text(e: &anyhow::Error) -> (text: String) {
    e.to_string()
}

impl UserInputError {
    /// What the fault is, in words.
    pub open spec fn description(&self) -> Seq<char> {
        match self {
            UserInputError::ObjectNotFound { .. } => "Could not find the referenced object"@,
            UserInputError::ObjectDeleted { .. } => "The referenced object was deleted"@,
            UserInputError::ObjectSequenceNumberTooHigh { .. } =>
                "The version asked for is higher than the latest"@,
            UserInputError::Unsupported(what) => what@,
        }
    }

    /// What the fault is, in words.
    pub fn describe(&self) -> (text: String)
        ensures
            text@ == self.description(),
    {
        match self {
            UserInputError::ObjectNotFound { .. } => "Could not find the referenced object".to_owned(),
            UserInputError::ObjectDeleted { .. } => "The referenced object was deleted".to_owned(),
            UserInputError::ObjectSequenceNumberTooHigh { .. } =>
                "The version asked for is higher than the latest".to_owned(),
            UserInputError::Unsupported(what) => what.clone(),
        }
    }
}

impl MgoError {
    /// What the fault is, in words.
    pub open spec fn description(&self) -> Seq<char> {
        match self {
            MgoError::IndexStoreNotAvailable => "Index store not available on this Fullnode."@,
            MgoError::TransactionNotFound { .. } => "Could not find the referenced transaction."@,
            MgoError::UnsupportedFeatureError { error } => error@,
            MgoError::UserInputError { error } => error.description(),
            MgoError::WrongMessageVersion { error } => error@,
            MgoError::StorageError(error) => error@,
            MgoError::ExecutionError(error) => error@,
            MgoError::Unknown(error) => error@,
        }
    }

    /// What the fault is, in words.
    pub fn describe(&self) -> (text: String)
        ensures
            text@ == self.description(),
    {
        match self {
            MgoError::IndexStoreNotAvailable => "Index store not available on this Fullnode.".to_owned(),
            MgoError::TransactionNotFound { .. } =>
                "Could not find the referenced transaction.".to_owned(),
            MgoError::UnsupportedFeatureError { error } => error.clone(),
            MgoError::UserInputError { error } => error.describe(),
            MgoError::WrongMessageVersion { error } => error.clone(),
            MgoError::StorageError(error) => error.clone(),
            MgoError::ExecutionError(error) => error.clone(),
            MgoError::Unknown(error) => error.clone(),
        }
    }
}

impl StateReadError {
    /// What the error is, in words: the description of the fault it holds.
    /// For a failed task and for a fault of no particular kind the words are
    /// those of the fault itself.
    pub fn describe(&self) -> (text: String)
        ensures
            self matches StateReadError::Internal(StateReadInternalError::MgoError(e)) ==> text@
                == e.description(),
            self matches StateReadError::Client(StateReadClientError::MgoError(e)) ==> text@
                == e.description(),
            self matches StateReadError::Client(StateReadClientError::UserInputError(e)) ==> text@
                == e.description(),
    {
        match self {
            StateReadError::Internal(StateReadInternalError::MgoError(e)) => e.describe(),
            StateReadError::Internal(StateReadInternalError::JoinError(e)) => join_error_text(e),
            StateReadError::Internal(StateReadInternalError::Anyhow(e)) => anyhow_error_text(e),
            StateReadError::Client(StateReadClientError::MgoError(e)) => e.describe(),
            StateReadError::Client(StateReadClientError::UserInputError(e)) => e.describe(),
        }
    }
}

/// Why a domain name does not parse.
#[derive(Clone, Copy, Debug, PartialEq, Eq)]
pub enum NameServiceError {
    /// The name is longer than a name may be: its length and the maximum.
    ExceedsMaxLength(usize, usize),
    /// A label is shorter or longer than a label may be: its length, the
    /// minimum and the maximum.
    InvalidLength(usize, usize, usize),
    /// A label starts or ends with a hyphen.
    InvalidHyphens,
    /// A label holds a character other than a lower-case letter, a digit or
    /// a hyphen.
    InvalidUnderscore,
    /// The name has fewer than two labels.
    LabelsEmpty,
}

/// The error of a query.
#[derive(Debug)]
pub enum IndexerError {
    /// The request names a domain that does not parse.
    InvalidArgumentError(NameServiceError),
    /// The object stored under this id is not the record it should be.
    PersistentStorageDataCorruptionError(ObjectID),
    /// An object that was read could not be turned into a response.
    DataTransformationError(ConversionError),
    /// The state read failed.
    StateReadError(StateReadError),
}

impl IndexerError {
    /// The kind of this error: a name that does not parse is the caller's;
    /// a stored record that does not decode and an object that cannot be
    /// shown are the node's; a failed state read is of the kind it was
    /// classified as.
    pub open spec fn kind_spec(&self) -> ErrorKind {
        match self {
            IndexerError::InvalidArgumentError(_) => ErrorKind::Client,
            IndexerError::PersistentStorageDataCorruptionError(_) => ErrorKind::Internal,
            IndexerError::DataTransformationError(_) => ErrorKind::Internal,
            IndexerError::StateReadError(e) => e.kind_spec(),
        }
    }

    /// Whether the error is the caller's or the node's.
    pub fn kind(&self) -> (kind: ErrorKind)
        ensures
            kind == self.kind_spec(),
    {
        match self {
            IndexerError::InvalidArgumentError(_) => ErrorKind::Client,
            IndexerError::PersistentStorageDataCorruptionError(_) => ErrorKind::Internal,
            IndexerError::DataTransformationError(_) => ErrorKind::Internal,
            IndexerError::StateReadError(e) => e.kind(),
        }
    }
}

/// Classification is total and two-valued: an engine fault becomes a client
/// error exactly when it is one of the five request-caused kinds and an
/// internal error otherwise, always with the fault kept inside; a failed
/// task and a fault of no particular kind are always internal; bad input is
/// always the client's.
pub proof fn lemma_classification_total(
    e: MgoError,
    input: UserInputError,
    join: tokio::task::JoinError,
    other: anyhow::Error,
)
    ensures
        e.is_client_kind() <==> classify(e).kind_spec() == ErrorKind::Client,
        !e.is_client_kind() <==> classify(e).kind_spec() == ErrorKind::Internal,
        classify(e).kind_spec() == e.kind_spec(),
        e is IndexStoreNotAvailable || e is TransactionNotFound || e is UnsupportedFeatureError
            || e is UserInputError || e is WrongMessageVersion ==> classify(e)
            == StateReadError::Client(StateReadClientError::MgoError(e)),
        e is StorageError || e is ExecutionError || e is Unknown ==> classify(e)
            == StateReadError::Internal(StateReadInternalError::MgoError(e)),
        StateReadError::from_spec(e) == classify(e),
        StateReadError::from_spec(input).kind_spec() == ErrorKind::Client,
        StateReadError::from_spec(join).kind_spec() == ErrorKind::Internal,
        StateReadError::from_spec(other).kind_spec() == ErrorKind::Internal,
{
}

} // verus!
