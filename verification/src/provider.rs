//! Reads of one version of an object, with a second store to fall back on.
//!
//! The node prunes old versions. A read that does not find a version in the
//! node's own store may find it in the long-term store, so two outcomes of a
//! read are not final: that the object is unknown, and that the version is.

use vstd::prelude::*;
use crate::error::{
    MgoError, StateReadClientError, StateReadError, StateReadInternalError, StateReadResult,
    UserInputError,
};
use crate::object::{Object, PastObjectRead};
use crate::state::StateRead;
use crate::types::{ObjectID, SequenceNumber};

verus! {

/// What a read of one version gives: the object that was found, and for
/// every other outcome the client error that says what the request named in
/// vain.
pub open spec fn object_of(read: PastObjectRead) -> StateReadResult<Object> {
    match read.into_object_spec() {
        Ok(object) => Ok(object),
        Err(e) => Err(StateReadError::Client(StateReadClientError::UserInputError(e))),
    }
}

/// The object that a read found, or the client error that the read amounts
/// to.
pub fn object_from_read(read: PastObjectRead) -> (res: StateReadResult<Object>)
    ensures
        res == object_of(read),
        res is Ok <==> read is VersionFound,
{
    match read.into_object() {
        Ok(object) => Ok(object),
        Err(e) => Err(StateReadError::from(e)),
    }
}

/// Reads one version of an object from the state: the object where the
/// state finds the version, the client error that the read amounts to where
/// it finds none, and the failure of the read where the state fails.
pub fn get_object<S: StateRead>(state: &S, id: &ObjectID, version: SequenceNumber) -> (res:
    StateReadResult<Object>)
    ensures
        exists|answer: StateReadResult<PastObjectRead>| #[trigger]
            call_ensures(S::get_past_object_read, (state, id, version), answer) && match answer {
                Ok(read) => res == object_of(read),
                Err(e) => res == Err::<Object, StateReadError>(e),
            },
{
    let answer = state.get_past_object_read(id, version);
    let ghost answered = answer;
    let res = match answer {
        Ok(read) => object_from_read(read),
        Err(e) => Err(e),
    };
    assert(call_ensures(S::get_past_object_read, (state, id, version), answered));
    res
}

/// Where a read of one version stands after the node's own store answered.
#[derive(Debug)]
pub enum PastObjectStep {
    /// The read is over, with this outcome.
    Done(StateReadResult<Object>),
    /// The long-term store is to be asked for this version.
    Fallback(ObjectID, SequenceNumber),
}

/// Whether the long-term store is asked after this answer of the node's own
/// store: only where the node knows no such object, or no such version.
pub open spec fn falls_back(read: PastObjectRead) -> bool {
    read is ObjectNotExists || read is VersionNotFound
}

/// Decides what follows the answer of the node's own store to a read of
/// version `version` of object `id`.
pub fn after_own_store(id: ObjectID, version: SequenceNumber, read: PastObjectRead) -> (step:
    PastObjectStep)
    ensures
        falls_back(read) ==> step == PastObjectStep::Fallback(id, version),
        !falls_back(read) ==> step == PastObjectStep::Done(object_of(read)),
{
    match read {
        PastObjectRead::ObjectNotExists(_) | PastObjectRead::VersionNotFound(_, _) => {
            PastObjectStep::Fallback(id, version)
        },
        _ => PastObjectStep::Done(object_from_read(read)),
    }
}

/// Ends a read of one version after the long-term store answered: the
/// object where it holds the version, else the client error that the
/// version is not found.
pub fn after_fallback(id: ObjectID, version: SequenceNumber, found: Option<Object>) -> (res:
    StateReadResult<Object>)
    ensures
        found matches Some(object) ==> res == Ok::<Object, StateReadError>(object),
        found is None ==> res == object_of(PastObjectRead::VersionNotFound(id, version)),
        found is None ==> res == Err::<Object, StateReadError>(
            StateReadError::Client(
                StateReadClientError::UserInputError(
                    UserInputError::ObjectNotFound { object_id: id, version: Some(version) },
                ),
            ),
        ),
{
    match found {
        Some(object) => Ok(object),
        None => object_from_read(PastObjectRead::VersionNotFound(id, version)),
    }
}

/// The outcome of a search that ran as a task of its own: what the task
/// found, or the internal error that the task did not finish.
pub fn after_search_task(joined: Result<Option<Object>, tokio::task::JoinError>) -> (res:
    StateReadResult<Option<Object>>)
    ensures
        joined matches Ok(found) ==> res == Ok::<Option<Object>, StateReadError>(found),
        joined matches Err(e) ==> res == Err::<Option<Object>, StateReadError>(
            StateReadError::Internal(StateReadInternalError::JoinError(e)),
        ),
{
    match joined {
        Ok(found) => Ok(found),
        Err(e) => Err(StateReadError::from(e)),
    }
}

/// Calls `anyhow::Error::msg`, which makes an error that holds the message.
#[verifier::external_body]
fn fault_with_message(message: &'static str) -> (fault: anyhow::Error) {
    anyhow::Error::msg(message)
}

/// Identifies the chain: the digest of its first checkpoint.
#[derive(Clone, Copy, Debug, PartialEq, Eq)]
pub struct ChainIdentifier(pub [u8; 32]);

/// The identifier of the chain where the node knows it; an internal error
/// where it does not.
pub fn chain_identifier_or_fault(found: Option<ChainIdentifier>) -> (res: StateReadResult<
    ChainIdentifier,
>)
    ensures
        found matches Some(chain) ==> res == Ok::<ChainIdentifier, StateReadError>(chain),
        found is None ==> res matches Err(
            StateReadError::Internal(StateReadInternalError::Anyhow(_)),
        ),
{
    match found {
        Some(chain) => Ok(chain),
        None => Err(StateReadError::from(fault_with_message("Chain identifier not found"))),
    }
}

/// The index where the node keeps one; the client error that it keeps none
/// otherwise.
pub fn index_or_unavailable<T>(index: Option<T>) -> (res: StateReadResult<T>)
    ensures
        index matches Some(i) ==> res == Ok::<T, StateReadError>(i),
        index is None ==> res == Err::<T, StateReadError>(
            StateReadError::Client(
                StateReadClientError::MgoError(MgoError::IndexStoreNotAvailable),
            ),
        ),
{
    match index {
        Some(i) => Ok(i),
        None => Err(StateReadError::from(MgoError::IndexStoreNotAvailable)),
    }
}

} // verus!
