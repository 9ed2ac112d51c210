//! Objects as the store hands them out.

use vstd::prelude::*;
use crate::error::UserInputError;
use crate::page::Keyed;
use crate::types::{MgoAddress, ObjectID, ObjectRef, SequenceNumber, TransactionDigest};

verus! {

/// Who may use an object.
#[derive(Clone, Copy, Debug, PartialEq, Eq)]
pub enum Owner {
    /// Owned by an account.
    AddressOwner(MgoAddress),
    /// Owned by another object, as its child.
    ObjectOwner(MgoAddress),
    /// Usable by everyone since the given version.
    Shared { initial_shared_version: SequenceNumber },
    /// Frozen.
    Immutable,
}

/// The layout by which the contents of an object are read as fields.
#[derive(Debug, PartialEq, Eq)]
pub struct MoveStructLayout {
    /// Name of the type that is laid out.
    pub type_: String,
    /// Names of its fields, in the order of the contents.
    pub fields: Vec<String>,
}

/// One version of an object.
#[derive(Debug, PartialEq, Eq)]
pub struct Object {
    /// Name of the type of the value that the object holds.
    pub type_: String,
    /// Who may use the object.
    pub owner: Owner,
    /// The transaction that wrote this version.
    pub previous_transaction: TransactionDigest,
    /// What deleting the object pays back.
    pub storage_rebate: u64,
    /// The encoded value.
    pub contents: Vec<u8>,
}

/// What a read of an object's latest version finds.
#[derive(Debug, PartialEq, Eq)]
pub enum ObjectRead {
    /// There never was an object with this id.
    NotExists(ObjectID),
    /// The object, with the layout of its contents where one is known.
    Exists(ObjectRef, Object, Option<MoveStructLayout>),
    /// The object was deleted; the reference is that of the deletion.
    Deleted(ObjectRef),
}

impl ObjectRead {
    /// The id that was read, whatever was found.
    pub open spec fn object_id_spec(&self) -> ObjectID {
        match self {
            ObjectRead::NotExists(id) => *id,
            ObjectRead::Exists(object_ref, _, _) => object_ref.0,
            ObjectRead::Deleted(object_ref) => object_ref.0,
        }
    }

    /// The id that was read, whatever was found.
    pub fn object_id(&self) -> (id: ObjectID)
        ensures
            id == self.object_id_spec(),
    {
        match self {
            ObjectRead::NotExists(id) => *id,
            ObjectRead::Exists(object_ref, _, _) => object_ref.0,
            ObjectRead::Deleted(object_ref) => object_ref.0,
        }
    }
}

impl Keyed for ObjectRead {
    type Key = ObjectID;

    open spec fn key_spec(&self) -> ObjectID {
        self.object_id_spec()
    }

    fn key(&self) -> (k: ObjectID) {
        self.object_id()
    }
}

/// What a read of one version of an object finds.
#[derive(Debug, PartialEq, Eq)]
pub enum PastObjectRead {
    /// There never was an object with this id.
    ObjectNotExists(ObjectID),
    /// The object was deleted at this reference.
    ObjectDeleted(ObjectRef),
    /// The version asked for.
    VersionFound(ObjectRef, Object, Option<MoveStructLayout>),
    /// The object exists, but not in this version.
    VersionNotFound(ObjectID, SequenceNumber),
    /// The version asked for lies beyond the latest one.
    VersionTooHigh {
        object_id: ObjectID,
        asked_version: SequenceNumber,
        latest_version: SequenceNumber,
    },
}

impl PastObjectRead {
    /// The object that was found, or the input fault that the read amounts to.
    pub open spec fn into_object_spec(self) -> Result<Object, UserInputError> {
        match self {
            PastObjectRead::ObjectNotExists(object_id) => Err(
                UserInputError::ObjectNotFound { object_id, version: None },
            ),
            PastObjectRead::ObjectDeleted(object_ref) => Err(
                UserInputError::ObjectDeleted { object_ref },
            ),
            PastObjectRead::VersionFound(_, object, _) => Ok(object),
            PastObjectRead::VersionNotFound(object_id, version) => Err(
                UserInputError::ObjectNotFound { object_id, version: Some(version) },
            ),
            PastObjectRead::VersionTooHigh { object_id, asked_version, latest_version } => Err(
                UserInputError::ObjectSequenceNumberTooHigh {
                    object_id,
                    asked_version,
                    latest_version,
                },
            ),
        }
    }

    /// The object that was found. Every other outcome is a fault of the
    /// request: it named an object or a version that is not there.
    pub fn into_object(self) -> (res: Result<Object, UserInputError>)
        ensures
            res == self.into_object_spec(),
            res is Ok <==> self is VersionFound,
    {
        match self {
            PastObjectRead::ObjectNotExists(object_id) => Err(
                UserInputError::ObjectNotFound { object_id, version: None },
            ),
            PastObjectRead::ObjectDeleted(object_ref) => Err(
                UserInputError::ObjectDeleted { object_ref },
            ),
            PastObjectRead::VersionFound(_, object, _) => Ok(object),
            PastObjectRead::VersionNotFound(object_id, version) => Err(
                UserInputError::ObjectNotFound { object_id, version: Some(version) },
            ),
            PastObjectRead::VersionTooHigh { object_id, asked_version, latest_version } => Err(
                UserInputError::ObjectSequenceNumberTooHigh {
                    object_id,
                    asked_version,
                    latest_version,
                },
            ),
        }
    }
}

} // verus!
