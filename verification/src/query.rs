//! What a listing is asked for, and the rows it answers with.

use vstd::prelude::*;
use crate::dynamic_field::DynamicFieldName;
use crate::page::{Keyed, Page};
use crate::response::{MgoObjectDataOptions, MgoObjectResponse};
use crate::types::{
    EventID, MgoAddress, ObjectDigest, ObjectID, SequenceNumber, TransactionDigest,
};

verus! {

/// Which of an owner's objects a listing returns.
#[derive(Debug, PartialEq, Eq)]
pub enum MgoObjectDataFilter {
    /// Objects of types that the package declares.
    Package(ObjectID),
    /// Objects of the named type.
    StructType(String),
    /// Objects owned by the account.
    AddressOwner(MgoAddress),
    /// Objects owned by the object.
    ObjectOwner(ObjectID),
    /// The object with this id.
    ObjectId(ObjectID),
    /// Objects at this version.
    Version(u64),
}

/// A listing of objects: which ones, and what to show of each.
#[derive(Debug, PartialEq, Eq)]
pub struct MgoObjectResponseQuery {
    pub filter: Option<MgoObjectDataFilter>,
    pub options: Option<MgoObjectDataOptions>,
}

impl Default for MgoObjectResponseQuery {
    fn default() -> (query: Self)
        ensures
            query.filter is None,
            query.options is None,
    {
        MgoObjectResponseQuery { filter: None, options: None }
    }
}

/// Which transactions a listing returns.
#[derive(Debug, PartialEq, Eq)]
pub enum TransactionFilter {
    /// Transactions of the checkpoint.
    Checkpoint(u64),
    /// Transactions that take the object as input.
    InputObject(ObjectID),
    /// Transactions that change the object.
    ChangedObject(ObjectID),
    /// Transactions sent by the account.
    FromAddress(MgoAddress),
    /// Transactions that send to the account.
    ToAddress(MgoAddress),
}

/// What of a transaction a response shows.
#[derive(Clone, Copy, Debug, PartialEq, Eq)]
pub struct MgoTransactionBlockResponseOptions {
    pub show_input: bool,
    pub show_effects: bool,
    pub show_events: bool,
}

impl Default for MgoTransactionBlockResponseOptions {
    fn default() -> (options: Self)
        ensures
            !options.show_input && !options.show_effects && !options.show_events,
    {
        MgoTransactionBlockResponseOptions {
            show_input: false,
            show_effects: false,
            show_events: false,
        }
    }
}

/// A listing of transactions: which ones, and what to show of each.
#[derive(Debug, PartialEq, Eq)]
pub struct MgoTransactionBlockResponseQuery {
    pub filter: Option<TransactionFilter>,
    pub options: Option<MgoTransactionBlockResponseOptions>,
}

/// A transaction as a listing returns it.
#[derive(Debug, PartialEq, Eq)]
pub struct MgoTransactionBlockResponse {
    pub digest: TransactionDigest,
    /// The checkpoint that holds the transaction, once there is one.
    pub checkpoint: Option<u64>,
    /// When the checkpoint was made.
    pub timestamp_ms: Option<u64>,
}

impl Keyed for MgoTransactionBlockResponse {
    type Key = TransactionDigest;

    open spec fn key_spec(&self) -> TransactionDigest {
        self.digest
    }

    fn key(&self) -> (k: TransactionDigest) {
        self.digest
    }
}

/// Which events a listing returns.
#[derive(Debug, PartialEq, Eq)]
pub enum EventFilter {
    /// Events sent by the account.
    Sender(MgoAddress),
    /// Events of the transaction.
    Transaction(TransactionDigest),
    /// Events emitted by the package.
    Package(ObjectID),
    /// Events of the named type.
    MoveEventType(String),
    /// Events emitted between the two times, the start included.
    TimeRange { start_time: u64, end_time: u64 },
}

/// An event as a listing returns it.
#[derive(Debug, PartialEq, Eq)]
pub struct MgoEvent {
    pub id: EventID,
    pub package_id: ObjectID,
    pub transaction_module: String,
    pub sender: MgoAddress,
    pub type_: String,
    pub bcs: Vec<u8>,
    pub timestamp_ms: Option<u64>,
}

impl Keyed for MgoEvent {
    type Key = EventID;

    open spec fn key_spec(&self) -> EventID {
        self.id
    }

    fn key(&self) -> (k: EventID) {
        self.id
    }
}

/// Whether a dynamic field holds a value or an object.
#[derive(Clone, Copy, Debug, PartialEq, Eq)]
pub enum DynamicFieldType {
    DynamicField,
    DynamicObject,
}

/// A dynamic field as a listing returns it.
#[derive(Debug, PartialEq, Eq)]
pub struct DynamicFieldInfo {
    pub name: DynamicFieldName,
    pub type_: DynamicFieldType,
    pub object_type: String,
    pub object_id: ObjectID,
    pub version: SequenceNumber,
    pub digest: ObjectDigest,
}

impl Keyed for DynamicFieldInfo {
    type Key = ObjectID;

    open spec fn key_spec(&self) -> ObjectID {
        self.object_id
    }

    fn key(&self) -> (k: ObjectID) {
        self.object_id
    }
}

/// A page of object responses.
pub type ObjectsPage = Page<MgoObjectResponse, ObjectID>;

/// A page of transactions.
pub type TransactionBlocksPage = Page<MgoTransactionBlockResponse, TransactionDigest>;

/// A page of events.
pub type EventPage = Page<MgoEvent, EventID>;

/// A page of dynamic fields.
pub type DynamicFieldPage = Page<DynamicFieldInfo, ObjectID>;

} // verus!
