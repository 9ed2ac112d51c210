//! The capability through which the query layer reads the state of the node.

use vstd::prelude::*;
use crate::error::StateReadResult;
use crate::object::{MoveStructLayout, Object, ObjectRead, PastObjectRead};
use crate::query::{
    DynamicFieldInfo, EventFilter, MgoEvent, MgoObjectDataFilter, MgoTransactionBlockResponse,
    MgoTransactionBlockResponseOptions, TransactionFilter,
};
use crate::response::DisplayFieldsResponse;
use crate::types::{EventID, MgoAddress, ObjectID, SequenceNumber, TransactionDigest};

verus! {

/// Reads of the node's committed state. This is the only way by which the
/// query layer reaches the store; it says nothing of how the store answers.
///
/// A listing returns the rows that come strictly after `cursor` in the order
/// of the endpoint, at most `limit` of them.
pub trait StateRead {
    /// The latest version of an object.
    fn get_object_read(&self, object_id: &ObjectID) -> StateReadResult<ObjectRead>;

    /// One version of an object.
    fn get_past_object_read(&self, object_id: &ObjectID, version: SequenceNumber) -> StateReadResult<
        PastObjectRead,
    >;

    /// The latest version of an object, where it exists.
    fn get_object(&self, object_id: &ObjectID) -> StateReadResult<Option<Object>>;

    /// The objects of an owner, by ascending id.
    fn get_owned_objects(
        &self,
        owner: MgoAddress,
        filter: Option<MgoObjectDataFilter>,
        cursor: Option<ObjectID>,
        limit: usize,
    ) -> StateReadResult<Vec<ObjectRead>>;

    /// The dynamic fields of an object, by ascending id.
    fn get_dynamic_fields(&self, owner: ObjectID, cursor: Option<ObjectID>, limit: usize) -> StateReadResult<
        Vec<DynamicFieldInfo>,
    >;

    /// The transactions that pass a filter, oldest first unless `descending`.
    fn query_transaction_blocks(
        &self,
        filter: Option<TransactionFilter>,
        options: MgoTransactionBlockResponseOptions,
        cursor: Option<TransactionDigest>,
        limit: usize,
        descending: bool,
    ) -> StateReadResult<Vec<MgoTransactionBlockResponse>>;

    /// The events that pass a filter, oldest first unless `descending`.
    fn query_events(
        &self,
        query: EventFilter,
        cursor: Option<EventID>,
        limit: usize,
        descending: bool,
    ) -> StateReadResult<Vec<MgoEvent>>;

    /// The display fields of an object, rendered.
    fn get_display_fields(
        &self,
        object: &Object,
        layout: &Option<MoveStructLayout>,
    ) -> StateReadResult<DisplayFieldsResponse>;

    /// How many transactions the node has executed.
    fn get_total_transaction_blocks(&self) -> StateReadResult<u64>;

    /// The sequence number of the latest checkpoint.
    fn get_latest_checkpoint_sequence_number(&self) -> StateReadResult<u64>;
}

} // verus!
