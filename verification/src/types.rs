//! Identifiers and plain data shared by every query.

use vstd::prelude::*;

verus! {

/// Identifier of an object: 32 bytes.
#[derive(Clone, Copy, Debug, PartialEq, Eq, PartialOrd, Ord, Hash)]
pub struct ObjectID(pub [u8; 32]);

/// An account address: 32 bytes.
#[derive(Clone, Copy, Debug, PartialEq, Eq, PartialOrd, Ord, Hash)]
pub struct MgoAddress(pub [u8; 32]);

/// Version of an object.
#[derive(Clone, Copy, Debug, PartialEq, Eq, PartialOrd, Ord, Hash)]
pub struct SequenceNumber(pub u64);

/// Digest of an object's content.
#[derive(Clone, Copy, Debug, PartialEq, Eq, PartialOrd, Ord, Hash)]
pub struct ObjectDigest(pub [u8; 32]);

/// Digest of a transaction.
#[derive(Clone, Copy, Debug, PartialEq, Eq, PartialOrd, Ord, Hash)]
pub struct TransactionDigest(pub [u8; 32]);

/// Identifies one version of an object: its id, version and content digest.
pub type ObjectRef = (ObjectID, SequenceNumber, ObjectDigest);

/// Identifier of an event: the transaction that emitted it and its position
/// among that transaction's events.
#[derive(Clone, Copy, Debug, PartialEq, Eq, PartialOrd, Ord, Hash)]
pub struct EventID {
    pub tx_digest: TransactionDigest,
    pub event_seq: u64,
}

/// Thirty-two zero bytes.
pub open spec fn zero_bytes() -> Seq<u8> {
    Seq::new(32, |i: int| 0u8)
}

impl ObjectID {
    /// The id of all zero bytes.
    pub fn zero() -> (id: ObjectID)
        ensures
            id.0@ == zero_bytes(),
    {
        let id = ObjectID([0u8; 32]);
        assert(id.0@ =~= zero_bytes());
        id
    }
}

impl MgoAddress {
    /// The address of all zero bytes.
    pub fn zero() -> (address: MgoAddress)
        ensures
            address.0@ == zero_bytes(),
    {
        let address = MgoAddress([0u8; 32]);
        assert(address.0@ =~= zero_bytes());
        address
    }
}

} // verus!
