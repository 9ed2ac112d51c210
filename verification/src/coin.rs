//! Coins as a listing returns them.

use vstd::prelude::*;
use crate::types::{ObjectDigest, ObjectID, SequenceNumber, TransactionDigest};

verus! {

/// What the index keeps of a coin.
#[derive(Clone, Copy, Debug, PartialEq, Eq)]
pub struct CoinInfo {
    pub version: SequenceNumber,
    pub digest: ObjectDigest,
    pub balance: u64,
    pub previous_transaction: TransactionDigest,
}

/// A coin of an owner.
#[derive(Debug, PartialEq, Eq)]
pub struct MgoCoin {
    pub coin_type: String,
    pub coin_object_id: ObjectID,
    pub version: SequenceNumber,
    pub digest: ObjectDigest,
    pub balance: u64,
    pub previous_transaction: TransactionDigest,
}

/// The coin that an entry of the index stands for: the type and the id from
/// the key of the entry, the rest from what is kept under it.
pub open spec fn coin_of(entry: (String, ObjectID, CoinInfo)) -> MgoCoin {
    MgoCoin {
        coin_type: entry.0,
        coin_object_id: entry.1,
        version: entry.2.version,
        digest: entry.2.digest,
        balance: entry.2.balance,
        previous_transaction: entry.2.previous_transaction,
    }
}

/// Turns the entries of the coin index into coins, one for one and in their
/// order.
pub fn coins_from_index(entries: Vec<(String, ObjectID, CoinInfo)>) -> (coins: Vec<MgoCoin>)
    ensures
        coins@.len() == entries@.len(),
        forall|i: int| 0 <= i < entries@.len() ==> (#[trigger] coins@[i]) == coin_of(entries@[i]),
{
    let ghost all = entries@;
    let mut coins: Vec<MgoCoin> = Vec::new();
    for entry in it: entries.into_iter()
        invariant
            it.seq() == all,
            coins@.len() == it.index(),
            forall|j: int| 0 <= j < it.index() ==> (#[trigger] coins@[j]) == coin_of(all[j]),
    {
        let (coin_type, coin_object_id, coin) = entry;
        coins.push(
            MgoCoin {
                coin_type,
                coin_object_id,
                version: coin.version,
                digest: coin.digest,
                balance: coin.balance,
                previous_transaction: coin.previous_transaction,
            },
        );
    }
    coins
}

} // verus!
