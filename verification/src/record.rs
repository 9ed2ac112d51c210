//! The records of the name service as the store holds them.
//!
//! A record is a field object: the id of the field, its name and its value,
//! each in canonical encoding, one after the other and with nothing behind.
//! A forward record is named by a domain and holds a name record; a reverse
//! record is named by an address and holds a domain.
//!
//! Fixed-width parts stand as they are: ids and addresses as 32 bytes,
//! numbers little-endian. A byte string stands behind its length, a list
//! behind the count of its items, both written as ULEB128 of at most five
//! bytes, in the shortest form, and below 2^32. An optional part stands
//! behind a byte that is 1 where it is there and 0 where it is not.

use vstd::prelude::*;
use vstd::array::array_as_slice;
use vstd::utf8::encode_utf8;
use crate::encoding::{
    le_bytes, length_prefixed, push_all, push_u64_le, push_uleb128, uleb128,
};
use crate::error::IndexerError;
use crate::name_service::{
    domain_encoding, is_domain, joined, lemma_label_bytes, strings_encoding, views_of, Domain,
};
use crate::object::Object;
use crate::page::Page;
use crate::types::{MgoAddress, ObjectID};

verus! {

/// What a number can still be worth after `count` groups of seven bits.
pub open spec fn uleb_bound(count: nat) -> nat {
    if count == 0 {
        0x8_0000_0000
    } else if count == 1 {
        0x1000_0000
    } else if count == 2 {
        0x20_0000
    } else if count == 3 {
        0x4000
    } else if count == 4 {
        0x80
    } else {
        1
    }
}

/// Reads a ULEB128 number at `pos`, of which `count` groups were read
/// before: the number and the position behind it. There is none where the
/// bytes end early, where more than five groups are used, or where the last
/// group is zero without being the only one.
pub open spec fn take_uleb(bytes: Seq<u8>, pos: int, count: nat) -> Option<(nat, int)>
    decreases 5 - count,
{
    if pos < 0 || pos >= bytes.len() || count >= 5 {
        None
    } else if bytes[pos] < 128 {
        if bytes[pos] == 0 && count > 0 {
            None
        } else {
            Some((bytes[pos] as nat, pos + 1))
        }
    } else {
        match take_uleb(bytes, pos + 1, count + 1) {
            Some((rest, next)) => Some((((bytes[pos] - 128) + 128 * rest) as nat, next)),
            None => None,
        }
    }
}

/// Reads a length or a count at `pos`: a ULEB128 number below 2^32.
pub open spec fn take_length(bytes: Seq<u8>, pos: int) -> Option<(nat, int)> {
    match take_uleb(bytes, pos, 0) {
        Some((n, next)) => if n <= u32::MAX {
            Some((n, next))
        } else {
            None
        },
        None => None,
    }
}

/// Reads `n` bytes at `pos`.
pub open spec fn take_fixed(bytes: Seq<u8>, pos: int, n: nat) -> Option<(Seq<u8>, int)> {
    if 0 <= pos && pos + n <= bytes.len() {
        Some((bytes.subrange(pos, pos + n), pos + n))
    } else {
        None
    }
}

/// Reads a byte string at `pos`: its length, then that many bytes.
pub open spec fn take_bytes(bytes: Seq<u8>, pos: int) -> Option<(Seq<u8>, int)> {
    match take_length(bytes, pos) {
        Some((n, next)) => take_fixed(bytes, next, n),
        None => None,
    }
}

/// The number that eight little-endian bytes spell.
pub open spec fn u64_from_le(b: Seq<u8>) -> nat {
    (b[0] + b[1] * 0x100 + b[2] * 0x1_0000 + b[3] * 0x100_0000 + b[4] * 0x1_0000_0000 + b[5]
        * 0x100_0000_0000 + b[6] * 0x1_0000_0000_0000 + b[7] * 0x100_0000_0000_0000) as nat
}

/// Reads a 64-bit number at `pos`.
pub open spec fn take_u64(bytes: Seq<u8>, pos: int) -> Option<(nat, int)> {
    match take_fixed(bytes, pos, 8) {
        Some((b, next)) => Some((u64_from_le(b), next)),
        None => None,
    }
}

/// Reads an optional address at `pos`.
pub open spec fn take_optional_address(bytes: Seq<u8>, pos: int) -> Option<(Option<Seq<u8>>, int)> {
    if pos < 0 || pos >= bytes.len() {
        None
    } else if bytes[pos] == 0 {
        Some((None, pos + 1))
    } else if bytes[pos] == 1 {
        match take_fixed(bytes, pos + 1, 32) {
            Some((address, next)) => Some((Some(address), next)),
            None => None,
        }
    } else {
        None
    }
}

/// Reads a ULEB128 number at `pos`, of which `count` groups were read before.
fn read_uleb(bytes: &[u8], pos: usize, count: usize) -> (res: Option<(u64, usize)>)
    ensures
        res matches Some((n, next)) ==> take_uleb(bytes@, pos as int, count as nat) == Some(
            (n as nat, next as int),
        ) && n < uleb_bound(count as nat) && pos < next <= bytes@.len(),
        res is None ==> take_uleb(bytes@, pos as int, count as nat) is None,
    decreases 5 - count,
{
    if pos >= bytes.len() || count >= 5 {
        return None;
    }
    let b = bytes[pos];
    if b < 128 {
        if b == 0 && count > 0 {
            None
        } else {
            Some((b as u64, pos + 1))
        }
    } else {
        match read_uleb(bytes, pos + 1, count + 1) {
            Some((rest, next)) => Some(((b - 128) as u64 + 128 * rest, next)),
            None => None,
        }
    }
}

/// Reads a length or a count at `pos`.
fn read_length(bytes: &[u8], pos: usize) -> (res: Option<(usize, usize)>)
    ensures
        res matches Some((n, next)) ==> take_length(bytes@, pos as int) == Some(
            (n as nat, next as int),
        ) && pos < next <= bytes@.len(),
        res is None ==> take_length(bytes@, pos as int) is None,
{
    match read_uleb(bytes, pos, 0) {
        Some((n, next)) => if n <= 0xffff_ffff {
            Some((n as usize, next))
        } else {
            None
        },
        None => None,
    }
}

/// Reads a byte string at `pos`: the positions where its bytes start and end.
fn read_bytes(bytes: &[u8], pos: usize) -> (res: Option<(usize, usize)>)
    ensures
        res matches Some((from, to)) ==> take_bytes(bytes@, pos as int) == Some(
            (bytes@.subrange(from as int, to as int), to as int),
        ) && pos < from <= to <= bytes@.len(),
        res is None ==> take_bytes(bytes@, pos as int) is None,
{
    match read_length(bytes, pos) {
        Some((n, from)) => if n <= bytes.len() - from {
            Some((from, from + n))
        } else {
            None
        },
        None => None,
    }
}

/// Reads 32 bytes at `pos`.
fn read_32(bytes: &[u8], pos: usize) -> (res: Option<([u8; 32], usize)>)
    ensures
        res matches Some((block, next)) ==> take_fixed(bytes@, pos as int, 32) == Some(
            (block@, next as int),
        ) && next == pos + 32,
        res is None ==> take_fixed(bytes@, pos as int, 32) is None,
{
    if pos > bytes.len() || bytes.len() - pos < 32 {
        return None;
    }
    let len = bytes.len();
    let mut block = [0u8; 32];
    let mut i: usize = 0;
    while i < 32
        invariant
            i <= 32,
            pos + 32 <= len == bytes@.len(),
            forall|j: int| 0 <= j < i ==> block@[j] == bytes@[pos + j],
        decreases 32 - i,
    {
        block[i] = bytes[pos + i];
        i = i + 1;
    }
    assert(block@ =~= bytes@.subrange(pos as int, pos + 32));
    Some((block, pos + 32))
}

/// Reads a 64-bit number at `pos`.
fn read_u64(bytes: &[u8], pos: usize) -> (res: Option<(u64, usize)>)
    ensures
        res matches Some((n, next)) ==> take_u64(bytes@, pos as int) == Some(
            (n as nat, next as int),
        ) && next == pos + 8,
        res is None ==> take_u64(bytes@, pos as int) is None,
{
    if pos > bytes.len() || bytes.len() - pos < 8 {
        return None;
    }
    let ghost b = bytes@.subrange(pos as int, pos + 8);
    assert(b[0] == bytes@[pos + 0] && b[1] == bytes@[pos + 1] && b[2] == bytes@[pos + 2] && b[3]
        == bytes@[pos + 3] && b[4] == bytes@[pos + 4] && b[5] == bytes@[pos + 5] && b[6]
        == bytes@[pos + 6] && b[7] == bytes@[pos + 7]);
    let n: u64 = bytes[pos] as u64 + bytes[pos + 1] as u64 * 0x100 + bytes[pos + 2] as u64
        * 0x1_0000 + bytes[pos + 3] as u64 * 0x100_0000 + bytes[pos + 4] as u64 * 0x1_0000_0000
        + bytes[pos + 5] as u64 * 0x100_0000_0000 + bytes[pos + 6] as u64 * 0x1_0000_0000_0000
        + bytes[pos + 7] as u64 * 0x100_0000_0000_0000;
    Some((n, pos + 8))
}

/// Reads an optional address at `pos`.
fn read_optional_address(bytes: &[u8], pos: usize) -> (res: Option<(Option<MgoAddress>, usize)>)
    ensures
        res matches Some((address, next)) ==> pos < next <= bytes@.len() && (match address {
            Some(a) => take_optional_address(bytes@, pos as int) == Some(
                (Some(a.0@), next as int),
            ),
            None => take_optional_address(bytes@, pos as int) == Some(
                (None::<Seq<u8>>, next as int),
            ),
        }),
        res is None ==> take_optional_address(bytes@, pos as int) is None,
{
    if pos >= bytes.len() {
        return None;
    }
    let tag = bytes[pos];
    if tag == 0 {
        Some((None, pos + 1))
    } else if tag == 1 {
        match read_32(bytes, pos + 1) {
            Some((block, next)) => Some((Some(MgoAddress(block)), next)),
            None => None,
        }
    } else {
        None
    }
}

/// Reads `count` byte strings at `pos`.
pub open spec fn take_strings(bytes: Seq<u8>, pos: int, count: nat) -> Option<(Seq<Seq<u8>>, int)>
    decreases count,
{
    if count == 0 {
        Some((Seq::empty(), pos))
    } else {
        match take_bytes(bytes, pos) {
            Some((item, next)) => match take_strings(bytes, next, (count - 1) as nat) {
                Some((rest, end)) => Some((seq![item] + rest, end)),
                None => None,
            },
            None => None,
        }
    }
}

/// Reads a domain at `pos`: the count of its labels and the labels, which
/// must be those of a domain.
pub open spec fn take_domain(bytes: Seq<u8>, pos: int) -> Option<(Seq<Seq<u8>>, int)> {
    match take_length(bytes, pos) {
        Some((count, next)) => match take_strings(bytes, next, count) {
            Some((labels, end)) => if is_domain(labels) {
                Some((labels, end))
            } else {
                None
            },
            None => None,
        },
        None => None,
    }
}

/// Passes over `count` pairs of byte strings at `pos`: the position behind
/// them.
pub open spec fn skip_entries(bytes: Seq<u8>, pos: int, count: nat) -> Option<int>
    decreases count,
{
    if count == 0 {
        Some(pos)
    } else {
        match take_bytes(bytes, pos) {
            Some((_, middle)) => match take_bytes(bytes, middle) {
                Some((_, next)) => skip_entries(bytes, next, (count - 1) as nat),
                None => None,
            },
            None => None,
        }
    }
}

/// What the name service keeps for a domain.
#[derive(Clone, Copy, Debug, PartialEq, Eq)]
pub struct NameRecord {
    /// The object that stands for the ownership of the domain.
    pub nft_id: ObjectID,
    /// When the registration ends, in milliseconds since the epoch.
    pub expiration_timestamp_ms: u64,
    /// The address that the domain resolves to, where it is set.
    pub target_address: Option<MgoAddress>,
}

/// Mathematical content of a [`NameRecord`].
pub struct NameRecordView {
    pub nft_id: Seq<u8>,
    pub expiration_timestamp_ms: nat,
    pub target_address: Option<Seq<u8>>,
}

impl View for NameRecord {
    type V = NameRecordView;

    open spec fn view(&self) -> NameRecordView {
        NameRecordView {
            nft_id: self.nft_id.0@,
            expiration_timestamp_ms: self.expiration_timestamp_ms as nat,
            target_address: match self.target_address {
                Some(address) => Some(address.0@),
                None => None,
            },
        }
    }
}

/// Reads a name record at `pos`, which must end where the bytes end: the id
/// of the ownership object, the end of the registration, the optional target
/// address and a list of further entries.
pub open spec fn take_name_record(bytes: Seq<u8>, pos: int) -> Option<NameRecordView> {
    match take_fixed(bytes, pos, 32) {
        Some((nft_id, at_expiration)) => match take_u64(bytes, at_expiration) {
            Some((expiration, at_target)) => match take_optional_address(bytes, at_target) {
                Some((target, at_count)) => match take_length(bytes, at_count) {
                    Some((count, at_entries)) => match skip_entries(bytes, at_entries, count) {
                        Some(end) => if end == bytes.len() {
                            Some(
                                NameRecordView {
                                    nft_id,
                                    expiration_timestamp_ms: expiration,
                                    target_address: target,
                                },
                            )
                        } else {
                            None
                        },
                        None => None,
                    },
                    None => None,
                },
                None => None,
            },
            None => None,
        },
        None => None,
    }
}

/// The name record that the contents of a forward record hold: the id of
/// the field, the domain that names it, then the record, with nothing
/// behind.
pub open spec fn decoded_name_record(bytes: Seq<u8>) -> Option<NameRecordView> {
    match take_fixed(bytes, 0, 32) {
        Some((_, at_name)) => match take_domain(bytes, at_name) {
            Some((_, at_value)) => take_name_record(bytes, at_value),
            None => None,
        },
        None => None,
    }
}

/// The labels of the domain that the contents of a reverse record hold: the
/// id of the field, the address that names it, then the domain, with
/// nothing behind.
pub open spec fn decoded_reverse_record(bytes: Seq<u8>) -> Option<Seq<Seq<u8>>> {
    match take_fixed(bytes, 0, 32) {
        Some((_, at_name)) => match take_fixed(bytes, at_name, 32) {
            Some((_, at_value)) => match take_domain(bytes, at_value) {
                Some((labels, end)) => if end == bytes.len() {
                    Some(labels)
                } else {
                    None
                },
                None => None,
            },
            None => None,
        },
        None => None,
    }
}

/// Copies the bytes from `from` up to `to`.
fn copy_of(bytes: &[u8], from: usize, to: usize) -> (copy: Vec<u8>)
    requires
        from <= to <= bytes@.len(),
    ensures
        copy@ == bytes@.subrange(from as int, to as int),
{
    let mut copy: Vec<u8> = Vec::new();
    let mut i = from;
    while i < to
        invariant
            from <= i <= to <= bytes@.len(),
            copy@ == bytes@.subrange(from as int, i as int),
        decreases to - i,
    {
        copy.push(bytes[i]);
        assert(copy@ =~= bytes@.subrange(from as int, i + 1));
        i = i + 1;
    }
    copy
}

/// Reads a domain at `pos`.
fn read_domain(bytes: &[u8], pos: usize) -> (res: Option<(Domain, usize)>)
    ensures
        res matches Some((domain, end)) ==> take_domain(bytes@, pos as int) == Some(
            (domain@, end as int),
        ) && pos < end <= bytes@.len(),
        res is None ==> take_domain(bytes@, pos as int) is None,
{
    let (count, start) = match read_length(bytes, pos) {
        Some(found) => found,
        None => {
            return None;
        },
    };
    let ghost whole = take_strings(bytes@, start as int, count as nat);
    let mut labels: Vec<Vec<u8>> = Vec::new();
    let mut at = start;
    let mut i: usize = 0;
    assert(views_of(labels@) =~= Seq::<Seq<u8>>::empty());
    while i < count
        invariant
            i <= count,
            start <= at <= bytes@.len(),
            take_length(bytes@, pos as int) == Some((count as nat, start as int)),
            whole == take_strings(bytes@, start as int, count as nat),
            whole == match take_strings(bytes@, at as int, (count - i) as nat) {
                Some((rest, end)) => Some((views_of(labels@) + rest, end)),
                None => None,
            },
        decreases count - i,
    {
        let ghost done = views_of(labels@);
        match read_bytes(bytes, at) {
            Some((from, to)) => {
                let label = copy_of(bytes, from, to);
                labels.push(label);
                proof {
                    assert(views_of(labels@) =~= done + seq![label@]);
                    match take_strings(bytes@, to as int, (count - i - 1) as nat) {
                        Some((rest, end)) => {
                            assert(done + (seq![label@] + rest) =~= views_of(labels@) + rest);
                        },
                        None => {},
                    }
                }
                at = to;
            },
            None => {
                return None;
            },
        }
        i = i + 1;
    }
    assert(views_of(labels@) + Seq::<Seq<u8>>::empty() =~= views_of(labels@));
    match Domain::from_labels(labels) {
        Some(domain) => Some((domain, at)),
        None => None,
    }
}

/// Passes over `count` pairs of byte strings at `pos`.
fn pass_entries(bytes: &[u8], pos: usize, count: usize) -> (res: Option<usize>)
    requires
        pos <= bytes@.len(),
    ensures
        res matches Some(end) ==> skip_entries(bytes@, pos as int, count as nat) == Some(
            end as int,
        ) && pos <= end <= bytes@.len(),
        res is None ==> skip_entries(bytes@, pos as int, count as nat) is None,
{
    let mut at = pos;
    let mut i: usize = 0;
    while i < count
        invariant
            i <= count,
            pos <= at <= bytes@.len(),
            skip_entries(bytes@, pos as int, count as nat) == skip_entries(
                bytes@,
                at as int,
                (count - i) as nat,
            ),
        decreases count - i,
    {
        let middle = match read_bytes(bytes, at) {
            Some((_, to)) => to,
            None => {
                return None;
            },
        };
        at = match read_bytes(bytes, middle) {
            Some((_, to)) => to,
            None => {
                return None;
            },
        };
        i = i + 1;
    }
    Some(at)
}

/// Reads a name record at `pos`, which must end where the bytes end.
fn read_name_record(bytes: &[u8], pos: usize) -> (res: Option<NameRecord>)
    requires
        pos <= bytes@.len(),
    ensures
        res matches Some(record) ==> take_name_record(bytes@, pos as int) == Some(record@),
        res is None ==> take_name_record(bytes@, pos as int) is None,
{
    let (nft_id, at_expiration) = match read_32(bytes, pos) {
        Some(found) => found,
        None => {
            return None;
        },
    };
    let (expiration_timestamp_ms, at_target) = match read_u64(bytes, at_expiration) {
        Some(found) => found,
        None => {
            return None;
        },
    };
    let (target_address, at_count) = match read_optional_address(bytes, at_target) {
        Some(found) => found,
        None => {
            return None;
        },
    };
    let (count, at_entries) = match read_length(bytes, at_count) {
        Some(found) => found,
        None => {
            return None;
        },
    };
    let end = match pass_entries(bytes, at_entries, count) {
        Some(end) => end,
        None => {
            return None;
        },
    };
    if end != bytes.len() {
        return None;
    }
    Some(NameRecord { nft_id: ObjectID(nft_id), expiration_timestamp_ms, target_address })
}

/// Decodes the contents of a forward record. There is a record exactly
/// where the contents have the layout of one.
pub fn decode_name_record(bytes: &[u8]) -> (res: Option<NameRecord>)
    ensures
        res matches Some(record) ==> decoded_name_record(bytes@) == Some(record@),
        res is None ==> decoded_name_record(bytes@) is None,
{
    let (_, at_name) = match read_32(bytes, 0) {
        Some(found) => found,
        None => {
            return None;
        },
    };
    let (_, at_value) = match read_domain(bytes, at_name) {
        Some(found) => found,
        None => {
            return None;
        },
    };
    read_name_record(bytes, at_value)
}

/// Decodes the contents of a reverse record. There is a domain exactly
/// where the contents have the layout of a reverse record.
pub fn decode_reverse_record(bytes: &[u8]) -> (res: Option<Domain>)
    ensures
        res matches Some(domain) ==> decoded_reverse_record(bytes@) == Some(domain@),
        res is None ==> decoded_reverse_record(bytes@) is None,
{
    let (_, at_name) = match read_32(bytes, 0) {
        Some(found) => found,
        None => {
            return None;
        },
    };
    let (_, at_value) = match read_32(bytes, at_name) {
        Some(found) => found,
        None => {
            return None;
        },
    };
    let (domain, end) = match read_domain(bytes, at_value) {
        Some(found) => found,
        None => {
            return None;
        },
    };
    if end != bytes.len() {
        return None;
    }
    Some(domain)
}

/// The encoding of an optional address.
pub open spec fn optional_address_encoding(address: Option<Seq<u8>>) -> Seq<u8> {
    match address {
        Some(a) => seq![1u8] + a,
        None => seq![0u8],
    }
}

/// The encoding of a name record with no further entries.
pub open spec fn name_record_encoding(record: NameRecordView) -> Seq<u8> {
    record.nft_id + le_bytes(record.expiration_timestamp_ms, 8) + optional_address_encoding(
        record.target_address,
    ) + uleb128(0)
}

/// The contents of the forward record of a domain.
pub open spec fn forward_record_encoding(
    field_id: ObjectID,
    labels: Seq<Seq<u8>>,
    record: NameRecordView,
) -> Seq<u8> {
    field_id.0@ + domain_encoding(labels) + name_record_encoding(record)
}

/// The contents of the reverse record of an address.
pub open spec fn reverse_record_encoding(
    field_id: ObjectID,
    address: MgoAddress,
    labels: Seq<Seq<u8>>,
) -> Seq<u8> {
    field_id.0@ + address.0@ + domain_encoding(labels)
}

/// Writes the contents of the forward record of a domain.
pub fn encode_forward_record(field_id: ObjectID, domain: &Domain, record: &NameRecord) -> (bytes:
    Vec<u8>)
    ensures
        bytes@ == forward_record_encoding(field_id, domain@, record@),
{
    let mut bytes: Vec<u8> = Vec::new();
    push_all(&mut bytes, array_as_slice(&field_id.0));
    domain.encode_into(&mut bytes);
    push_all(&mut bytes, array_as_slice(&record.nft_id.0));
    push_u64_le(&mut bytes, record.expiration_timestamp_ms);
    match &record.target_address {
        Some(address) => {
            bytes.push(1);
            push_all(&mut bytes, array_as_slice(&address.0));
        },
        None => {
            bytes.push(0);
        },
    }
    push_uleb128(&mut bytes, 0);
    assert(bytes@ =~= forward_record_encoding(field_id, domain@, record@));
    bytes
}

/// Writes the contents of the reverse record of an address.
pub fn encode_reverse_record(field_id: ObjectID, address: MgoAddress, domain: &Domain) -> (bytes:
    Vec<u8>)
    ensures
        bytes@ == reverse_record_encoding(field_id, address, domain@),
{
    let mut bytes: Vec<u8> = Vec::new();
    push_all(&mut bytes, array_as_slice(&field_id.0));
    push_all(&mut bytes, array_as_slice(&address.0));
    domain.encode_into(&mut bytes);
    assert(bytes@ =~= reverse_record_encoding(field_id, address, domain@));
    bytes
}

/// The address that a domain resolves to, by what is stored under the id of
/// its forward record: none where nothing is stored, the target of the
/// record where one is stored, and a fault of the store where what is stored
/// is no forward record.
pub open spec fn resolved_address(record_id: ObjectID, stored: Option<Seq<u8>>) -> Result<
    Option<Seq<u8>>,
    IndexerError,
> {
    match stored {
        None => Ok(None),
        Some(contents) => match decoded_name_record(contents) {
            Some(record) => Ok(record.target_address),
            None => Err(IndexerError::PersistentStorageDataCorruptionError(record_id)),
        },
    }
}

/// The contents of what was read under an id.
pub open spec fn stored_contents(object: Option<Object>) -> Option<Seq<u8>> {
    match object {
        Some(o) => Some(o.contents@),
        None => None,
    }
}

/// Whether `res` is the answer that `expected` stands for.
pub open spec fn is_address_outcome(
    res: Result<Option<MgoAddress>, IndexerError>,
    expected: Result<Option<Seq<u8>>, IndexerError>,
) -> bool {
    match expected {
        Ok(Some(target)) => res matches Ok(Some(address)) && address.0@ == target,
        Ok(None) => res == Ok::<Option<MgoAddress>, IndexerError>(None),
        Err(e) => res == Err::<Option<MgoAddress>, IndexerError>(e),
    }
}

/// Resolves a domain from what was read under the id of its forward record.
pub fn resolve_address(record_id: ObjectID, object: Option<Object>) -> (res: Result<
    Option<MgoAddress>,
    IndexerError,
>)
    ensures
        is_address_outcome(res, resolved_address(record_id, stored_contents(object))),
        object is None ==> res == Ok::<Option<MgoAddress>, IndexerError>(None),
{
    match object {
        None => Ok(None),
        Some(o) => match decode_name_record(o.contents.as_slice()) {
            Some(record) => Ok(record.target_address),
            None => Err(IndexerError::PersistentStorageDataCorruptionError(record_id)),
        },
    }
}

/// The names of an address, by what is stored under the id of its reverse
/// record: no name where nothing is stored, the one domain of the record
/// where one is stored, and a fault of the store where what is stored is no
/// reverse record.
pub open spec fn resolved_names(record_id: ObjectID, stored: Option<Seq<u8>>) -> Result<
    Seq<Seq<u8>>,
    IndexerError,
> {
    match stored {
        None => Ok(Seq::empty()),
        Some(contents) => match decoded_reverse_record(contents) {
            Some(labels) => Ok(seq![joined(labels)]),
            None => Err(IndexerError::PersistentStorageDataCorruptionError(record_id)),
        },
    }
}

/// The bytes of each of the names.
pub open spec fn names_bytes(names: Seq<String>) -> Seq<Seq<u8>> {
    Seq::new(names.len(), |i: int| encode_utf8(names[i]@))
}

/// Whether `res` is the page that `expected` stands for: the names as its
/// rows, no cursor and no further page.
pub open spec fn is_names_outcome(
    res: Result<Page<String, ObjectID>, IndexerError>,
    expected: Result<Seq<Seq<u8>>, IndexerError>,
) -> bool {
    match expected {
        Ok(names) => res matches Ok(page) && names_bytes(page.data@) == names
            && page.next_cursor is None && !page.has_next_page,
        Err(e) => res matches Err(f) && f == e,
    }
}

/// Lists the names of an address from what was read under the id of its
/// reverse record. The page is the only one: it has no cursor and no
/// further page.
pub fn resolve_names(record_id: ObjectID, object: Option<Object>) -> (res: Result<
    Page<String, ObjectID>,
    IndexerError,
>)
    ensures
        is_names_outcome(res, resolved_names(record_id, stored_contents(object))),
        object is None ==> (res matches Ok(page) && page.data@.len() == 0),
        res matches Ok(page) ==> page.data@.len() <= 1 && page.next_cursor is None
            && !page.has_next_page,
{
    match object {
        None => {
            let page = Page { data: Vec::new(), next_cursor: None, has_next_page: false };
            assert(names_bytes(page.data@) =~= Seq::<Seq<u8>>::empty());
            Ok(page)
        },
        Some(o) => match decode_reverse_record(o.contents.as_slice()) {
            Some(domain) => {
                let mut data: Vec<String> = Vec::new();
                data.push(domain.to_string());
                assert(names_bytes(data@) =~= seq![joined(domain@)]);
                Ok(Page { data, next_cursor: None, has_next_page: false })
            },
            None => Err(IndexerError::PersistentStorageDataCorruptionError(record_id)),
        },
    }
}

/// Whether `part` stands in `bytes` at `pos`.
pub open spec fn stands_at(bytes: Seq<u8>, pos: int, part: Seq<u8>) -> bool {
    0 <= pos && pos + part.len() <= bytes.len() && bytes.subrange(pos, pos + part.len()) == part
}

proof fn lemma_stands_at_split(bytes: Seq<u8>, pos: int, a: Seq<u8>, b: Seq<u8>)
    requires
        stands_at(bytes, pos, a + b),
    ensures
        stands_at(bytes, pos, a),
        stands_at(bytes, pos + a.len(), b),
{
    let whole = bytes.subrange(pos, pos + (a + b).len());
    assert(bytes.subrange(pos, pos + a.len()) =~= whole.subrange(0, a.len() as int));
    assert(whole.subrange(0, a.len() as int) =~= a);
    assert(bytes.subrange(pos + a.len(), pos + a.len() + b.len()) =~= whole.subrange(
        a.len() as int,
        (a + b).len() as int,
    ));
    assert(whole.subrange(a.len() as int, (a + b).len() as int) =~= b);
}

proof fn lemma_take_uleb(bytes: Seq<u8>, pos: int, n: nat, count: nat)
    requires
        stands_at(bytes, pos, uleb128(n)),
        n < uleb_bound(count),
        count > 0 ==> n > 0,
        count < 5,
    ensures
        take_uleb(bytes, pos, count) == Some((n, pos + uleb128(n).len())),
    decreases n,
{
    let enc = uleb128(n);
    assert(bytes[pos] == bytes.subrange(pos, pos + enc.len())[0]);
    if n >= 128 {
        let rest = uleb128(n / 128);
        assert(enc == seq![(128 + n % 128) as u8] + rest);
        lemma_stands_at_split(bytes, pos, seq![(128 + n % 128) as u8], rest);
        lemma_take_uleb(bytes, pos + 1, n / 128, count + 1);
    }
}

proof fn lemma_take_length(bytes: Seq<u8>, pos: int, n: nat)
    requires
        stands_at(bytes, pos, uleb128(n)),
        n <= u32::MAX,
    ensures
        take_length(bytes, pos) == Some((n, pos + uleb128(n).len())),
{
    lemma_take_uleb(bytes, pos, n, 0);
}

proof fn lemma_take_bytes(bytes: Seq<u8>, pos: int, item: Seq<u8>)
    requires
        stands_at(bytes, pos, length_prefixed(item)),
        item.len() <= u32::MAX,
    ensures
        take_bytes(bytes, pos) == Some((item, pos + length_prefixed(item).len())),
{
    lemma_stands_at_split(bytes, pos, uleb128(item.len()), item);
    lemma_take_length(bytes, pos, item.len());
}

proof fn lemma_strings_encoding_front(item: Seq<u8>, rest: Seq<Seq<u8>>)
    ensures
        strings_encoding(seq![item] + rest) == length_prefixed(item) + strings_encoding(rest),
    decreases rest.len(),
{
    let all = seq![item] + rest;
    if rest.len() == 0 {
        assert(all.drop_last() =~= Seq::<Seq<u8>>::empty());
        assert(strings_encoding(all.drop_last()) =~= Seq::<u8>::empty());
        assert(strings_encoding(all) =~= length_prefixed(item));
        assert(length_prefixed(item) + strings_encoding(rest) =~= length_prefixed(item));
    } else {
        assert(all.drop_last() =~= seq![item] + rest.drop_last());
        assert(all.last() == rest.last());
        lemma_strings_encoding_front(item, rest.drop_last());
        assert(strings_encoding(all) =~= length_prefixed(item) + strings_encoding(rest));
    }
}

proof fn lemma_take_strings(bytes: Seq<u8>, pos: int, items: Seq<Seq<u8>>)
    requires
        stands_at(bytes, pos, strings_encoding(items)),
        forall|i: int| 0 <= i < items.len() ==> (#[trigger] items[i]).len() <= u32::MAX,
    ensures
        take_strings(bytes, pos, items.len()) == Some(
            (items, pos + strings_encoding(items).len()),
        ),
    decreases items.len(),
{
    if items.len() == 0 {
        assert(items =~= Seq::<Seq<u8>>::empty());
    } else {
        let first = items.first();
        let rest = items.drop_first();
        assert(items =~= seq![first] + rest);
        lemma_strings_encoding_front(first, rest);
        lemma_stands_at_split(bytes, pos, length_prefixed(first), strings_encoding(rest));
        lemma_take_bytes(bytes, pos, first);
        assert forall|i: int| 0 <= i < rest.len() implies (#[trigger] rest[i]).len()
            <= u32::MAX by {
            assert(rest[i] == items[i + 1]);
        }
        lemma_take_strings(bytes, pos + length_prefixed(first).len(), rest);
    }
}

proof fn lemma_take_domain(bytes: Seq<u8>, pos: int, labels: Seq<Seq<u8>>)
    requires
        stands_at(bytes, pos, domain_encoding(labels)),
        is_domain(labels),
        labels.len() <= u32::MAX,
    ensures
        take_domain(bytes, pos) == Some((labels, pos + domain_encoding(labels).len())),
{
    lemma_stands_at_split(bytes, pos, uleb128(labels.len()), strings_encoding(labels));
    lemma_take_length(bytes, pos, labels.len());
    assert forall|i: int| 0 <= i < labels.len() implies (#[trigger] labels[i]).len()
        <= u32::MAX by {
        lemma_label_bytes(labels[i]);
    }
    lemma_take_strings(bytes, pos + uleb128(labels.len()).len(), labels);
}

proof fn lemma_u64_round_trip(n: nat)
    requires
        n <= u64::MAX,
    ensures
        le_bytes(n, 8).len() == 8,
        u64_from_le(le_bytes(n, 8)) == n,
{
    reveal_with_fuel(le_bytes, 9);
    let n1 = n / 256;
    let n2 = n1 / 256;
    let n3 = n2 / 256;
    let n4 = n3 / 256;
    let n5 = n4 / 256;
    let n6 = n5 / 256;
    let n7 = n6 / 256;
    let b = le_bytes(n, 8);
    assert(b[0] == n % 256);
    assert(b[1] == n1 % 256);
    assert(b[2] == n2 % 256);
    assert(b[3] == n3 % 256);
    assert(b[4] == n4 % 256);
    assert(b[5] == n5 % 256);
    assert(b[6] == n6 % 256);
    assert(b[7] == n7 % 256);
    assert(n7 < 256);
}

proof fn lemma_take_name_record(bytes: Seq<u8>, pos: int, record: NameRecord)
    requires
        stands_at(bytes, pos, name_record_encoding(record@)),
        pos + name_record_encoding(record@).len() == bytes.len(),
    ensures
        take_name_record(bytes, pos) == Some(record@),
{
    let view = record@;
    let number = le_bytes(view.expiration_timestamp_ms, 8);
    let target = optional_address_encoding(view.target_address);
    let count = uleb128(0);
    lemma_u64_round_trip(view.expiration_timestamp_ms);
    lemma_stands_at_split(bytes, pos, view.nft_id + number + target, count);
    lemma_stands_at_split(bytes, pos, view.nft_id + number, target);
    lemma_stands_at_split(bytes, pos, view.nft_id, number);
    let at_expiration = pos + 32;
    let at_target = at_expiration + 8;
    let at_count = at_target + target.len();
    assert(take_fixed(bytes, pos, 32) == Some((view.nft_id, at_expiration)));
    assert(take_u64(bytes, at_expiration) == Some((view.expiration_timestamp_ms, at_target)));
    assert(take_optional_address(bytes, at_target) == Some((view.target_address, at_count))) by {
        assert(bytes[at_target] == bytes.subrange(at_target, at_target + target.len())[0]);
        match view.target_address {
            Some(address) => {
                lemma_stands_at_split(bytes, at_target, seq![1u8], address);
            },
            None => {},
        }
    }
    lemma_take_length(bytes, at_count, 0);
    assert(take_length(bytes, at_count) == Some((0nat, at_count + 1)));
    assert(skip_entries(bytes, at_count + 1, 0) == Some(at_count + 1));
}

/// A forward record that was written is read back as it was: the contents
/// written for a domain and a name record decode to that record, and the
/// domain resolves to the target address of the record.
pub proof fn lemma_forward_record_round_trip(
    field_id: ObjectID,
    labels: Seq<Seq<u8>>,
    record: NameRecord,
)
    requires
        is_domain(labels),
        labels.len() <= u32::MAX,
    ensures
        decoded_name_record(forward_record_encoding(field_id, labels, record@)) == Some(record@),
        resolved_address(field_id, Some(forward_record_encoding(field_id, labels, record@)))
            == Ok::<Option<Seq<u8>>, IndexerError>(record@.target_address),
{
    let bytes = forward_record_encoding(field_id, labels, record@);
    let domain = domain_encoding(labels);
    let value = name_record_encoding(record@);
    assert(stands_at(bytes, 0, field_id.0@ + domain + value)) by {
        assert(bytes.subrange(0, bytes.len() as int) =~= bytes);
    }
    lemma_stands_at_split(bytes, 0, field_id.0@ + domain, value);
    lemma_stands_at_split(bytes, 0, field_id.0@, domain);
    lemma_take_domain(bytes, 32, labels);
    lemma_take_name_record(bytes, 32 + domain.len() as int, record);
}

/// A reverse record that was written is read back as it was: the contents
/// written for an address and a domain decode to that domain, and the
/// address has exactly the name that the domain spells.
pub proof fn lemma_reverse_record_round_trip(
    field_id: ObjectID,
    address: MgoAddress,
    labels: Seq<Seq<u8>>,
)
    requires
        is_domain(labels),
        labels.len() <= u32::MAX,
    ensures
        decoded_reverse_record(reverse_record_encoding(field_id, address, labels)) == Some(labels),
        resolved_names(field_id, Some(reverse_record_encoding(field_id, address, labels)))
            == Ok::<Seq<Seq<u8>>, IndexerError>(seq![joined(labels)]),
{
    let bytes = reverse_record_encoding(field_id, address, labels);
    let domain = domain_encoding(labels);
    assert(stands_at(bytes, 0, field_id.0@ + address.0@ + domain)) by {
        assert(bytes.subrange(0, bytes.len() as int) =~= bytes);
    }
    lemma_stands_at_split(bytes, 0, field_id.0@ + address.0@, domain);
    lemma_stands_at_split(bytes, 0, field_id.0@, address.0@);
    lemma_take_domain(bytes, 64, labels);
}

/// A name without a forward record resolves to no address, and an address
/// without a reverse record has no name; neither is a failure.
pub proof fn lemma_absent_record(record_id: ObjectID)
    ensures
        resolved_address(record_id, None) == Ok::<Option<Seq<u8>>, IndexerError>(None),
        resolved_names(record_id, None) == Ok::<Seq<Seq<u8>>, IndexerError>(Seq::empty()),
{
}

} // verus!
