use std::cell::Cell;

use mgo_state_query::api::IndexerApiV2;
use mgo_state_query::dynamic_field::{
    derive_dynamic_field_id, dynamic_object_field_wrapper, DynamicFieldName, PrimitiveType,
    TypeTag,
};
use mgo_state_query::error::{
    ErrorKind, IndexerError, MgoError, NameServiceError, StateReadError, StateReadResult,
};
use mgo_state_query::name_service::{Domain, NameServiceConfig};
use mgo_state_query::object::{MoveStructLayout, Object, ObjectRead, Owner, PastObjectRead};
use mgo_state_query::query::{
    DynamicFieldInfo, DynamicFieldType, EventFilter, MgoEvent, MgoObjectDataFilter,
    MgoObjectResponseQuery, MgoTransactionBlockResponse, MgoTransactionBlockResponseOptions,
    MgoTransactionBlockResponseQuery, TransactionFilter,
};
use mgo_state_query::record::{encode_forward_record, encode_reverse_record, NameRecord};
use mgo_state_query::response::{
    ConversionError, DisplayFieldsResponse, MgoObjectDataOptions, MgoObjectResponseError,
};
use mgo_state_query::state::StateRead;
use mgo_state_query::types::{
    EventID, MgoAddress, ObjectDigest, ObjectID, SequenceNumber, TransactionDigest,
};

fn id(n: u8) -> ObjectID {
    let mut bytes = [0u8; 32];
    bytes[31] = n;
    ObjectID(bytes)
}

fn digest(n: u8) -> TransactionDigest {
    TransactionDigest([n; 32])
}

/// A stored object: its id, its contents and whether its layout is known.
struct Stored {
    id: ObjectID,
    contents: Vec<u8>,
    with_layout: bool,
}

/// A state held in memory. Rows are kept in the order of their keys.
struct MemoryState {
    objects: Vec<Stored>,
    owned: Vec<ObjectID>,
    field_ids: Vec<ObjectID>,
    transactions: Vec<TransactionDigest>,
    events: Vec<EventID>,
    unrenderable: Vec<ObjectID>,
    reads: Cell<usize>,
}

impl MemoryState {
    fn new() -> Self {
        MemoryState {
            objects: vec![],
            owned: vec![],
            field_ids: vec![],
            transactions: vec![],
            events: vec![],
            unrenderable: vec![],
            reads: Cell::new(0),
        }
    }

    fn touch(&self) {
        self.reads.set(self.reads.get() + 1);
    }

    fn object(stored: &Stored) -> Object {
        Object {
            type_: "0x2::coin::Coin".to_string(),
            owner: Owner::AddressOwner(MgoAddress([1; 32])),
            previous_transaction: digest(3),
            storage_rebate: 10,
            contents: stored.contents.clone(),
        }
    }

    fn read(&self, object_id: &ObjectID) -> ObjectRead {
        match self.objects.iter().find(|s| s.id == *object_id) {
            Some(stored) => ObjectRead::Exists(
                (stored.id, SequenceNumber(1), ObjectDigest([5; 32])),
                Self::object(stored),
                if stored.with_layout {
                    Some(MoveStructLayout { type_: "0x2::coin::Coin".to_string(), fields: vec![] })
                } else {
                    None
                },
            ),
            None => ObjectRead::NotExists(*object_id),
        }
    }

    fn after<K: PartialEq + Copy>(keys: &[K], cursor: Option<K>, limit: usize) -> Vec<K> {
        let start = match cursor {
            Some(c) => keys.iter().position(|k| *k == c).map(|p| p + 1).unwrap_or(keys.len()),
            None => 0,
        };
        keys[start..].iter().take(limit).copied().collect()
    }
}

impl StateRead for MemoryState {
    fn get_object_read(&self, object_id: &ObjectID) -> StateReadResult<ObjectRead> {
        self.touch();
        Ok(self.read(object_id))
    }

    fn get_past_object_read(
        &self,
        object_id: &ObjectID,
        version: SequenceNumber,
    ) -> StateReadResult<PastObjectRead> {
        self.touch();
        Ok(PastObjectRead::VersionNotFound(*object_id, version))
    }

    fn get_object(&self, object_id: &ObjectID) -> StateReadResult<Option<Object>> {
        self.touch();
        Ok(self.objects.iter().find(|s| s.id == *object_id).map(Self::object))
    }

    fn get_owned_objects(
        &self,
        _: MgoAddress,
        _: Option<MgoObjectDataFilter>,
        cursor: Option<ObjectID>,
        limit: usize,
    ) -> StateReadResult<Vec<ObjectRead>> {
        self.touch();
        Ok(Self::after(&self.owned, cursor, limit).iter().map(|i| self.read(i)).collect())
    }

    fn get_dynamic_fields(
        &self,
        _: ObjectID,
        cursor: Option<ObjectID>,
        limit: usize,
    ) -> StateReadResult<Vec<DynamicFieldInfo>> {
        self.touch();
        Ok(Self::after(&self.field_ids, cursor, limit)
            .into_iter()
            .map(|object_id| DynamicFieldInfo {
                name: DynamicFieldName {
                    type_: TypeTag::primitive(PrimitiveType::U64),
                    bcs_value: vec![object_id.0[31], 0, 0, 0, 0, 0, 0, 0],
                },
                type_: DynamicFieldType::DynamicField,
                object_type: "u64".to_string(),
                object_id,
                version: SequenceNumber(1),
                digest: ObjectDigest([0; 32]),
            })
            .collect())
    }

    fn query_transaction_blocks(
        &self,
        _: Option<TransactionFilter>,
        _: MgoTransactionBlockResponseOptions,
        cursor: Option<TransactionDigest>,
        limit: usize,
        descending: bool,
    ) -> StateReadResult<Vec<MgoTransactionBlockResponse>> {
        self.touch();
        let mut keys = self.transactions.clone();
        if descending {
            keys.reverse();
        }
        Ok(Self::after(&keys, cursor, limit)
            .into_iter()
            .map(|digest| MgoTransactionBlockResponse { digest, checkpoint: None, timestamp_ms: None })
            .collect())
    }

    fn query_events(
        &self,
        _: EventFilter,
        cursor: Option<EventID>,
        limit: usize,
        descending: bool,
    ) -> StateReadResult<Vec<MgoEvent>> {
        self.touch();
        let mut keys = self.events.clone();
        if descending {
            keys.reverse();
        }
        Ok(Self::after(&keys, cursor, limit)
            .into_iter()
            .map(|id| MgoEvent {
                id,
                package_id: ObjectID([2; 32]),
                transaction_module: "m".to_string(),
                sender: MgoAddress([1; 32]),
                type_: "0x2::m::E".to_string(),
                bcs: vec![],
                timestamp_ms: None,
            })
            .collect())
    }

    fn get_display_fields(
        &self,
        object: &Object,
        _: &Option<MoveStructLayout>,
    ) -> StateReadResult<DisplayFieldsResponse> {
        self.touch();
        let broken = self
            .unrenderable
            .iter()
            .any(|i| self.objects.iter().any(|s| s.id == *i && s.contents == object.contents));
        if broken {
            Err(StateReadError::from(MgoError::Unknown("no display template".to_string())))
        } else {
            Ok(DisplayFieldsResponse {
                fields: vec![("name".to_string(), format!("{:?}", object.contents))],
            })
        }
    }

    fn get_total_transaction_blocks(&self) -> StateReadResult<u64> {
        self.touch();
        Ok(self.transactions.len() as u64)
    }

    fn get_latest_checkpoint_sequence_number(&self) -> StateReadResult<u64> {
        self.touch();
        Ok(0)
    }
}

fn state_with_fields(n: u8) -> MemoryState {
    let mut state = MemoryState::new();
    state.field_ids = (1..=n).map(id).collect();
    state
}

#[test]
fn zero_limit_reads_nothing() {
    let mut state = state_with_fields(3);
    state.owned = vec![id(1)];
    state.transactions = vec![digest(1)];
    let api = IndexerApiV2::new(state);

    let page = api.get_dynamic_fields(id(9), None, Some(0)).unwrap();
    assert!(page.data.is_empty());
    assert_eq!(page.next_cursor, None);
    assert!(!page.has_next_page);

    let page = api.get_owned_objects(MgoAddress([1; 32]), None, None, Some(0)).unwrap();
    assert!(page.data.is_empty());
    assert_eq!(page.next_cursor, None);
    assert!(!page.has_next_page);

    let page = api
        .query_events(EventFilter::Sender(MgoAddress([1; 32])), None, Some(0), None)
        .unwrap();
    assert!(page.data.is_empty());
    assert_eq!(page.next_cursor, None);
    assert!(!page.has_next_page);

    let page = api
        .query_transaction_blocks(
            MgoTransactionBlockResponseQuery { filter: None, options: None },
            None,
            Some(0),
            None,
        )
        .unwrap();
    assert!(page.data.is_empty());
    assert_eq!(page.next_cursor, None);
    assert!(!page.has_next_page);
}

#[test]
fn page_is_cut_to_the_limit() {
    let api = IndexerApiV2::new(state_with_fields(5));
    let page = api.get_dynamic_fields(id(9), None, Some(2)).unwrap();
    let ids: Vec<ObjectID> = page.data.iter().map(|f| f.object_id).collect();
    assert_eq!(ids, vec![id(1), id(2)]);
    assert!(page.has_next_page);
    assert_eq!(page.next_cursor, Some(id(2)));
}

#[test]
fn last_page_has_no_next() {
    let api = IndexerApiV2::new(state_with_fields(5));
    let page = api.get_dynamic_fields(id(9), Some(id(3)), Some(2)).unwrap();
    let ids: Vec<ObjectID> = page.data.iter().map(|f| f.object_id).collect();
    assert_eq!(ids, vec![id(4), id(5)]);
    assert!(!page.has_next_page);
    assert_eq!(page.next_cursor, Some(id(5)));

    let page = api.get_dynamic_fields(id(9), Some(id(5)), Some(2)).unwrap();
    assert!(page.data.is_empty());
    assert!(!page.has_next_page);
    assert_eq!(page.next_cursor, None);
}

#[test]
fn pages_follow_each_other_without_gap_or_repeat() {
    let api = IndexerApiV2::new(state_with_fields(7));
    let mut seen = vec![];
    let mut cursor = None;
    loop {
        let page = api.get_dynamic_fields(id(9), cursor, Some(3)).unwrap();
        assert!(page.data.len() <= 3);
        seen.extend(page.data.iter().map(|f| f.object_id));
        if !page.has_next_page {
            break;
        }
        cursor = page.next_cursor;
    }
    assert_eq!(seen, (1..=7).map(id).collect::<Vec<_>>());
}

#[test]
fn limit_above_the_maximum_is_capped() {
    let api = IndexerApiV2::new(state_with_fields(60));
    let page = api.get_dynamic_fields(id(9), None, Some(1000)).unwrap();
    assert_eq!(page.data.len(), 50);
    assert!(page.has_next_page);
    assert_eq!(page.next_cursor, Some(id(50)));

    let page = api.get_dynamic_fields(id(9), None, None).unwrap();
    assert_eq!(page.data.len(), 50);
}

#[test]
fn same_listing_twice_gives_the_same_page() {
    let api = IndexerApiV2::new(state_with_fields(5));
    let first = api.get_dynamic_fields(id(9), Some(id(1)), Some(2)).unwrap();
    let second = api.get_dynamic_fields(id(9), Some(id(1)), Some(2)).unwrap();
    assert_eq!(first.data, second.data);
    assert_eq!(first.next_cursor, second.next_cursor);
    assert_eq!(first.has_next_page, second.has_next_page);
}

#[test]
fn transactions_are_listed_in_both_directions() {
    let mut state = MemoryState::new();
    state.transactions = (1..=4).map(digest).collect();
    let api = IndexerApiV2::new(state);
    let query = || MgoTransactionBlockResponseQuery {
        filter: Some(TransactionFilter::FromAddress(MgoAddress([1; 32]))),
        options: None,
    };
    let page = api.query_transaction_blocks(query(), None, Some(3), None).unwrap();
    let digests: Vec<_> = page.data.iter().map(|t| t.digest).collect();
    assert_eq!(digests, vec![digest(1), digest(2), digest(3)]);
    assert!(page.has_next_page);
    assert_eq!(page.next_cursor, Some(digest(3)));

    let page = api.query_transaction_blocks(query(), None, Some(3), Some(true)).unwrap();
    let digests: Vec<_> = page.data.iter().map(|t| t.digest).collect();
    assert_eq!(digests, vec![digest(4), digest(3), digest(2)]);
    assert_eq!(page.next_cursor, Some(digest(2)));
}

#[test]
fn events_are_listed_after_the_cursor() {
    let mut state = MemoryState::new();
    state.events = (0..4).map(|n| EventID { tx_digest: digest(1), event_seq: n }).collect();
    let api = IndexerApiV2::new(state);
    let cursor = EventID { tx_digest: digest(1), event_seq: 0 };
    let page = api
        .query_events(EventFilter::Transaction(digest(1)), Some(cursor), Some(2), None)
        .unwrap();
    let seqs: Vec<_> = page.data.iter().map(|e| e.id.event_seq).collect();
    assert_eq!(seqs, vec![1, 2]);
    assert!(page.has_next_page);
    assert_eq!(page.next_cursor, Some(EventID { tx_digest: digest(1), event_seq: 2 }));
}

fn state_with_owned(n: u8) -> MemoryState {
    let mut state = MemoryState::new();
    for k in 1..=n {
        state.objects.push(Stored { id: id(k), contents: vec![k], with_layout: true });
        state.owned.push(id(k));
    }
    state
}

fn display_query() -> Option<MgoObjectResponseQuery> {
    let mut options = MgoObjectDataOptions::new();
    options.show_display = true;
    Some(MgoObjectResponseQuery { filter: None, options: Some(options) })
}

#[test]
fn render_failure_degrades_one_item_only() {
    let mut state = state_with_owned(4);
    state.unrenderable = vec![id(3)];
    let api = IndexerApiV2::new(state);
    let page = api.get_owned_objects(MgoAddress([1; 32]), display_query(), None, Some(10)).unwrap();
    assert_eq!(page.data.len(), 4);
    for (k, response) in page.data.iter().enumerate() {
        let data = response.data.as_ref().unwrap();
        assert_eq!(data.object_id, id(k as u8 + 1));
        if k == 2 {
            assert_eq!(data.display, None);
            assert_eq!(
                response.error,
                Some(MgoObjectResponseError::DisplayError {
                    error: "no display template".to_string()
                })
            );
        } else {
            assert_eq!(
                data.display,
                Some(DisplayFieldsResponse {
                    fields: vec![("name".to_string(), format!("{:?}", vec![k as u8 + 1]))]
                })
            );
            assert_eq!(response.error, None);
        }
    }
    assert!(!page.has_next_page);
    assert_eq!(page.next_cursor, Some(id(4)));
}

#[test]
fn owned_objects_cursor_comes_from_the_last_kept_read() {
    let mut state = state_with_owned(3);
    state.owned.insert(1, id(77));
    let api = IndexerApiV2::new(state);
    let page = api.get_owned_objects(MgoAddress([1; 32]), None, None, Some(2)).unwrap();
    assert_eq!(page.data.len(), 2);
    assert_eq!(page.data[0].data.as_ref().unwrap().object_id, id(1));
    assert_eq!(page.data[1].data, None);
    assert_eq!(
        page.data[1].error,
        Some(MgoObjectResponseError::NotExists { object_id: id(77) })
    );
    assert!(page.has_next_page);
    assert_eq!(page.next_cursor, Some(id(77)));
}

#[test]
fn unbuildable_response_fails_the_page() {
    let mut state = state_with_owned(3);
    state.objects[1].with_layout = false;
    let api = IndexerApiV2::new(state);
    let mut options = MgoObjectDataOptions::new();
    options.show_content = true;
    let query = Some(MgoObjectResponseQuery { filter: None, options: Some(options) });
    let err = api.get_owned_objects(MgoAddress([1; 32]), query, None, Some(10)).unwrap_err();
    assert!(matches!(
        err,
        IndexerError::DataTransformationError(ConversionError::LayoutRequired { object_id })
            if object_id == id(2)
    ));
    assert_eq!(err.kind(), ErrorKind::Internal);
}

fn field_name() -> DynamicFieldName {
    DynamicFieldName {
        type_: TypeTag::primitive(PrimitiveType::U64),
        bcs_value: vec![7, 0, 0, 0, 0, 0, 0, 0],
    }
}

fn field_ids(parent: ObjectID) -> (ObjectID, ObjectID) {
    let name = field_name();
    let plain = derive_dynamic_field_id(parent, &name.type_, &name.bcs_value);
    let wrapper = dynamic_object_field_wrapper(name.type_);
    let wrapped = derive_dynamic_field_id(parent, &wrapper, &name.bcs_value);
    (plain, wrapped)
}

#[test]
fn plain_field_wins_over_wrapped_field() {
    let parent = id(9);
    let (plain, wrapped) = field_ids(parent);
    assert_ne!(plain, wrapped);
    let mut state = MemoryState::new();
    state.objects.push(Stored { id: wrapped, contents: vec![2], with_layout: true });
    state.objects.push(Stored { id: plain, contents: vec![1], with_layout: true });
    let api = IndexerApiV2::new(state);
    let response = api.get_dynamic_field_object(parent, field_name()).unwrap();
    let data = response.data.unwrap();
    assert_eq!(data.object_id, plain);
    assert_eq!(data.content.unwrap().contents, vec![1]);
    assert_eq!(response.error, None);
}

#[test]
fn wrapped_field_is_found_second() {
    let parent = id(9);
    let (_, wrapped) = field_ids(parent);
    let mut state = MemoryState::new();
    state.objects.push(Stored { id: wrapped, contents: vec![2], with_layout: true });
    let api = IndexerApiV2::new(state);
    let response = api.get_dynamic_field_object(parent, field_name()).unwrap();
    let data = response.data.unwrap();
    assert_eq!(data.object_id, wrapped);
    assert_eq!(data.owner, Some(Owner::AddressOwner(MgoAddress([1; 32]))));
    assert_eq!(data.display, None);
}

#[test]
fn absent_field_is_a_response_not_an_error() {
    let parent = id(9);
    let api = IndexerApiV2::new(MemoryState::new());
    let response = api.get_dynamic_field_object(parent, field_name()).unwrap();
    assert_eq!(response.data, None);
    assert_eq!(
        response.error,
        Some(MgoObjectResponseError::DynamicFieldNotFound { parent_object_id: parent })
    );
}

#[test]
fn name_without_record_resolves_to_none() {
    let api = IndexerApiV2::new(MemoryState::new());
    assert_eq!(api.resolve_name_service_address("a.b.mgo".to_string()).unwrap(), None);
}

#[test]
fn name_with_record_resolves_to_its_target() {
    let config = NameServiceConfig::new(MgoAddress([8; 32]), id(20), id(21));
    let domain = Domain::parse("a.b.mgo").unwrap();
    let record_id = config.record_field_id(&domain);
    let target = MgoAddress([42; 32]);
    let record = NameRecord {
        nft_id: id(5),
        expiration_timestamp_ms: 1_700_000_000_000,
        target_address: Some(target),
    };
    let mut state = MemoryState::new();
    state.objects.push(Stored {
        id: record_id,
        contents: encode_forward_record(record_id, &domain, &record),
        with_layout: false,
    });
    let api = IndexerApiV2::with_name_service(state, config);
    assert_eq!(api.resolve_name_service_address("a.b.mgo".to_string()).unwrap(), Some(target));
    assert_eq!(api.resolve_name_service_address("x.b.mgo".to_string()).unwrap(), None);
}

#[test]
fn record_without_target_resolves_to_none() {
    let config = NameServiceConfig::default();
    let domain = Domain::parse("a.b.mgo").unwrap();
    let record_id = config.record_field_id(&domain);
    let record = NameRecord { nft_id: id(5), expiration_timestamp_ms: 0, target_address: None };
    let mut state = MemoryState::new();
    state.objects.push(Stored {
        id: record_id,
        contents: encode_forward_record(record_id, &domain, &record),
        with_layout: false,
    });
    let api = IndexerApiV2::new(state);
    assert_eq!(api.resolve_name_service_address("a.b.mgo".to_string()).unwrap(), None);
}

#[test]
fn malformed_name_is_a_client_error_and_reads_nothing() {
    let api = IndexerApiV2::new(MemoryState::new());
    let err = api.resolve_name_service_address("a..mgo".to_string()).unwrap_err();
    assert!(matches!(
        err,
        IndexerError::InvalidArgumentError(NameServiceError::InvalidLength(0, 1, 63))
    ));
    assert_eq!(err.kind(), ErrorKind::Client);
}

#[test]
fn malformed_record_is_an_internal_error() {
    let config = NameServiceConfig::default();
    let domain = Domain::parse("a.b.mgo").unwrap();
    let record_id = config.record_field_id(&domain);
    let mut state = MemoryState::new();
    state.objects.push(Stored { id: record_id, contents: vec![1, 2, 3], with_layout: false });
    let api = IndexerApiV2::new(state);
    let err = api.resolve_name_service_address("a.b.mgo".to_string()).unwrap_err();
    assert!(matches!(
        err,
        IndexerError::PersistentStorageDataCorruptionError(i) if i == record_id
    ));
    assert_eq!(err.kind(), ErrorKind::Internal);
}

#[test]
fn address_without_reverse_record_has_no_name() {
    let api = IndexerApiV2::new(MemoryState::new());
    let page = api.resolve_name_service_names(MgoAddress([4; 32]), None, None).unwrap();
    assert!(page.data.is_empty());
    assert!(!page.has_next_page);
    assert_eq!(page.next_cursor, None);
}

#[test]
fn address_with_reverse_record_has_one_name() {
    let config = NameServiceConfig::default();
    let address = MgoAddress([4; 32]);
    let domain = Domain::parse("a.b.mgo").unwrap();
    let record_id = config.reverse_record_field_id(&address);
    let mut state = MemoryState::new();
    state.objects.push(Stored {
        id: record_id,
        contents: encode_reverse_record(record_id, address, &domain),
        with_layout: false,
    });
    let api = IndexerApiV2::new(state);
    let page = api.resolve_name_service_names(address, Some(id(1)), Some(0)).unwrap();
    assert_eq!(page.data, vec!["a.b.mgo".to_string()]);
    assert!(!page.has_next_page);
    assert_eq!(page.next_cursor, None);
}

#[test]
fn failed_read_keeps_its_kind() {
    struct NoIndex;
    impl StateRead for NoIndex {
        fn get_object_read(&self, _: &ObjectID) -> StateReadResult<ObjectRead> {
            Err(StateReadError::from(MgoError::IndexStoreNotAvailable))
        }
        fn get_past_object_read(
            &self,
            _: &ObjectID,
            _: SequenceNumber,
        ) -> StateReadResult<PastObjectRead> {
            Err(StateReadError::from(MgoError::IndexStoreNotAvailable))
        }
        fn get_object(&self, _: &ObjectID) -> StateReadResult<Option<Object>> {
            Err(StateReadError::from(MgoError::StorageError("io".to_string())))
        }
        fn get_owned_objects(
            &self,
            _: MgoAddress,
            _: Option<MgoObjectDataFilter>,
            _: Option<ObjectID>,
            _: usize,
        ) -> StateReadResult<Vec<ObjectRead>> {
            Err(StateReadError::from(MgoError::IndexStoreNotAvailable))
        }
        fn get_dynamic_fields(
            &self,
            _: ObjectID,
            _: Option<ObjectID>,
            _: usize,
        ) -> StateReadResult<Vec<DynamicFieldInfo>> {
            Err(StateReadError::from(MgoError::IndexStoreNotAvailable))
        }
        fn query_transaction_blocks(
            &self,
            _: Option<TransactionFilter>,
            _: MgoTransactionBlockResponseOptions,
            _: Option<TransactionDigest>,
            _: usize,
            _: bool,
        ) -> StateReadResult<Vec<MgoTransactionBlockResponse>> {
            Err(StateReadError::from(MgoError::IndexStoreNotAvailable))
        }
        fn query_events(
            &self,
            _: EventFilter,
            _: Option<EventID>,
            _: usize,
            _: bool,
        ) -> StateReadResult<Vec<MgoEvent>> {
            Err(StateReadError::from(MgoError::IndexStoreNotAvailable))
        }
        fn get_display_fields(
            &self,
            _: &Object,
            _: &Option<MoveStructLayout>,
        ) -> StateReadResult<DisplayFieldsResponse> {
            Err(StateReadError::from(MgoError::IndexStoreNotAvailable))
        }
        fn get_total_transaction_blocks(&self) -> StateReadResult<u64> {
            Err(StateReadError::from(MgoError::IndexStoreNotAvailable))
        }
        fn get_latest_checkpoint_sequence_number(&self) -> StateReadResult<u64> {
            Err(StateReadError::from(MgoError::IndexStoreNotAvailable))
        }
    }
    let api = IndexerApiV2::new(NoIndex);
    let err = api.get_dynamic_fields(id(9), None, Some(3)).unwrap_err();
    assert_eq!(err.kind(), ErrorKind::Client);
    let err = api.resolve_name_service_address("a.b.mgo".to_string()).unwrap_err();
    assert_eq!(err.kind(), ErrorKind::Internal);
    let err = api.get_dynamic_field_object(id(9), field_name()).unwrap_err();
    assert!(matches!(err, IndexerError::StateReadError(_)));
}

/// A state that must not be read.
struct Untouchable;

impl StateRead for Untouchable {
    fn get_object_read(&self, _: &ObjectID) -> StateReadResult<ObjectRead> {
        panic!("the state was read")
    }
    fn get_past_object_read(
        &self,
        _: &ObjectID,
        _: SequenceNumber,
    ) -> StateReadResult<PastObjectRead> {
        panic!("the state was read")
    }
    fn get_object(&self, _: &ObjectID) -> StateReadResult<Option<Object>> {
        panic!("the state was read")
    }
    fn get_owned_objects(
        &self,
        _: MgoAddress,
        _: Option<MgoObjectDataFilter>,
        _: Option<ObjectID>,
        _: usize,
    ) -> StateReadResult<Vec<ObjectRead>> {
        panic!("the state was read")
    }
    fn get_dynamic_fields(
        &self,
        _: ObjectID,
        _: Option<ObjectID>,
        _: usize,
    ) -> StateReadResult<Vec<DynamicFieldInfo>> {
        panic!("the state was read")
    }
    fn query_transaction_blocks(
        &self,
        _: Option<TransactionFilter>,
        _: MgoTransactionBlockResponseOptions,
        _: Option<TransactionDigest>,
        _: usize,
        _: bool,
    ) -> StateReadResult<Vec<MgoTransactionBlockResponse>> {
        panic!("the state was read")
    }
    fn query_events(
        &self,
        _: EventFilter,
        _: Option<EventID>,
        _: usize,
        _: bool,
    ) -> StateReadResult<Vec<MgoEvent>> {
        panic!("the state was read")
    }
    fn get_display_fields(
        &self,
        _: &Object,
        _: &Option<MoveStructLayout>,
    ) -> StateReadResult<DisplayFieldsResponse> {
        panic!("the state was read")
    }
    fn get_total_transaction_blocks(&self) -> StateReadResult<u64> {
        panic!("the state was read")
    }
    fn get_latest_checkpoint_sequence_number(&self) -> StateReadResult<u64> {
        panic!("the state was read")
    }
}

#[test]
fn zero_limit_never_touches_the_state() {
    let api = IndexerApiV2::new(Untouchable);
    assert!(api.get_dynamic_fields(id(9), None, Some(0)).unwrap().data.is_empty());
    assert!(api
        .get_owned_objects(MgoAddress([1; 32]), display_query(), Some(id(1)), Some(0))
        .unwrap()
        .data
        .is_empty());
    assert!(api
        .query_events(EventFilter::Package(id(2)), None, Some(0), Some(true))
        .unwrap()
        .data
        .is_empty());
    assert!(api
        .query_transaction_blocks(
            MgoTransactionBlockResponseQuery { filter: None, options: None },
            Some(digest(1)),
            Some(0),
            Some(false),
        )
        .unwrap()
        .data
        .is_empty());
}

#[test]
fn malformed_name_never_touches_the_state() {
    let api = IndexerApiV2::new(Untouchable);
    let err = api.resolve_name_service_address("not a name".to_string()).unwrap_err();
    assert!(matches!(err, IndexerError::InvalidArgumentError(NameServiceError::LabelsEmpty)
        | IndexerError::InvalidArgumentError(NameServiceError::InvalidUnderscore)));
}
