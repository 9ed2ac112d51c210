use mgo_state_query::error::NameServiceError;
use mgo_state_query::name_service::{validate_label, Domain, NameServiceConfig};
use mgo_state_query::record::{
    decode_name_record, decode_reverse_record, encode_forward_record, encode_reverse_record,
    resolve_address, resolve_names, NameRecord,
};
use mgo_state_query::error::{ErrorKind, IndexerError};
use mgo_state_query::object::{Object, Owner};
use mgo_state_query::types::{MgoAddress, ObjectID, TransactionDigest};

fn labels(domain: &Domain) -> Vec<Vec<u8>> {
    (0..domain.num_labels()).map(|i| domain.label(i).unwrap().to_vec()).collect()
}

#[test]
fn name_is_parsed_into_labels_top_level_first() {
    let domain = Domain::parse("a.b.mgo").unwrap();
    assert_eq!(domain.num_labels(), 3);
    assert_eq!(labels(&domain), vec![b"mgo".to_vec(), b"b".to_vec(), b"a".to_vec()]);
    assert_eq!(domain.label(3), None);
}

#[test]
fn parsed_name_is_spelled_back() {
    for name in ["a.b.mgo", "example.mgo", "x-1.y2.z3.mgo", "0.0"] {
        let domain = Domain::parse(name).unwrap();
        assert_eq!(domain.to_string(), name);
        assert_eq!(domain.name_bytes(), name.as_bytes());
        assert_eq!(Domain::parse(&domain.to_string()).unwrap(), domain);
    }
}

#[test]
fn name_of_one_label_is_turned_down() {
    assert_eq!(Domain::parse("mgo"), Err(NameServiceError::LabelsEmpty));
}

#[test]
fn empty_label_is_turned_down() {
    assert_eq!(Domain::parse(""), Err(NameServiceError::InvalidLength(0, 1, 63)));
    assert_eq!(Domain::parse("a..mgo"), Err(NameServiceError::InvalidLength(0, 1, 63)));
    assert_eq!(Domain::parse(".mgo"), Err(NameServiceError::InvalidLength(0, 1, 63)));
    assert_eq!(Domain::parse("a.mgo."), Err(NameServiceError::InvalidLength(0, 1, 63)));
}

#[test]
fn label_length_is_bounded() {
    let longest = "a".repeat(63);
    assert!(Domain::parse(&format!("{longest}.mgo")).is_ok());
    let too_long = "a".repeat(64);
    assert_eq!(
        Domain::parse(&format!("{too_long}.mgo")),
        Err(NameServiceError::InvalidLength(64, 1, 63))
    );
}

#[test]
fn name_length_is_bounded() {
    let label = "a".repeat(49);
    let name = format!("{label}.{label}.{label}.{label}");
    assert_eq!(name.len(), 199);
    assert!(Domain::parse(&name).is_ok());
    let name = format!("{label}.{label}.{label}.{label}a");
    assert_eq!(name.len(), 200);
    assert!(Domain::parse(&name).is_ok());
    let name = format!("{label}.{label}.{label}.{label}aa");
    assert_eq!(Domain::parse(&name), Err(NameServiceError::ExceedsMaxLength(201, 200)));
}

#[test]
fn hyphen_at_an_end_is_turned_down() {
    assert_eq!(Domain::parse("-a.mgo"), Err(NameServiceError::InvalidHyphens));
    assert_eq!(Domain::parse("a-.mgo"), Err(NameServiceError::InvalidHyphens));
    assert_eq!(Domain::parse("-.mgo"), Err(NameServiceError::InvalidHyphens));
    assert!(Domain::parse("a-b.mgo").is_ok());
    assert!(Domain::parse("a--b.mgo").is_ok());
}

#[test]
fn other_characters_are_turned_down() {
    assert_eq!(Domain::parse("a_b.mgo"), Err(NameServiceError::InvalidUnderscore));
    assert_eq!(Domain::parse("A.mgo"), Err(NameServiceError::InvalidUnderscore));
    assert_eq!(Domain::parse("a b.mgo"), Err(NameServiceError::InvalidUnderscore));
    assert_eq!(Domain::parse("é.mgo"), Err(NameServiceError::InvalidUnderscore));
}

#[test]
fn last_label_is_judged_first() {
    assert_eq!(Domain::parse("-x.y_"), Err(NameServiceError::InvalidUnderscore));
    assert_eq!(Domain::parse("x_.-y"), Err(NameServiceError::InvalidHyphens));
    assert_eq!(Domain::parse("_-"), Err(NameServiceError::InvalidUnderscore));
    assert_eq!(Domain::parse("a_."), Err(NameServiceError::InvalidLength(0, 1, 63)));
}

#[test]
fn label_is_judged_by_length_then_bytes() {
    assert_eq!(validate_label(b"abc-123"), None);
    assert_eq!(validate_label(b""), Some(NameServiceError::InvalidLength(0, 1, 63)));
    assert_eq!(validate_label(&[b'-'; 64]), Some(NameServiceError::InvalidLength(64, 1, 63)));
    assert_eq!(validate_label(b"a.b"), Some(NameServiceError::InvalidUnderscore));
    assert_eq!(validate_label(b"ab-"), Some(NameServiceError::InvalidHyphens));
    assert_eq!(validate_label(b"a_-"), Some(NameServiceError::InvalidUnderscore));
}

#[test]
fn domain_is_built_from_labels() {
    let domain = Domain::from_labels(vec![b"mgo".to_vec(), b"b".to_vec()]).unwrap();
    assert_eq!(domain.to_string(), "b.mgo");
    assert_eq!(Domain::from_labels(vec![b"mgo".to_vec()]), None);
    assert_eq!(Domain::from_labels(vec![b"mgo".to_vec(), b"B".to_vec()]), None);
    assert_eq!(Domain::from_labels(vec![]), None);
}

#[test]
fn domain_encodes_as_count_and_prefixed_labels() {
    let domain = Domain::parse("ab.mgo").unwrap();
    let mut out = vec![0xee];
    domain.encode_into(&mut out);
    assert_eq!(out, vec![0xee, 2, 3, b'm', b'g', b'o', 2, b'a', b'b']);
}

#[test]
fn record_ids_differ_by_domain_address_and_table() {
    let config = NameServiceConfig::new(MgoAddress([8; 32]), ObjectID([1; 32]), ObjectID([2; 32]));
    let a = config.record_field_id(&Domain::parse("a.mgo").unwrap());
    let b = config.record_field_id(&Domain::parse("b.mgo").unwrap());
    assert_ne!(a, b);
    assert_eq!(a, config.record_field_id(&Domain::parse("a.mgo").unwrap()));
    let other = NameServiceConfig::new(MgoAddress([8; 32]), ObjectID([3; 32]), ObjectID([2; 32]));
    assert_ne!(a, other.record_field_id(&Domain::parse("a.mgo").unwrap()));
    let r1 = config.reverse_record_field_id(&MgoAddress([5; 32]));
    let r2 = config.reverse_record_field_id(&MgoAddress([6; 32]));
    assert_ne!(r1, r2);
    assert_ne!(r1, a);
}

#[test]
fn default_name_service_sits_at_the_zero_address() {
    let config = NameServiceConfig::default();
    assert_eq!(config.package_address, MgoAddress([0; 32]));
    assert_eq!(config.registry_id, ObjectID([0; 32]));
    assert_eq!(config.reverse_registry_id, ObjectID([0; 32]));
}

fn record() -> NameRecord {
    NameRecord {
        nft_id: ObjectID([5; 32]),
        expiration_timestamp_ms: 0x0102_0304_0506_0708,
        target_address: Some(MgoAddress([42; 32])),
    }
}

#[test]
fn forward_record_has_the_documented_layout() {
    let domain = Domain::parse("a.mgo").unwrap();
    let bytes = encode_forward_record(ObjectID([9; 32]), &domain, &record());
    let mut expected = vec![9; 32];
    expected.extend_from_slice(&[2, 3, b'm', b'g', b'o', 1, b'a']);
    expected.extend_from_slice(&[5; 32]);
    expected.extend_from_slice(&[8, 7, 6, 5, 4, 3, 2, 1]);
    expected.push(1);
    expected.extend_from_slice(&[42; 32]);
    expected.push(0);
    assert_eq!(bytes, expected);
}

#[test]
fn forward_record_is_read_back() {
    let domain = Domain::parse("a.b.mgo").unwrap();
    let bytes = encode_forward_record(ObjectID([9; 32]), &domain, &record());
    assert_eq!(decode_name_record(&bytes), Some(record()));
    let mut no_target = record();
    no_target.target_address = None;
    let bytes = encode_forward_record(ObjectID([9; 32]), &domain, &no_target);
    assert_eq!(decode_name_record(&bytes), Some(no_target));
}

#[test]
fn forward_record_with_further_entries_is_read() {
    let domain = Domain::parse("a.mgo").unwrap();
    let mut bytes = encode_forward_record(ObjectID([9; 32]), &domain, &record());
    bytes.pop();
    bytes.extend_from_slice(&[2, 1, b'k', 1, b'v', 0, 3, b'x', b'y', b'z']);
    assert_eq!(decode_name_record(&bytes), Some(record()));
}

#[test]
fn malformed_forward_record_is_not_read() {
    let domain = Domain::parse("a.mgo").unwrap();
    let good = encode_forward_record(ObjectID([9; 32]), &domain, &record());
    assert_eq!(decode_name_record(&[]), None);
    assert_eq!(decode_name_record(&good[..good.len() - 1]), None);
    let mut trailing = good.clone();
    trailing.push(0);
    assert_eq!(decode_name_record(&trailing), None);
    let mut bad_option = good.clone();
    bad_option[32 + 7 + 32 + 8] = 2;
    assert_eq!(decode_name_record(&bad_option), None);
    let mut bad_label = good.clone();
    bad_label[32 + 6] = b'A';
    assert_eq!(decode_name_record(&bad_label), None);
    let mut long_count = good.clone();
    long_count.splice(32..33, [0x82, 0x00]);
    assert_eq!(decode_name_record(&long_count), None);
    let mut missing_entry = good.clone();
    let last = missing_entry.len() - 1;
    missing_entry[last] = 1;
    assert_eq!(decode_name_record(&missing_entry), None);
}

#[test]
fn reverse_record_is_read_back() {
    let domain = Domain::parse("a.b.mgo").unwrap();
    let bytes = encode_reverse_record(ObjectID([9; 32]), MgoAddress([4; 32]), &domain);
    let mut expected = vec![9; 32];
    expected.extend_from_slice(&[4; 32]);
    expected.extend_from_slice(&[3, 3, b'm', b'g', b'o', 1, b'b', 1, b'a']);
    assert_eq!(bytes, expected);
    assert_eq!(decode_reverse_record(&bytes), Some(domain));
    assert_eq!(decode_reverse_record(&bytes[..bytes.len() - 1]), None);
    let mut one_label = vec![9; 32];
    one_label.extend_from_slice(&[4; 32]);
    one_label.extend_from_slice(&[1, 3, b'm', b'g', b'o']);
    assert_eq!(decode_reverse_record(&one_label), None);
}

fn stored(contents: Vec<u8>) -> Object {
    Object {
        type_: "field".to_string(),
        owner: Owner::ObjectOwner(MgoAddress([1; 32])),
        previous_transaction: TransactionDigest([0; 32]),
        storage_rebate: 0,
        contents,
    }
}

#[test]
fn address_is_resolved_from_what_is_stored() {
    let record_id = ObjectID([9; 32]);
    let domain = Domain::parse("a.b.mgo").unwrap();
    assert_eq!(resolve_address(record_id, None).unwrap(), None);
    let bytes = encode_forward_record(record_id, &domain, &record());
    assert_eq!(
        resolve_address(record_id, Some(stored(bytes))).unwrap(),
        Some(MgoAddress([42; 32]))
    );
    let err = resolve_address(record_id, Some(stored(vec![1]))).unwrap_err();
    assert!(matches!(err, IndexerError::PersistentStorageDataCorruptionError(i) if i == record_id));
    assert_eq!(err.kind(), ErrorKind::Internal);
}

#[test]
fn names_are_resolved_from_what_is_stored() {
    let record_id = ObjectID([9; 32]);
    let domain = Domain::parse("a.b.mgo").unwrap();
    let page = resolve_names(record_id, None).unwrap();
    assert!(page.data.is_empty());
    assert_eq!(page.next_cursor, None);
    assert!(!page.has_next_page);
    let bytes = encode_reverse_record(record_id, MgoAddress([4; 32]), &domain);
    let page = resolve_names(record_id, Some(stored(bytes))).unwrap();
    assert_eq!(page.data, vec!["a.b.mgo".to_string()]);
    assert_eq!(page.next_cursor, None);
    assert!(!page.has_next_page);
    let err = resolve_names(record_id, Some(stored(vec![]))).unwrap_err();
    assert!(matches!(err, IndexerError::PersistentStorageDataCorruptionError(i) if i == record_id));
}
