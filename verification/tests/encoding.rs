use fastcrypto::hash::{Blake2b256, HashFunction};
use mgo_state_query::dynamic_field::{
    derive_dynamic_field_id, dynamic_object_field_wrapper, mgo_framework_address, PrimitiveType,
    TypeTag,
};
use mgo_state_query::encoding::{push_all, push_length_prefixed, push_u64_le, push_uleb128};
use mgo_state_query::types::{MgoAddress, ObjectID};

fn uleb(n: usize) -> Vec<u8> {
    let mut out = vec![];
    push_uleb128(&mut out, n);
    out
}

#[test]
fn uleb128_of_small_numbers_is_one_byte() {
    assert_eq!(uleb(0), vec![0x00]);
    assert_eq!(uleb(1), vec![0x01]);
    assert_eq!(uleb(127), vec![0x7f]);
}

#[test]
fn uleb128_spreads_over_groups_of_seven_bits() {
    assert_eq!(uleb(128), vec![0x80, 0x01]);
    assert_eq!(uleb(300), vec![0xac, 0x02]);
    assert_eq!(uleb(16_384), vec![0x80, 0x80, 0x01]);
    assert_eq!(uleb(0xffff_ffff), vec![0xff, 0xff, 0xff, 0xff, 0x0f]);
}

#[test]
fn uleb128_is_appended() {
    let mut out = vec![9, 9];
    push_uleb128(&mut out, 128);
    assert_eq!(out, vec![9, 9, 0x80, 0x01]);
}

#[test]
fn u64_is_written_little_endian() {
    let mut out = vec![];
    push_u64_le(&mut out, 0x0102_0304_0506_0708);
    assert_eq!(out, vec![8, 7, 6, 5, 4, 3, 2, 1]);
    let mut out = vec![0xaa];
    push_u64_le(&mut out, 1);
    assert_eq!(out, vec![0xaa, 1, 0, 0, 0, 0, 0, 0, 0]);
    let mut out = vec![];
    push_u64_le(&mut out, u64::MAX);
    assert_eq!(out, vec![0xff; 8]);
}

#[test]
fn bytes_are_appended_with_and_without_length() {
    let mut out = vec![1];
    push_all(&mut out, &[2, 3]);
    assert_eq!(out, vec![1, 2, 3]);
    push_length_prefixed(&mut out, b"abc");
    assert_eq!(out, vec![1, 2, 3, 3, b'a', b'b', b'c']);
    push_length_prefixed(&mut out, &[]);
    assert_eq!(out, vec![1, 2, 3, 3, b'a', b'b', b'c', 0]);
}

#[test]
fn primitive_types_encode_to_their_kind() {
    let kinds = [
        (PrimitiveType::Bool, 0u8),
        (PrimitiveType::U8, 1),
        (PrimitiveType::U64, 2),
        (PrimitiveType::U128, 3),
        (PrimitiveType::Address, 4),
        (PrimitiveType::Signer, 5),
        (PrimitiveType::U16, 8),
        (PrimitiveType::U32, 9),
        (PrimitiveType::U256, 10),
    ];
    for (primitive, kind) in kinds {
        assert_eq!(TypeTag::primitive(primitive).encoding(), &[kind]);
    }
}

#[test]
fn vector_and_struct_types_encode_their_parts() {
    let bytes = TypeTag::primitive(PrimitiveType::U8);
    let vector = TypeTag::vector(&bytes);
    assert_eq!(vector.encoding(), &[6, 1]);
    let nested = TypeTag::vector(&vector);
    assert_eq!(nested.encoding(), &[6, 6, 1]);

    let address = MgoAddress([3; 32]);
    let tag = TypeTag::structure(address, "m", "S", &vec![vector, TypeTag::primitive(PrimitiveType::Bool)]);
    let mut expected = vec![7];
    expected.extend_from_slice(&[3; 32]);
    expected.extend_from_slice(&[1, b'm', 1, b'S', 2, 6, 1, 0]);
    assert_eq!(tag.encoding(), expected.as_slice());
    assert_eq!(TypeTag::from_encoding(expected.clone()).encoding(), expected.as_slice());
}

#[test]
fn wrapper_type_is_the_framework_struct_around_the_key() {
    let framework = mgo_framework_address();
    let mut two = [0u8; 32];
    two[31] = 2;
    assert_eq!(framework, MgoAddress(two));
    let tag = dynamic_object_field_wrapper(TypeTag::primitive(PrimitiveType::U64));
    let mut expected = vec![7];
    expected.extend_from_slice(&two);
    expected.push(20);
    expected.extend_from_slice(b"dynamic_object_field");
    expected.push(7);
    expected.extend_from_slice(b"Wrapper");
    expected.extend_from_slice(&[1, 2]);
    assert_eq!(tag.encoding(), expected.as_slice());
}

#[test]
fn field_id_is_the_hash_of_scope_parent_length_key_and_type() {
    let parent = ObjectID([0x11; 32]);
    let key_type = TypeTag::primitive(PrimitiveType::U64);
    let key = [7u8, 0, 0, 0, 0, 0, 0, 0];
    let id = derive_dynamic_field_id(parent, &key_type, &key);

    let mut preimage = vec![0xf0];
    preimage.extend_from_slice(&[0x11; 32]);
    preimage.extend_from_slice(&[8, 0, 0, 0, 0, 0, 0, 0]);
    preimage.extend_from_slice(&key);
    preimage.push(2);
    assert_eq!(id.0, Blake2b256::digest(&preimage).digest);
    assert_ne!(&id.0[..], &preimage[..32]);
    assert_ne!(id, parent);
}

#[test]
fn field_id_depends_on_every_part_and_on_nothing_else() {
    let parent = ObjectID([0x11; 32]);
    let u64_type = TypeTag::primitive(PrimitiveType::U64);
    let id = derive_dynamic_field_id(parent, &u64_type, &[1, 2]);
    assert_eq!(id, derive_dynamic_field_id(parent, &u64_type, &[1, 2]));
    assert_ne!(id, derive_dynamic_field_id(ObjectID([0x12; 32]), &u64_type, &[1, 2]));
    assert_ne!(id, derive_dynamic_field_id(parent, &u64_type, &[1, 3]));
    assert_ne!(
        id,
        derive_dynamic_field_id(parent, &TypeTag::primitive(PrimitiveType::U8), &[1, 2])
    );
    assert_ne!(
        derive_dynamic_field_id(parent, &u64_type, &[]),
        derive_dynamic_field_id(parent, &u64_type, &[0])
    );
}

#[test]
fn zero_ids_hold_zero_bytes() {
    assert_eq!(ObjectID::zero(), ObjectID([0; 32]));
    assert_eq!(MgoAddress::zero(), MgoAddress([0; 32]));
}
