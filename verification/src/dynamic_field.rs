//! Dynamic fields: how the id of a field is derived from its parent and its
//! name, and how a field is looked up.
//!
//! A dynamic field is stored as an object of its own. Its id is not kept in
//! any index: it is the hash of the parent's id, the encoded name and the
//! type of the name. A field that holds an object is stored under the name's
//! type wrapped in a marker struct, so a lookup tries the plain type first
//! and the wrapped type second.

use vstd::prelude::*;
use vstd::array::array_as_slice;
use vstd::string::StringSliceAdditionalSpecFns;
use fastcrypto::hash::HashFunction;
use crate::encoding::{
    le_bytes, length_prefixed, push_all, push_length_prefixed, push_u64_le, push_uleb128, uleb128,
};
use crate::object::ObjectRead;
use crate::response::{
    full_content_options, object_data, ConversionError, MgoObjectData, MgoObjectDataOptions,
    MgoObjectResponse, MgoObjectResponseError,
};
use crate::types::{MgoAddress, ObjectID};

verus! {

/// A type, held in its canonical encoding: the index of its kind, followed
/// for a vector by the element type and for a struct by the struct tag.
#[derive(Debug, PartialEq, Eq)]
pub struct TypeTag {
    encoding: Vec<u8>,
}

/// The kinds of type without parameters.
#[derive(Clone, Copy, Debug, PartialEq, Eq)]
pub enum PrimitiveType {
    Bool,
    U8,
    U16,
    U32,
    U64,
    U128,
    U256,
    Address,
    Signer,
}

/// Index of the vector kind in the encoding of a type.
pub const VECTOR_KIND: u8 = 6;

/// Index of the struct kind in the encoding of a type.
pub const STRUCT_KIND: u8 = 7;

/// Index of a primitive kind in the encoding of a type.
pub open spec fn primitive_kind(primitive: PrimitiveType) -> u8 {
    match primitive {
        PrimitiveType::Bool => 0,
        PrimitiveType::U8 => 1,
        PrimitiveType::U64 => 2,
        PrimitiveType::U128 => 3,
        PrimitiveType::Address => 4,
        PrimitiveType::Signer => 5,
        PrimitiveType::U16 => 8,
        PrimitiveType::U32 => 9,
        PrimitiveType::U256 => 10,
    }
}

/// The encodings of the given types, one after the other.
pub open spec fn concat_encodings(tags: Seq<TypeTag>) -> Seq<u8>
    decreases tags.len(),
{
    if tags.len() == 0 {
        Seq::empty()
    } else {
        concat_encodings(tags.drop_last()) + tags.last()@
    }
}

/// The encoding of a struct type: the address and the names of the module
/// and the struct that declare it, then its type parameters.
pub open spec fn struct_encoding(
    address: MgoAddress,
    module: Seq<u8>,
    name: Seq<u8>,
    type_params: Seq<TypeTag>,
) -> Seq<u8> {
    seq![STRUCT_KIND] + address.0@ + length_prefixed(module) + length_prefixed(name) + uleb128(
        type_params.len(),
    ) + concat_encodings(type_params)
}

impl View for TypeTag {
    type V = Seq<u8>;

    closed spec fn view(&self) -> Seq<u8> {
        self.encoding@
    }
}

impl TypeTag {
    /// The type with the given canonical encoding.
    pub fn from_encoding(encoding: Vec<u8>) -> (tag: TypeTag)
        ensures
            tag@ == encoding@,
    {
        TypeTag { encoding }
    }

    /// The canonical encoding of the type.
    pub fn encoding(&self) -> (bytes: &[u8])
        ensures
            bytes@ == self@,
    {
        self.encoding.as_slice()
    }

    /// A type without parameters.
    pub fn primitive(primitive: PrimitiveType) -> (tag: TypeTag)
        ensures
            tag@ == seq![primitive_kind(primitive)],
    {
        let kind: u8 = match primitive {
            PrimitiveType::Bool => 0,
            PrimitiveType::U8 => 1,
            PrimitiveType::U64 => 2,
            PrimitiveType::U128 => 3,
            PrimitiveType::Address => 4,
            PrimitiveType::Signer => 5,
            PrimitiveType::U16 => 8,
            PrimitiveType::U32 => 9,
            PrimitiveType::U256 => 10,
        };
        let mut encoding: Vec<u8> = Vec::new();
        encoding.push(kind);
        assert(encoding@ =~= seq![primitive_kind(primitive)]);
        TypeTag { encoding }
    }

    /// The type of vectors of `element`.
    pub fn vector(element: &TypeTag) -> (tag: TypeTag)
        ensures
            tag@ == seq![VECTOR_KIND] + element@,
    {
        let mut encoding: Vec<u8> = Vec::new();
        encoding.push(VECTOR_KIND);
        push_all(&mut encoding, element.encoding());
        assert(encoding@ =~= seq![VECTOR_KIND] + element@);
        TypeTag { encoding }
    }

    /// The struct type `address::module::name<type_params>`.
    pub fn structure(address: MgoAddress, module: &str, name: &str, type_params: &Vec<TypeTag>) -> (tag:
        TypeTag)
        ensures
            tag@ == struct_encoding(address, module.spec_bytes(), name.spec_bytes(), type_params@),
    {
        let mut encoding: Vec<u8> = Vec::new();
        encoding.push(STRUCT_KIND);
        push_all(&mut encoding, array_as_slice(&address.0));
        push_length_prefixed(&mut encoding, module.as_bytes());
        push_length_prefixed(&mut encoding, name.as_bytes());
        push_uleb128(&mut encoding, type_params.len());
        let ghost head = encoding@;
        assert(head =~= seq![STRUCT_KIND] + address.0@ + length_prefixed(module.spec_bytes())
            + length_prefixed(name.spec_bytes()) + uleb128(type_params@.len()));
        let mut i: usize = 0;
        while i < type_params.len()
            invariant
                i <= type_params@.len(),
                encoding@ == head + concat_encodings(type_params@.take(i as int)),
            decreases type_params@.len() - i,
        {
            push_all(&mut encoding, type_params[i].encoding());
            assert(type_params@.take(i + 1).drop_last() =~= type_params@.take(i as int));
            assert(encoding@ =~= head + concat_encodings(type_params@.take(i + 1)));
            i = i + 1;
        }
        assert(type_params@.take(i as int) =~= type_params@);
        TypeTag { encoding }
    }
}

/// The name of a dynamic field: the type of the name and its encoded value.
#[derive(Debug, PartialEq, Eq)]
pub struct DynamicFieldName {
    pub type_: TypeTag,
    pub bcs_value: Vec<u8>,
}

/// Address of the framework package, which declares the dynamic field types.
pub open spec fn framework_address() -> MgoAddress {
    MgoAddress(
        [
            0u8, 0, 0, 0, 0, 0, 0, 0, 0, 0, 0, 0, 0, 0, 0, 0, 0, 0, 0, 0, 0, 0, 0, 0, 0, 0, 0, 0,
            0, 0, 0, 2,
        ],
    )
}

/// Address of the framework package.
pub fn mgo_framework_address() -> (address: MgoAddress)
    ensures
        address == framework_address(),
{
    MgoAddress(
        [
            0u8, 0, 0, 0, 0, 0, 0, 0, 0, 0, 0, 0, 0, 0, 0, 0, 0, 0, 0, 0, 0, 0, 0, 0, 0, 0, 0, 0,
            0, 0, 0, 2,
        ],
    )
}

/// The encoding of the type under which a field that holds an object is
/// stored: the marker struct `dynamic_object_field::Wrapper` of the
/// framework, applied to the type of the name.
pub open spec fn wrapper_encoding(key_type: Seq<u8>) -> Seq<u8> {
    seq![STRUCT_KIND] + framework_address().0@ + length_prefixed(
        "dynamic_object_field".spec_bytes(),
    ) + length_prefixed("Wrapper".spec_bytes()) + uleb128(1) + key_type
}

/// The type under which a field of the given name type is stored when it
/// holds an object.
pub fn dynamic_object_field_wrapper(key: TypeTag) -> (tag: TypeTag)
    ensures
        tag@ == wrapper_encoding(key@),
{
    let ghost key_encoding = key@;
    let mut type_params: Vec<TypeTag> = Vec::new();
    type_params.push(key);
    let tag = TypeTag::structure(
        mgo_framework_address(),
        "dynamic_object_field",
        "Wrapper",
        &type_params,
    );
    proof {
        assert(type_params@.len() == 1);
        assert(type_params@.last()@ == key_encoding);
        assert(type_params@.drop_last() =~= Seq::<TypeTag>::empty());
        assert(concat_encodings(type_params@.drop_last()) =~= Seq::<u8>::empty());
        assert(concat_encodings(type_params@) =~= key_encoding);
    }
    tag
}

/// Marks the hash of a field id apart from every other hash of the system.
pub const CHILD_OBJECT_ID_SCOPE: u8 = 0xf0;

/// The 32-byte BLAKE2b digest of `data`.
pub uninterp spec fn blake2b256(data: Seq<u8>) -> Seq<u8>;

/// What is hashed to the id of a field: the scope mark, the parent's id, the
/// length of the encoded name as eight little-endian bytes, the encoded name,
/// and the encoding of the name's type.
pub open spec fn field_id_preimage(parent: ObjectID, key_type: Seq<u8>, key_bytes: Seq<u8>) -> Seq<
    u8,
> {
    seq![CHILD_OBJECT_ID_SCOPE] + parent.0@ + le_bytes(key_bytes.len(), 8) + key_bytes + key_type
}

/// The bytes of the id of the field of `parent` with the given name.
pub open spec fn derived_field_id(parent: ObjectID, key_type: Seq<u8>, key_bytes: Seq<u8>) -> Seq<
    u8,
> {
    blake2b256(field_id_preimage(parent, key_type, key_bytes))
}

/// Calls `fastcrypto::hash::Blake2b256::digest`, which hashes the bytes it
/// is given with BLAKE2b at an output length of 32 bytes. The digest depends
/// on those bytes alone.
#[verifier::external_body]
fn blake2b256_digest(data: &[u8]) -> (digest: [u8; 32])
    ensures
        digest@ == blake2b256(data@),
{
    fastcrypto::hash::Blake2b256::digest(data).digest
}

/// Derives the id of the dynamic field of `parent` whose name has the given
/// type and encoded value. The same parent and name always give the same id.
pub fn derive_dynamic_field_id(parent: ObjectID, key_type_tag: &TypeTag, key_bytes: &[u8]) -> (id:
    ObjectID)
    ensures
        id.0@ == derived_field_id(parent, key_type_tag@, key_bytes@),
{
    let mut preimage: Vec<u8> = Vec::new();
    preimage.push(CHILD_OBJECT_ID_SCOPE);
    push_all(&mut preimage, array_as_slice(&parent.0));
    push_u64_le(&mut preimage, key_bytes.len() as u64);
    push_all(&mut preimage, key_bytes);
    push_all(&mut preimage, key_type_tag.encoding());
    assert(preimage@ =~= field_id_preimage(parent, key_type_tag@, key_bytes@));
    ObjectID(blake2b256_digest(preimage.as_slice()))
}

/// The response to a lookup whose probe found an object: the object shown in
/// full. A probe that found no object gives no response.
pub open spec fn probe_response(read: ObjectRead) -> Option<
    Result<MgoObjectResponse, ConversionError>,
> {
    match read {
        ObjectRead::Exists(object_ref, object, layout) => Some(
            match object_data(object_ref, object, layout, full_content_options(), None) {
                Ok(data) => Ok(MgoObjectResponse { data: Some(data), error: None }),
                Err(e) => Err(e),
            },
        ),
        _ => None,
    }
}

/// The response that says that `parent` has no field of the given name.
pub open spec fn field_not_found(parent: ObjectID) -> MgoObjectResponse {
    MgoObjectResponse {
        data: None,
        error: Some(MgoObjectResponseError::DynamicFieldNotFound { parent_object_id: parent }),
    }
}

/// The outcome of a lookup by what the two probes find: the object under
/// the plain id where there is one, else the object under the wrapped id
/// where there is one, else the answer that there is no such field.
pub open spec fn resolved_field(parent: ObjectID, plain: ObjectRead, wrapped: ObjectRead) -> Result<
    MgoObjectResponse,
    ConversionError,
> {
    match probe_response(plain) {
        Some(response) => response,
        None => match probe_response(wrapped) {
            Some(response) => response,
            None => Ok(field_not_found(parent)),
        },
    }
}

/// Where a lookup stands after its first probe.
#[derive(Debug, PartialEq, Eq)]
pub enum FieldLookup {
    /// The lookup is over, with this outcome.
    Done(Result<MgoObjectResponse, ConversionError>),
    /// The object with this id is to be read next.
    Probe(ObjectID),
}

/// The id that a lookup reads first: that of the field stored under the
/// plain type of its name.
pub fn plain_field_id(parent: ObjectID, name: &DynamicFieldName) -> (id: ObjectID)
    ensures
        id.0@ == derived_field_id(parent, name.type_@, name.bcs_value@),
{
    derive_dynamic_field_id(parent, &name.type_, name.bcs_value.as_slice())
}

/// The id that a lookup reads second: that of the field stored under the
/// wrapped type of its name.
pub fn wrapped_field_id(parent: ObjectID, name: DynamicFieldName) -> (id: ObjectID)
    ensures
        id.0@ == derived_field_id(parent, wrapper_encoding(name.type_@), name.bcs_value@),
{
    let DynamicFieldName { type_, bcs_value } = name;
    let wrapper = dynamic_object_field_wrapper(type_);
    derive_dynamic_field_id(parent, &wrapper, bcs_value.as_slice())
}

/// The response for a probe that found an object; none for any other.
pub fn probe_outcome(read: ObjectRead) -> (res: Option<Result<MgoObjectResponse, ConversionError>>)
    ensures
        res == probe_response(read),
        res is Some <==> read is Exists,
{
    match read {
        ObjectRead::Exists(object_ref, object, layout) => Some(
            match MgoObjectData::try_from_object(
                object_ref,
                object,
                layout,
                MgoObjectDataOptions::full_content(),
                None,
            ) {
                Ok(data) => Ok(MgoObjectResponse::new_with_data(data)),
                Err(e) => Err(e),
            },
        ),
        _ => None,
    }
}

/// Continues a lookup after the probe of the plain id: done where an object
/// was found, the wrapped id to read otherwise.
pub fn after_plain_probe(parent: ObjectID, name: DynamicFieldName, read: ObjectRead) -> (step:
    FieldLookup)
    ensures
        read is Exists ==> step == FieldLookup::Done(probe_response(read)->0),
        !(read is Exists) ==> (step matches FieldLookup::Probe(id) && id.0@ == derived_field_id(
            parent,
            wrapper_encoding(name.type_@),
            name.bcs_value@,
        )),
{
    match probe_outcome(read) {
        Some(response) => FieldLookup::Done(response),
        None => FieldLookup::Probe(wrapped_field_id(parent, name)),
    }
}

/// Ends a lookup after the probe of the wrapped id: the object where one was
/// found, the answer that the parent has no such field otherwise. That
/// answer is a response, not a failure.
pub fn after_wrapped_probe(parent: ObjectID, read: ObjectRead) -> (res: Result<
    MgoObjectResponse,
    ConversionError,
>)
    ensures
        res == (match probe_response(read) {
            Some(response) => response,
            None => Ok(field_not_found(parent)),
        }),
        forall|plain: ObjectRead| !(plain is Exists) ==> res == #[trigger] resolved_field(
            parent,
            plain,
            read,
        ),
        !(read is Exists) ==> res == Ok::<MgoObjectResponse, ConversionError>(
            field_not_found(parent),
        ),
{
    match probe_outcome(read) {
        Some(response) => response,
        None => Ok(
            MgoObjectResponse::new_with_error(
                MgoObjectResponseError::DynamicFieldNotFound { parent_object_id: parent },
            ),
        ),
    }
}

/// A field stored under the plain id wins: whatever lies under the wrapped
/// id, the lookup answers with the object under the plain id.
pub proof fn lemma_plain_field_takes_priority(
    parent: ObjectID,
    plain: ObjectRead,
    wrapped: ObjectRead,
)
    requires
        plain is Exists,
    ensures
        resolved_field(parent, plain, wrapped) == probe_response(plain)->0,
        forall|other: ObjectRead|
            resolved_field(parent, plain, wrapped) == #[trigger] resolved_field(
                parent,
                plain,
                other,
            ),
        !(plain->Exists_2 is None) ==> (resolved_field(parent, plain, wrapped) matches Ok(response)
            && response.error is None && (response.data matches Some(data) && data.object_id
            == plain->Exists_0.0)),
{
}

/// A lookup that finds an object under neither id answers that the parent
/// has no such field; the answer is a response, not a failure.
pub proof fn lemma_absent_field_is_not_found(
    parent: ObjectID,
    plain: ObjectRead,
    wrapped: ObjectRead,
)
    requires
        !(plain is Exists),
        !(wrapped is Exists),
    ensures
        resolved_field(parent, plain, wrapped) == Ok::<MgoObjectResponse, ConversionError>(
            field_not_found(parent),
        ),
        field_not_found(parent).data is None,
        field_not_found(parent).error == Some(
            MgoObjectResponseError::DynamicFieldNotFound { parent_object_id: parent },
        ),
{
}

} // verus!
