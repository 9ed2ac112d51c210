//! Object responses, and how an object read becomes one.
//!
//! A read that found nothing, or a deleted object, becomes a response that
//! says so. A read that found an object becomes its data, cut to what the
//! options ask for, and decorated with display fields where those are
//! asked for. A failure to render display fields degrades that one
//! response: it keeps the data and carries the failure beside it.

use vstd::prelude::*;
use crate::object::{MoveStructLayout, Object, ObjectRead, Owner};
use crate::types::{ObjectDigest, ObjectID, ObjectRef, SequenceNumber, TransactionDigest};

verus! {

/// What of an object a response shows.
#[derive(Clone, Copy, Debug, PartialEq, Eq)]
pub struct MgoObjectDataOptions {
    pub show_type: bool,
    pub show_owner: bool,
    pub show_previous_transaction: bool,
    pub show_display: bool,
    pub show_content: bool,
    pub show_storage_rebate: bool,
}

/// The options that show everything that is read from the object itself:
/// all but the display fields.
pub open spec fn full_content_options() -> MgoObjectDataOptions {
    MgoObjectDataOptions {
        show_type: true,
        show_owner: true,
        show_previous_transaction: true,
        show_display: false,
        show_content: true,
        show_storage_rebate: true,
    }
}

impl MgoObjectDataOptions {
    /// Shows the reference of the object and nothing more.
    pub fn new() -> (options: Self)
        ensures
            options == (MgoObjectDataOptions {
                show_type: false,
                show_owner: false,
                show_previous_transaction: false,
                show_display: false,
                show_content: false,
                show_storage_rebate: false,
            }),
    {
        MgoObjectDataOptions {
            show_type: false,
            show_owner: false,
            show_previous_transaction: false,
            show_display: false,
            show_content: false,
            show_storage_rebate: false,
        }
    }

    /// Shows everything that is read from the object itself: all but the
    /// display fields.
    pub fn full_content() -> (options: Self)
        ensures
            options == full_content_options(),
    {
        MgoObjectDataOptions {
            show_type: true,
            show_owner: true,
            show_previous_transaction: true,
            show_display: false,
            show_content: true,
            show_storage_rebate: true,
        }
    }
}

impl Default for MgoObjectDataOptions {
    fn default() -> (options: Self)
        ensures
            !options.show_type && !options.show_owner && !options.show_previous_transaction
                && !options.show_display && !options.show_content && !options.show_storage_rebate,
    {
        MgoObjectDataOptions::new()
    }
}

/// Human-readable fields rendered for an object.
#[derive(Debug, PartialEq, Eq)]
pub struct DisplayFieldsResponse {
    /// Field names with their rendered values.
    pub fields: Vec<(String, String)>,
}

/// The contents of an object with the layout to read them by.
#[derive(Debug, PartialEq, Eq)]
pub struct MgoParsedData {
    pub layout: MoveStructLayout,
    pub contents: Vec<u8>,
}

/// What a response shows of an object. The reference is always there; the
/// rest is there where the options ask for it.
#[derive(Debug, PartialEq, Eq)]
pub struct MgoObjectData {
    pub object_id: ObjectID,
    pub version: SequenceNumber,
    pub digest: ObjectDigest,
    pub type_: Option<String>,
    pub owner: Option<Owner>,
    pub previous_transaction: Option<TransactionDigest>,
    pub storage_rebate: Option<u64>,
    pub display: Option<DisplayFieldsResponse>,
    pub content: Option<MgoParsedData>,
}

/// Why a response holds no data, or not all of it.
#[derive(Debug, PartialEq, Eq)]
pub enum MgoObjectResponseError {
    /// There never was an object with this id.
    NotExists { object_id: ObjectID },
    /// The parent has no dynamic field of the given name.
    DynamicFieldNotFound { parent_object_id: ObjectID },
    /// The object was deleted at this version.
    Deleted { object_id: ObjectID, version: SequenceNumber, digest: ObjectDigest },
    /// The display fields could not be rendered.
    DisplayError { error: String },
}

/// The answer to a request for one object.
#[derive(Debug, PartialEq, Eq)]
pub struct MgoObjectResponse {
    pub data: Option<MgoObjectData>,
    pub error: Option<MgoObjectResponseError>,
}

impl MgoObjectResponse {
    /// A response with the given data and error.
    pub fn new(data: Option<MgoObjectData>, error: Option<MgoObjectResponseError>) -> (response:
        Self)
        ensures
            response == (MgoObjectResponse { data, error }),
    {
        MgoObjectResponse { data, error }
    }

    /// A response that holds data and no error.
    pub fn new_with_data(data: MgoObjectData) -> (response: Self)
        ensures
            response == (MgoObjectResponse { data: Some(data), error: None }),
    {
        MgoObjectResponse { data: Some(data), error: None }
    }

    /// A response that holds an error and no data.
    pub fn new_with_error(error: MgoObjectResponseError) -> (response: Self)
        ensures
            response == (MgoObjectResponse { data: None, error: Some(error) }),
    {
        MgoObjectResponse { data: None, error: Some(error) }
    }
}

/// Why an object could not be turned into response data.
#[derive(Clone, Copy, Debug, PartialEq, Eq)]
pub enum ConversionError {
    /// The contents were asked for, but no layout is known to read them by.
    LayoutRequired { object_id: ObjectID },
}

/// The data that a response shows of an object under the given options, with
/// the given display fields. It cannot be built where the contents are asked
/// for and the layout is missing.
pub open spec fn object_data(
    object_ref: ObjectRef,
    object: Object,
    layout: Option<MoveStructLayout>,
    options: MgoObjectDataOptions,
    display: Option<DisplayFieldsResponse>,
) -> Result<MgoObjectData, ConversionError> {
    if options.show_content && layout is None {
        Err(ConversionError::LayoutRequired { object_id: object_ref.0 })
    } else {
        Ok(
            MgoObjectData {
                object_id: object_ref.0,
                version: object_ref.1,
                digest: object_ref.2,
                type_: if options.show_type {
                    Some(object.type_)
                } else {
                    None
                },
                owner: if options.show_owner {
                    Some(object.owner)
                } else {
                    None
                },
                previous_transaction: if options.show_previous_transaction {
                    Some(object.previous_transaction)
                } else {
                    None
                },
                storage_rebate: if options.show_storage_rebate {
                    Some(object.storage_rebate)
                } else {
                    None
                },
                display,
                content: if options.show_content {
                    Some(MgoParsedData { layout: layout->0, contents: object.contents })
                } else {
                    None
                },
            },
        )
    }
}

impl MgoObjectData {
    /// Builds the data of a response from an object that was read.
    pub fn try_from_object(
        object_ref: ObjectRef,
        object: Object,
        layout: Option<MoveStructLayout>,
        options: MgoObjectDataOptions,
        display: Option<DisplayFieldsResponse>,
    ) -> (res: Result<MgoObjectData, ConversionError>)
        ensures
            res == object_data(object_ref, object, layout, options, display),
            res is Err <==> options.show_content && layout is None,
    {
        let content = if options.show_content {
            match layout {
                Some(layout) => Some(MgoParsedData { layout, contents: object.contents }),
                None => {
                    return Err(ConversionError::LayoutRequired { object_id: object_ref.0 });
                },
            }
        } else {
            None
        };
        Ok(
            MgoObjectData {
                object_id: object_ref.0,
                version: object_ref.1,
                digest: object_ref.2,
                type_: if options.show_type {
                    Some(object.type_)
                } else {
                    None
                },
                owner: if options.show_owner {
                    Some(object.owner)
                } else {
                    None
                },
                previous_transaction: if options.show_previous_transaction {
                    Some(object.previous_transaction)
                } else {
                    None
                },
                storage_rebate: if options.show_storage_rebate {
                    Some(object.storage_rebate)
                } else {
                    None
                },
                display,
                content,
            },
        )
    }
}

/// Whether display fields are rendered for this read: only for an object
/// that exists, and only where the options ask for them.
pub open spec fn needs_display(read: ObjectRead, options: MgoObjectDataOptions) -> bool {
    read is Exists && options.show_display
}

/// The response that an object read becomes. `rendered` is what rendering
/// the display fields gave; it counts only where [`needs_display`] holds.
pub open spec fn object_response(
    read: ObjectRead,
    options: MgoObjectDataOptions,
    rendered: Result<DisplayFieldsResponse, String>,
) -> Result<MgoObjectResponse, ConversionError> {
    match read {
        ObjectRead::NotExists(object_id) => Ok(
            MgoObjectResponse {
                data: None,
                error: Some(MgoObjectResponseError::NotExists { object_id }),
            },
        ),
        ObjectRead::Deleted(object_ref) => Ok(
            MgoObjectResponse {
                data: None,
                error: Some(
                    MgoObjectResponseError::Deleted {
                        object_id: object_ref.0,
                        version: object_ref.1,
                        digest: object_ref.2,
                    },
                ),
            },
        ),
        ObjectRead::Exists(object_ref, object, layout) => if options.show_display {
            match rendered {
                Ok(fields) => match object_data(object_ref, object, layout, options, Some(fields)) {
                    Ok(data) => Ok(MgoObjectResponse { data: Some(data), error: None }),
                    Err(e) => Err(e),
                },
                Err(error) => match object_data(object_ref, object, layout, options, None) {
                    Ok(data) => Ok(
                        MgoObjectResponse {
                            data: Some(data),
                            error: Some(MgoObjectResponseError::DisplayError { error }),
                        },
                    ),
                    Err(e) => Err(e),
                },
            }
        } else {
            match object_data(object_ref, object, layout, options, None) {
                Ok(data) => Ok(MgoObjectResponse { data: Some(data), error: None }),
                Err(e) => Err(e),
            }
        },
    }
}

/// Where the making of a response stands after the read was looked at.
#[derive(Debug, PartialEq, Eq)]
pub enum Enrichment {
    /// Nothing is rendered for this read: the response, or the failure to
    /// build it.
    Done(Result<MgoObjectResponse, ConversionError>),
    /// Display fields are to be rendered for this object.
    Render(ObjectRef, Object, Option<MoveStructLayout>),
}

/// The first step of the making of a response: a read that found no object
/// is answered at once, and so is an object for which no display fields are
/// asked; for any other object display fields are to be rendered.
pub open spec fn enrichment_of(read: ObjectRead, options: MgoObjectDataOptions) -> Enrichment {
    match read {
        ObjectRead::NotExists(object_id) => Enrichment::Done(
            Ok(
                MgoObjectResponse {
                    data: None,
                    error: Some(MgoObjectResponseError::NotExists { object_id }),
                },
            ),
        ),
        ObjectRead::Deleted(object_ref) => Enrichment::Done(
            Ok(
                MgoObjectResponse {
                    data: None,
                    error: Some(
                        MgoObjectResponseError::Deleted {
                            object_id: object_ref.0,
                            version: object_ref.1,
                            digest: object_ref.2,
                        },
                    ),
                },
            ),
        ),
        ObjectRead::Exists(object_ref, object, layout) => if options.show_display {
            Enrichment::Render(object_ref, object, layout)
        } else {
            Enrichment::Done(
                match object_data(object_ref, object, layout, options, None) {
                    Ok(data) => Ok(MgoObjectResponse { data: Some(data), error: None }),
                    Err(e) => Err(e),
                },
            )
        },
    }
}

/// Looks at a read and either answers at once or asks for display fields.
pub fn begin_enrichment(read: ObjectRead, options: MgoObjectDataOptions) -> (step: Enrichment)
    ensures
        step == enrichment_of(read, options),
        needs_display(read, options) <==> step is Render,
        step matches Enrichment::Render(object_ref, object, layout) ==> read == ObjectRead::Exists(
            object_ref,
            object,
            layout,
        ),
        step matches Enrichment::Done(res) ==> forall|rendered: Result<DisplayFieldsResponse, String>|
            res == object_response(read, options, rendered),
{
    match read {
        ObjectRead::NotExists(object_id) => Enrichment::Done(
            Ok(
                MgoObjectResponse::new_with_error(MgoObjectResponseError::NotExists { object_id }),
            ),
        ),
        ObjectRead::Deleted(object_ref) => Enrichment::Done(
            Ok(
                MgoObjectResponse::new_with_error(
                    MgoObjectResponseError::Deleted {
                        object_id: object_ref.0,
                        version: object_ref.1,
                        digest: object_ref.2,
                    },
                ),
            ),
        ),
        ObjectRead::Exists(object_ref, object, layout) => {
            if options.show_display {
                Enrichment::Render(object_ref, object, layout)
            } else {
                match MgoObjectData::try_from_object(object_ref, object, layout, options, None) {
                    Ok(data) => Enrichment::Done(Ok(MgoObjectResponse::new_with_data(data))),
                    Err(e) => Enrichment::Done(Err(e)),
                }
            }
        },
    }
}

/// Builds the response for an object once its display fields were rendered,
/// or failed to render. A failure to render keeps the data and is carried
/// beside it; only a failure to build the data fails the response. Where the
/// options ask for no display fields, what was rendered is left out.
pub fn finish_enrichment(
    object_ref: ObjectRef,
    object: Object,
    layout: Option<MoveStructLayout>,
    options: MgoObjectDataOptions,
    rendered: Result<DisplayFieldsResponse, String>,
) -> (res: Result<MgoObjectResponse, ConversionError>)
    ensures
        res == object_response(
            ObjectRead::Exists(object_ref, object, layout),
            options,
            rendered,
        ),
        res is Err <==> options.show_content && layout is None,
{
    let (display, error) = if options.show_display {
        match rendered {
            Ok(fields) => (Some(fields), None),
            Err(error) => (None, Some(MgoObjectResponseError::DisplayError { error })),
        }
    } else {
        (None, None)
    };
    match MgoObjectData::try_from_object(object_ref, object, layout, options, display) {
        Ok(data) => Ok(MgoObjectResponse::new(Some(data), error)),
        Err(e) => Err(e),
    }
}

} // verus!
