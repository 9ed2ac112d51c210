//! The query operations, over any implementation of [`StateRead`].

use vstd::prelude::*;
use vstd::utf8::encode_utf8;
use crate::dynamic_field::{
    after_plain_probe, after_wrapped_probe, derived_field_id, plain_field_id, probe_response,
    resolved_field, wrapper_encoding, DynamicFieldName, FieldLookup,
};
use crate::enrich::{
    all_ok, collect_results, first_failure_at, is_objects_page, page_responses,
};
use crate::error::{IndexerError, StateReadError, StateReadResult};
use crate::name_service::{
    parsed_domain, record_id_bytes, reverse_record_id_bytes, Domain, NameServiceConfig,
};
use crate::record::{
    is_address_outcome, is_names_outcome, resolve_address, resolve_names, resolved_address,
    resolved_names, stored_contents,
};
use crate::object::{Object, ObjectRead};
use crate::page::{
    capped_limit, empty_page, is_page_under, page_of, paginate, plan_listing, truncated, Keyed,
    ListingPlan, Page, QUERY_MAX_RESULT_LIMIT,
};
use crate::query::{
    DynamicFieldInfo, DynamicFieldPage, EventFilter, EventPage, MgoEvent, MgoObjectDataFilter,
    MgoObjectResponseQuery, MgoTransactionBlockResponse, MgoTransactionBlockResponseOptions,
    MgoTransactionBlockResponseQuery, ObjectsPage, TransactionBlocksPage,
};
use crate::response::{
    begin_enrichment, finish_enrichment, needs_display, object_response, ConversionError,
    DisplayFieldsResponse, Enrichment, MgoObjectDataOptions, MgoObjectResponse,
};
use crate::state::StateRead;
use crate::types::{zero_bytes, EventID, MgoAddress, ObjectID, TransactionDigest};

verus! {

/// The query operations of the node, served from the state that `S` reads.
pub struct IndexerApiV2<S> {
    inner: S,
    name_service_config: NameServiceConfig,
}

/// The options that a listing of objects runs with: those of the query, or
/// the default ones where the query names none.
pub open spec fn query_options(query: Option<MgoObjectResponseQuery>) -> MgoObjectDataOptions {
    match query {
        Some(MgoObjectResponseQuery { options: Some(options), .. }) => options,
        _ => MgoObjectDataOptions {
            show_type: false,
            show_owner: false,
            show_previous_transaction: false,
            show_display: false,
            show_content: false,
            show_storage_rebate: false,
        },
    }
}

/// The failure of a query that a failed conversion amounts to.
pub open spec fn lifted(res: Result<MgoObjectResponse, ConversionError>) -> Result<
    MgoObjectResponse,
    IndexerError,
> {
    match res {
        Ok(response) => Ok(response),
        Err(e) => Err(IndexerError::DataTransformationError(e)),
    }
}

/// Whether `res` is the failure of a query whose read of the state failed
/// with `e`.
pub open spec fn is_failed_read<T>(res: Result<T, IndexerError>, e: StateReadError) -> bool {
    res matches Err(IndexerError::StateReadError(f)) && f == e
}

/// Whether `res` is what a listing under `limit` answers after the state
/// answered `answer`: the page that the rows make, or the failure of the
/// read.
pub open spec fn is_listing_outcome<T: Keyed>(
    res: Result<Page<T, T::Key>, IndexerError>,
    answer: StateReadResult<Vec<T>>,
    limit: usize,
) -> bool {
    match answer {
        Ok(rows) => res matches Ok(page) && page@ == page_of(rows@, limit),
        Err(e) => is_failed_read(res, e),
    }
}

/// The options that a listing of transactions runs with: those of the
/// query, or the default ones where the query names none.
pub open spec fn transaction_options(
    query: MgoTransactionBlockResponseQuery,
) -> MgoTransactionBlockResponseOptions {
    match query.options {
        Some(options) => options,
        None => MgoTransactionBlockResponseOptions {
            show_input: false,
            show_effects: false,
            show_events: false,
        },
    }
}

/// Whether a listing runs newest first: only where that is asked for.
pub open spec fn is_descending(descending_order: Option<bool>) -> bool {
    descending_order == Some(true)
}

/// The number of rows that a listing under `limit` asks the state for.
pub open spec fn fetch_size(limit: Option<usize>) -> usize {
    (capped_limit(limit) + 1) as usize
}

/// The filter that a listing of objects runs with: that of the query.
pub open spec fn query_filter(query: Option<MgoObjectResponseQuery>) -> Option<
    MgoObjectDataFilter,
> {
    match query {
        Some(query) => query.filter,
        None => None,
    }
}

/// Whether `rendered` is what the state answered to the rendering of the
/// display fields of the object that `read` found: the fields where it
/// rendered them, a failure where it did not.
pub open spec fn is_rendered_by<S: StateRead>(
    state: S,
    read: ObjectRead,
    rendered: Result<DisplayFieldsResponse, String>,
) -> bool {
    exists|answer: StateReadResult<DisplayFieldsResponse>| #[trigger]
        call_ensures(S::get_display_fields, (&state, &read->Exists_1, &read->Exists_2), answer)
            && match answer {
            Ok(fields) => rendered == Ok::<DisplayFieldsResponse, String>(fields),
            Err(_) => rendered is Err,
        }
}

/// Whether `rendered` holds, for every read of `kept` that display fields
/// are rendered for, what the state answered to the rendering.
pub open spec fn is_rendering<S: StateRead>(
    state: S,
    kept: Seq<ObjectRead>,
    options: MgoObjectDataOptions,
    rendered: Seq<Result<DisplayFieldsResponse, String>>,
) -> bool {
    rendered.len() == kept.len() && forall|i: int|
        0 <= i < kept.len() && needs_display(#[trigger] kept[i], options) ==> is_rendered_by(
            state,
            kept[i],
            rendered[i],
        )
}

/// Whether `res` is what the fetched `reads` and the `rendered` display
/// fields make: the page of responses where a response can be built for
/// every read that stays, the first failure to build one otherwise.
pub open spec fn is_objects_outcome(
    res: Result<ObjectsPage, IndexerError>,
    reads: Seq<ObjectRead>,
    limit: usize,
    options: MgoObjectDataOptions,
    rendered: Seq<Result<DisplayFieldsResponse, String>>,
) -> bool {
    let responses = page_responses(truncated(reads, limit), options, rendered);
    if all_ok(responses) {
        res matches Ok(page) && is_objects_page(page@, reads, limit, options, rendered)
    } else {
        res matches Err(IndexerError::DataTransformationError(e)) && exists|k: int|
            first_failure_at(responses, k) && #[trigger] responses[k] == Err::<
                MgoObjectResponse,
                ConversionError,
            >(e)
    }
}

/// Whether `res` is what a listing of the objects of `address` under
/// `limit` answers: the state is asked for one row more than the limit and
/// for the display fields of the objects that they are rendered for; the
/// answer is the page that the rows make, or the failure of the read.
pub open spec fn is_owned_objects_outcome<S: StateRead>(
    res: Result<ObjectsPage, IndexerError>,
    state: S,
    address: MgoAddress,
    query: Option<MgoObjectResponseQuery>,
    cursor: Option<ObjectID>,
    limit: usize,
) -> bool {
    exists|answer: StateReadResult<Vec<ObjectRead>>| #[trigger]
        call_ensures(
            S::get_owned_objects,
            (&state, address, query_filter(query), cursor, (limit + 1) as usize),
            answer,
        ) && match answer {
            Ok(reads) => exists|rendered: Seq<Result<DisplayFieldsResponse, String>>|
                is_rendering(state, truncated(reads@, limit), query_options(query), rendered)
                    && #[trigger] is_objects_outcome(
                    res,
                    reads@,
                    limit,
                    query_options(query),
                    rendered,
                ),
            Err(e) => is_failed_read(res, e),
        }
}

/// Whether `res` is what a lookup answers after the probe of the plain id
/// found no object: the state is read under the id derived from the wrapped
/// type of the name, and the answer is the object found there, the answer
/// that there is no such field, or the failure of the read.
pub open spec fn is_wrapped_probe_outcome<S: StateRead>(
    res: Result<MgoObjectResponse, IndexerError>,
    state: S,
    parent: ObjectID,
    name: DynamicFieldName,
    plain: ObjectRead,
) -> bool {
    exists|wrapped_id: ObjectID, second: StateReadResult<ObjectRead>|
        wrapped_id.0@ == derived_field_id(parent, wrapper_encoding(name.type_@), name.bcs_value@)
            && #[trigger] call_ensures(S::get_object_read, (&state, &wrapped_id), second)
            && match second {
            Ok(wrapped) => res == lifted(resolved_field(parent, plain, wrapped)),
            Err(e) => is_failed_read(res, e),
        }
}

/// Whether `res` is what a lookup of the field `name` of `parent` answers:
/// the state is read under the id derived from the plain type of the name;
/// an object found there is the answer; else the lookup goes on to the
/// wrapped id.
pub open spec fn is_lookup_outcome<S: StateRead>(
    res: Result<MgoObjectResponse, IndexerError>,
    state: S,
    parent: ObjectID,
    name: DynamicFieldName,
) -> bool {
    exists|plain_id: ObjectID, first: StateReadResult<ObjectRead>|
        plain_id.0@ == derived_field_id(parent, name.type_@, name.bcs_value@)
            && #[trigger] call_ensures(S::get_object_read, (&state, &plain_id), first)
            && match first {
            Ok(plain) => if plain is Exists {
                res == lifted(probe_response(plain)->0)
            } else {
                is_wrapped_probe_outcome(res, state, parent, name, plain)
            },
            Err(e) => is_failed_read(res, e),
        }
}

/// Whether `res` is what the resolution of an address answers after the
/// state answered `answer` to the read of the record under `record_id`.
pub open spec fn is_resolution_outcome(
    res: Result<Option<MgoAddress>, IndexerError>,
    record_id: ObjectID,
    answer: StateReadResult<Option<Object>>,
) -> bool {
    match answer {
        Ok(object) => is_address_outcome(res, resolved_address(record_id, stored_contents(object))),
        Err(e) => is_failed_read(res, e),
    }
}

/// Whether `res` is what the listing of names answers after the state
/// answered `answer` to the read of the record under `record_id`.
pub open spec fn is_names_listing_outcome(
    res: Result<Page<String, ObjectID>, IndexerError>,
    record_id: ObjectID,
    answer: StateReadResult<Option<Object>>,
) -> bool {
    match answer {
        Ok(object) => is_names_outcome(res, resolved_names(record_id, stored_contents(object))),
        Err(e) => is_failed_read(res, e),
    }
}

impl<S: StateRead> IndexerApiV2<S> {
    /// The state that the queries read.
    pub closed spec fn state(&self) -> S {
        self.inner
    }

    /// The name service that names are resolved by.
    pub closed spec fn name_service(&self) -> NameServiceConfig {
        self.name_service_config
    }

    /// Query operations over the given state, with the default name service.
    pub fn new(inner: S) -> (api: Self)
        ensures
            api.state() == inner,
            api.name_service().package_address.0@ == zero_bytes(),
            api.name_service().registry_id.0@ == zero_bytes(),
            api.name_service().reverse_registry_id.0@ == zero_bytes(),
    {
        IndexerApiV2 { inner, name_service_config: NameServiceConfig::default() }
    }

    /// Query operations over the given state, with the name service of the
    /// network that the state belongs to.
    pub fn with_name_service(inner: S, name_service_config: NameServiceConfig) -> (api: Self)
        ensures
            api.state() == inner,
            api.name_service() == name_service_config,
    {
        IndexerApiV2 { inner, name_service_config }
    }

    fn get_owned_objects_internal(
        &self,
        address: MgoAddress,
        query: Option<MgoObjectResponseQuery>,
        cursor: Option<ObjectID>,
        limit: usize,
    ) -> (res: Result<ObjectsPage, IndexerError>)
        requires
            0 < limit <= QUERY_MAX_RESULT_LIMIT,
        ensures
            is_owned_objects_outcome(res, self.state(), address, query, cursor, limit),
            res matches Ok(page) ==> page.data@.len() <= limit,
            res matches Err(e) ==> e is StateReadError || e is DataTransformationError,
    {
        let (filter, options) = match query {
            Some(MgoObjectResponseQuery { filter, options: Some(options) }) => (filter, options),
            Some(MgoObjectResponseQuery { filter, options: None }) => (
                filter,
                MgoObjectDataOptions::new(),
            ),
            None => (None, MgoObjectDataOptions::new()),
        };
        assert(filter == query_filter(query) && options == query_options(query));
        let answer = self.inner.get_owned_objects(address, filter, cursor, limit + 1);
        let ghost answered = answer;
        let fetched = match answer {
            Ok(reads) => reads,
            Err(e) => {
                return Err(IndexerError::StateReadError(e));
            },
        };
        let ghost reads = fetched@;
        let Page { data: kept, next_cursor, has_next_page } = paginate(fetched, limit);
        let ghost kept_reads = kept@;
        let ghost mut rendered: Seq<Result<DisplayFieldsResponse, String>> = Seq::empty();
        let mut results: Vec<Result<MgoObjectResponse, ConversionError>> = Vec::new();
        for read in it: kept.into_iter()
            invariant
                it.seq() == kept_reads,
                results@.len() == it.index(),
                rendered.len() == it.index(),
                forall|j: int|
                    0 <= j < it.index() ==> (#[trigger] results@[j]) == object_response(
                        kept_reads[j],
                        options,
                        rendered[j],
                    ),
                forall|j: int|
                    0 <= j < it.index() && needs_display(#[trigger] kept_reads[j], options)
                        ==> is_rendered_by(self.state(), kept_reads[j], rendered[j]),
        {
            let ghost shown: Result<DisplayFieldsResponse, String> = arbitrary();
            let ghost before = rendered;
            let result = match begin_enrichment(read, options) {
                Enrichment::Done(result) => {
                    proof {
                        rendered = rendered.push(shown);
                    }
                    result
                },
                Enrichment::Render(object_ref, object, layout) => {
                    let display = self.inner.get_display_fields(&object, &layout);
                    let ghost displayed = display;
                    let fields = match display {
                        Ok(fields) => Ok(fields),
                        Err(e) => Err(e.describe()),
                    };
                    proof {
                        rendered = rendered.push(fields);
                        assert(call_ensures(
                            S::get_display_fields,
                            (&self.state(), &object, &layout),
                            displayed,
                        ));
                        assert(is_rendered_by(self.state(), read, fields));
                    }
                    finish_enrichment(object_ref, object, layout, options, fields)
                },
            };
            results.push(result);
            proof {
                assert forall|j: int|
                    0 <= j < it.index() + 1 && needs_display(
                        #[trigger] kept_reads[j],
                        options,
                    ) implies is_rendered_by(self.state(), kept_reads[j], rendered[j]) by {
                    if j < it.index() {
                        assert(rendered[j] == before[j]);
                    }
                }
            }
        }
        let ghost responses = page_responses(kept_reads, options, rendered);
        assert(results@ =~= responses);
        assert(is_rendering(self.state(), kept_reads, options, rendered));
        let res = match collect_results(results) {
            Ok(data) => {
                let page = Page { data, next_cursor, has_next_page };
                assert(is_objects_page(page@, reads, limit, options, rendered));
                Ok(page)
            },
            Err(e) => Err(IndexerError::DataTransformationError(e)),
        };
        proof {
            assert(kept_reads == truncated(reads, limit));
            assert(is_objects_outcome(res, reads, limit, options, rendered));
            assert(answered == Ok::<Vec<ObjectRead>, StateReadError>(fetched));
            assert(call_ensures(
                S::get_owned_objects,
                (&self.state(), address, query_filter(query), cursor, (limit + 1) as usize),
                answered,
            ));
        }
        res
    }

    /// Lists the objects of an owner, each shown as the options of the query
    /// ask. A page of zero rows is answered without a read of the state. An
    /// object whose display fields fail to render keeps its place and its
    /// data and carries the failure; the listing fails only where the state
    /// cannot be read or an object cannot be shown at all.
    pub fn get_owned_objects(
        &self,
        address: MgoAddress,
        query: Option<MgoObjectResponseQuery>,
        cursor: Option<ObjectID>,
        limit: Option<usize>,
    ) -> (res: Result<ObjectsPage, IndexerError>)
        ensures
            capped_limit(limit) == 0 ==> (res matches Ok(page) && page@ == empty_page::<
                MgoObjectResponse,
                ObjectID,
            >()),
            capped_limit(limit) > 0 ==> is_owned_objects_outcome(
                res,
                self.state(),
                address,
                query,
                cursor,
                capped_limit(limit),
            ),
            res matches Ok(page) ==> page.data@.len() <= capped_limit(limit),
            res matches Err(e) ==> e is StateReadError || e is DataTransformationError,
    {
        match plan_listing(limit) {
            ListingPlan::Empty => Ok(Page::empty()),
            ListingPlan::Fetch { limit, .. } => self.get_owned_objects_internal(
                address,
                query,
                cursor,
                limit,
            ),
        }
    }

    /// Lists the transactions that pass the filter of the query, oldest first
    /// unless `descending_order` is set. A page of zero rows is answered
    /// without a read of the state.
    pub fn query_transaction_blocks(
        &self,
        query: MgoTransactionBlockResponseQuery,
        cursor: Option<TransactionDigest>,
        limit: Option<usize>,
        descending_order: Option<bool>,
    ) -> (res: Result<TransactionBlocksPage, IndexerError>)
        ensures
            capped_limit(limit) == 0 ==> (res matches Ok(page) && page@ == empty_page::<
                MgoTransactionBlockResponse,
                TransactionDigest,
            >()),
            capped_limit(limit) > 0 ==> exists|
                answer: StateReadResult<Vec<MgoTransactionBlockResponse>>,
            |
                call_ensures(
                    S::query_transaction_blocks,
                    (
                        &self.state(),
                        query.filter,
                        transaction_options(query),
                        cursor,
                        fetch_size(limit),
                        is_descending(descending_order),
                    ),
                    answer,
                ) && is_listing_outcome(res, answer, capped_limit(limit)),
            res matches Ok(page) ==> is_page_under(page@, capped_limit(limit)),
            res matches Err(e) ==> e is StateReadError,
    {
        match plan_listing(limit) {
            ListingPlan::Empty => {
                let page = Page::empty();
                assert(page@ == page_of(Seq::<MgoTransactionBlockResponse>::empty(), 0usize));
                Ok(page)
            },
            ListingPlan::Fetch { limit, fetch } => {
                let options = match query.options {
                    Some(options) => options,
                    None => MgoTransactionBlockResponseOptions::default(),
                };
                let descending = match descending_order {
                    Some(descending) => descending,
                    None => false,
                };
                let answer = self.inner.query_transaction_blocks(
                    query.filter,
                    options,
                    cursor,
                    fetch,
                    descending,
                );
                let ghost answered = answer;
                let res = match answer {
                    Ok(rows) => Ok(paginate(rows, limit)),
                    Err(e) => Err(IndexerError::StateReadError(e)),
                };
                assert(is_listing_outcome(res, answered, limit));
                res
            },
        }
    }

    /// Lists the events that pass the filter, strictly after `cursor`,
    /// oldest first unless `descending_order` is set. A page of zero rows is
    /// answered without a read of the state.
    pub fn query_events(
        &self,
        query: EventFilter,
        cursor: Option<EventID>,
        limit: Option<usize>,
        descending_order: Option<bool>,
    ) -> (res: Result<EventPage, IndexerError>)
        ensures
            capped_limit(limit) == 0 ==> (res matches Ok(page) && page@ == empty_page::<
                MgoEvent,
                EventID,
            >()),
            capped_limit(limit) > 0 ==> exists|answer: StateReadResult<Vec<MgoEvent>>|
                call_ensures(
                    S::query_events,
                    (
                        &self.state(),
                        query,
                        cursor,
                        fetch_size(limit),
                        is_descending(descending_order),
                    ),
                    answer,
                ) && is_listing_outcome(res, answer, capped_limit(limit)),
            res matches Ok(page) ==> is_page_under(page@, capped_limit(limit)),
            res matches Err(e) ==> e is StateReadError,
    {
        match plan_listing(limit) {
            ListingPlan::Empty => {
                let page = Page::empty();
                assert(page@ == page_of(Seq::<MgoEvent>::empty(), 0usize));
                Ok(page)
            },
            ListingPlan::Fetch { limit, fetch } => {
                let descending = match descending_order {
                    Some(descending) => descending,
                    None => false,
                };
                let answer = self.inner.query_events(query, cursor, fetch, descending);
                let ghost answered = answer;
                let res = match answer {
                    Ok(rows) => Ok(paginate(rows, limit)),
                    Err(e) => Err(IndexerError::StateReadError(e)),
                };
                assert(is_listing_outcome(res, answered, limit));
                res
            },
        }
    }

    /// Lists the dynamic fields of an object. A page of zero rows is answered
    /// without a read of the state.
    pub fn get_dynamic_fields(
        &self,
        parent_object_id: ObjectID,
        cursor: Option<ObjectID>,
        limit: Option<usize>,
    ) -> (res: Result<DynamicFieldPage, IndexerError>)
        ensures
            capped_limit(limit) == 0 ==> (res matches Ok(page) && page@ == empty_page::<
                DynamicFieldInfo,
                ObjectID,
            >()),
            capped_limit(limit) > 0 ==> exists|answer: StateReadResult<Vec<DynamicFieldInfo>>|
                call_ensures(
                    S::get_dynamic_fields,
                    (&self.state(), parent_object_id, cursor, fetch_size(limit)),
                    answer,
                ) && is_listing_outcome(res, answer, capped_limit(limit)),
            res matches Ok(page) ==> is_page_under(page@, capped_limit(limit)),
            res matches Err(e) ==> e is StateReadError,
    {
        match plan_listing(limit) {
            ListingPlan::Empty => {
                let page = Page::empty();
                assert(page@ == page_of(Seq::<DynamicFieldInfo>::empty(), 0usize));
                Ok(page)
            },
            ListingPlan::Fetch { limit, fetch } => {
                let answer = self.inner.get_dynamic_fields(parent_object_id, cursor, fetch);
                let ghost answered = answer;
                let res = match answer {
                    Ok(rows) => Ok(paginate(rows, limit)),
                    Err(e) => Err(IndexerError::StateReadError(e)),
                };
                assert(is_listing_outcome(res, answered, limit));
                res
            },
        }
    }

    /// Looks up the dynamic field of `parent_object_id` with the given name:
    /// first under the id derived from the plain type of the name, then under
    /// the id derived from the wrapped type. The first object found is the
    /// answer, shown in full; where neither id holds an object the answer
    /// says that there is no such field.
    pub fn get_dynamic_field_object(&self, parent_object_id: ObjectID, name: DynamicFieldName) -> (res:
        Result<MgoObjectResponse, IndexerError>)
        ensures
            is_lookup_outcome(res, self.state(), parent_object_id, name),
            res matches Err(e) ==> e is StateReadError || e is DataTransformationError,
    {
        let ghost asked = name;
        let plain_id = plain_field_id(parent_object_id, &name);
        let first = self.inner.get_object_read(&plain_id);
        let ghost first_answer = first;
        let plain = match first {
            Ok(read) => read,
            Err(e) => {
                return Err(IndexerError::StateReadError(e));
            },
        };
        let ghost plain_read = plain;
        let wrapped_id = match after_plain_probe(parent_object_id, name, plain) {
            FieldLookup::Done(outcome) => {
                assert(outcome == probe_response(plain_read)->0);
                return match outcome {
                    Ok(response) => Ok(response),
                    Err(e) => Err(IndexerError::DataTransformationError(e)),
                };
            },
            FieldLookup::Probe(id) => id,
        };
        let second = self.inner.get_object_read(&wrapped_id);
        let ghost second_answer = second;
        let res = match second {
            Ok(wrapped) => {
                let ghost wrapped_read = wrapped;
                let outcome = after_wrapped_probe(parent_object_id, wrapped);
                assert(outcome == resolved_field(parent_object_id, plain_read, wrapped_read));
                match outcome {
                    Ok(response) => Ok(response),
                    Err(e) => Err(IndexerError::DataTransformationError(e)),
                }
            },
            Err(e) => Err(IndexerError::StateReadError(e)),
        };
        proof {
            assert(call_ensures(
                S::get_object_read,
                (&self.state(), &wrapped_id),
                second_answer,
            ));
            assert(is_wrapped_probe_outcome(
                res,
                self.state(),
                parent_object_id,
                asked,
                plain_read,
            ));
            assert(call_ensures(S::get_object_read, (&self.state(), &plain_id), first_answer));
        }
        res
    }

    /// Resolves a name to the address that its forward record points to. A
    /// name that does not parse is turned down before the state is read; a
    /// name without a record, or with a record without a target, resolves to
    /// no address.
    pub fn resolve_name_service_address(&self, name: String) -> (res: Result<
        Option<MgoAddress>,
        IndexerError,
    >)
        ensures
            parsed_domain(encode_utf8(name@)) matches Err(e) ==> res == Err::<
                Option<MgoAddress>,
                IndexerError,
            >(IndexerError::InvalidArgumentError(e)),
            parsed_domain(encode_utf8(name@)) matches Ok(labels) ==> exists|
                record_id: ObjectID,
                answer: StateReadResult<Option<Object>>,
            |
                record_id.0@ == record_id_bytes(self.name_service(), labels)
                    && #[trigger] call_ensures(S::get_object, (&self.state(), &record_id), answer)
                    && is_resolution_outcome(res, record_id, answer),
    {
        let domain = match Domain::parse(name.as_str()) {
            Ok(domain) => domain,
            Err(e) => {
                return Err(IndexerError::InvalidArgumentError(e));
            },
        };
        let record_id = self.name_service_config.record_field_id(&domain);
        let answer = self.inner.get_object(&record_id);
        let ghost answered = answer;
        let res = match answer {
            Ok(object) => resolve_address(record_id, object),
            Err(e) => Err(IndexerError::StateReadError(e)),
        };
        proof {
            assert(call_ensures(S::get_object, (&self.state(), &record_id), answered));
            assert(is_resolution_outcome(res, record_id, answered));
        }
        res
    }

    /// Lists the names that the reverse record of an address holds: one name
    /// where there is a record, none where there is not. The page is always
    /// the only one; the cursor and the limit are taken and not used.
    pub fn resolve_name_service_names(
        &self,
        address: MgoAddress,
        _cursor: Option<ObjectID>,
        _limit: Option<usize>,
    ) -> (res: Result<Page<String, ObjectID>, IndexerError>)
        ensures
            exists|record_id: ObjectID, answer: StateReadResult<Option<Object>>|
                record_id.0@ == reverse_record_id_bytes(self.name_service(), address)
                    && #[trigger] call_ensures(S::get_object, (&self.state(), &record_id), answer)
                    && is_names_listing_outcome(res, record_id, answer),
            res matches Ok(page) ==> page.data@.len() <= 1 && page.next_cursor is None
                && !page.has_next_page,
    {
        let record_id = self.name_service_config.reverse_record_field_id(&address);
        let answer = self.inner.get_object(&record_id);
        let ghost answered = answer;
        let res = match answer {
            Ok(object) => resolve_names(record_id, object),
            Err(e) => Err(IndexerError::StateReadError(e)),
        };
        proof {
            assert(call_ensures(S::get_object, (&self.state(), &record_id), answered));
            assert(is_names_listing_outcome(res, record_id, answered));
        }
        res
    }
}

} // verus!
