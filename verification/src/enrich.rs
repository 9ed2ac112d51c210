//! Decoration of a whole page of object reads.
//!
//! Each read of a page becomes a response on its own; the responses come
//! back in the order of the reads. The page fails only where a response
//! cannot be built at all, or where the work on an item never finished.

use vstd::prelude::*;
use crate::object::ObjectRead;
use crate::error::{IndexerError, StateReadError, StateReadInternalError};
use crate::page::{cursor_after, truncated, Page, PageView};
use crate::types::ObjectID;
use crate::response::{
    needs_display, object_data, object_response, ConversionError, DisplayFieldsResponse,
    MgoObjectDataOptions, MgoObjectResponse, MgoObjectResponseError,
};

verus! {

/// Whether every outcome is a success.
pub open spec fn all_ok<T, E>(results: Seq<Result<T, E>>) -> bool {
    forall|i: int| 0 <= i < results.len() ==> (#[trigger] results[i]) is Ok
}

/// Whether `k` is the position of the first failure among the outcomes.
pub open spec fn first_failure_at<T, E>(results: Seq<Result<T, E>>, k: int) -> bool {
    &&& 0 <= k < results.len()
    &&& results[k] is Err
    &&& forall|j: int| 0 <= j < k ==> (#[trigger] results[j]) is Ok
}

/// Gathers the outcomes of the items of a page: all the values in their
/// order where every item succeeded, the first failure otherwise.
pub fn collect_results<T, E>(results: Vec<Result<T, E>>) -> (res: Result<Vec<T>, E>)
    ensures
        res is Ok <==> all_ok(results@),
        res matches Ok(values) ==> values@.len() == results@.len() && forall|i: int|
            0 <= i < results@.len() ==> results@[i] == Ok::<T, E>(#[trigger] values@[i]),
        res matches Err(e) ==> exists|k: int|
            first_failure_at(results@, k) && #[trigger] results@[k] == Err::<T, E>(e),
{
    let ghost all = results@;
    let mut values: Vec<T> = Vec::new();
    for result in it: results.into_iter()
        invariant
            it.seq() == all,
            values@.len() == it.index(),
            forall|j: int| 0 <= j < it.index() ==> all[j] == Ok::<T, E>(#[trigger] values@[j]),
    {
        match result {
            Ok(value) => {
                values.push(value);
            },
            Err(e) => {
                assert(all[it.index()] == Err::<T, E>(e));
                assert forall|j: int| 0 <= j < it.index() implies (#[trigger] all[j]) is Ok by {
                    assert(all[j] == Ok::<T, E>(values@[j]));
                }
                assert(first_failure_at(all, it.index()));
                return Err(e);
            },
        }
    }
    assert(values@.len() == all.len());
    assert forall|j: int| 0 <= j < all.len() implies (#[trigger] all[j]) is Ok by {
        assert(all[j] == Ok::<T, E>(values@[j]));
    }
    Ok(values)
}

/// What the tasks of a page gave, where every task finished.
pub open spec fn finished_of<T, E, J>(joined: Seq<Result<Result<T, E>, J>>) -> Seq<Result<T, E>> {
    Seq::new(joined.len(), |i: int| joined[i]->Ok_0)
}

/// Makes the page of a listing of objects from what the tasks of its items
/// gave. A task that did not finish fails the whole page as an internal
/// error, whatever the other tasks gave. Else a response that could not be
/// built fails the page. Else the page holds the responses in the order of
/// the tasks, with the given cursor and mark of a further page.
pub fn assemble_page(
    joined: Vec<Result<Result<MgoObjectResponse, ConversionError>, tokio::task::JoinError>>,
    next_cursor: Option<ObjectID>,
    has_next_page: bool,
) -> (res: Result<Page<MgoObjectResponse, ObjectID>, IndexerError>)
    ensures
        !all_ok(joined@) ==> exists|k: int| #[trigger]
            first_failure_at(joined@, k) && res == Err::<
                Page<MgoObjectResponse, ObjectID>,
                IndexerError,
            >(
                IndexerError::StateReadError(
                    StateReadError::Internal(
                        StateReadInternalError::JoinError(joined@[k]->Err_0),
                    ),
                ),
            ),
        all_ok(joined@) && !all_ok(finished_of(joined@)) ==> exists|k: int| #[trigger]
            first_failure_at(finished_of(joined@), k) && res == Err::<
                Page<MgoObjectResponse, ObjectID>,
                IndexerError,
            >(IndexerError::DataTransformationError(finished_of(joined@)[k]->Err_0)),
        all_ok(joined@) && all_ok(finished_of(joined@)) ==> (res matches Ok(page)
            && page.data@.len() == joined@.len() && page.next_cursor == next_cursor
            && page.has_next_page == has_next_page && forall|i: int|
            0 <= i < joined@.len() ==> finished_of(joined@)[i] == Ok::<
                MgoObjectResponse,
                ConversionError,
            >(#[trigger] page.data@[i])),
{
    let ghost all = joined@;
    let finished = match collect_results(joined) {
        Ok(finished) => finished,
        Err(e) => {
            return Err(IndexerError::StateReadError(StateReadError::from(e)));
        },
    };
    assert(finished@ =~= finished_of(all));
    match collect_results(finished) {
        Ok(data) => Ok(Page { data, next_cursor, has_next_page }),
        Err(e) => Err(IndexerError::DataTransformationError(e)),
    }
}

/// The responses of a page of reads, item by item. `rendered[i]` is what
/// rendering display fields for item `i` gave; it counts only for the items
/// that display fields are rendered for.
pub open spec fn page_responses(
    reads: Seq<ObjectRead>,
    options: MgoObjectDataOptions,
    rendered: Seq<Result<DisplayFieldsResponse, String>>,
) -> Seq<Result<MgoObjectResponse, ConversionError>> {
    Seq::new(reads.len(), |i: int| object_response(reads[i], options, rendered[i]))
}

/// Whether `page` is the page of responses that the fetched `reads` make
/// under `limit`: one response for each read that stays, in the order of the
/// reads, the cursor and the mark of a further page taken from the reads.
pub open spec fn is_objects_page(
    page: PageView<MgoObjectResponse, ObjectID>,
    reads: Seq<ObjectRead>,
    limit: usize,
    options: MgoObjectDataOptions,
    rendered: Seq<Result<DisplayFieldsResponse, String>>,
) -> bool {
    let kept = truncated(reads, limit);
    &&& rendered.len() == kept.len()
    &&& page.data.len() == kept.len()
    &&& forall|i: int|
        0 <= i < kept.len() ==> object_response(kept[i], options, rendered[i]) == Ok::<
            MgoObjectResponse,
            ConversionError,
        >(#[trigger] page.data[i])
    &&& page.next_cursor == cursor_after(kept)
    &&& page.has_next_page == (reads.len() > limit)
}

/// A failure to render one item of a page stays with that item. Where the
/// data of every item can be built, the page has one response for each read,
/// in the order of the reads. The item whose display fields failed to render
/// carries its data and the failure; every item whose display fields did
/// render carries its data with them and no error.
pub proof fn lemma_render_failure_stays_local(
    reads: Seq<ObjectRead>,
    options: MgoObjectDataOptions,
    rendered: Seq<Result<DisplayFieldsResponse, String>>,
    k: int,
)
    requires
        rendered.len() == reads.len(),
        0 <= k < reads.len(),
        needs_display(reads[k], options),
        rendered[k] is Err,
        forall|i: int|
            0 <= i < reads.len() && (#[trigger] reads[i]) is Exists ==> !(options.show_content
                && reads[i]->Exists_2 is None),
    ensures
        page_responses(reads, options, rendered).len() == reads.len(),
        all_ok(page_responses(reads, options, rendered)),
        page_responses(reads, options, rendered)[k] matches Ok(response) && response.data == Some(
            object_data(reads[k]->Exists_0, reads[k]->Exists_1, reads[k]->Exists_2, options, None)->Ok_0,
        ) && response.error == Some(
            MgoObjectResponseError::DisplayError { error: rendered[k]->Err_0 },
        ),
        forall|i: int|
            0 <= i < reads.len() && needs_display(#[trigger] reads[i], options) && rendered[i] is Ok
                ==> page_responses(reads, options, rendered)[i] == Ok::<
                MgoObjectResponse,
                ConversionError,
            >(
                MgoObjectResponse {
                    data: Some(
                        object_data(
                            reads[i]->Exists_0,
                            reads[i]->Exists_1,
                            reads[i]->Exists_2,
                            options,
                            Some(rendered[i]->Ok_0),
                        )->Ok_0,
                    ),
                    error: None,
                },
            ),
{
    let responses = page_responses(reads, options, rendered);
    assert forall|i: int| 0 <= i < responses.len() implies (#[trigger] responses[i]) is Ok by {
        let read = reads[i];
        if read is Exists {
            assert(!(options.show_content && read->Exists_2 is None));
        }
    }
}

} // verus!
