//! Cursor pagination shared by every listing query.
//!
//! A listing asks its backend for one row more than the page may hold. The
//! extra row is never returned: its presence alone tells whether a further
//! page exists, so no second round trip and no count query is needed.

use vstd::prelude::*;

verus! {

/// Largest page a listing query returns.
pub const QUERY_MAX_RESULT_LIMIT: usize = 50;

/// Page size of a listing query that names none.
pub const QUERY_DEFAULT_RESULT_LIMIT: usize = 50;

/// The limit a query runs with: the default where none was asked for, the
/// maximum where more was asked for, the requested one otherwise.
pub open spec fn capped_limit(limit: Option<usize>) -> usize {
    match limit {
        None => QUERY_DEFAULT_RESULT_LIMIT,
        Some(n) => if n > QUERY_MAX_RESULT_LIMIT {
            QUERY_MAX_RESULT_LIMIT
        } else {
            n
        },
    }
}

/// Caps a requested page size. A request above the maximum is capped, not
/// rejected; a request for zero rows stays zero.
pub fn cap_page_limit(limit: Option<usize>) -> (capped: usize)
    ensures
        capped == capped_limit(limit),
        capped <= QUERY_MAX_RESULT_LIMIT,
{
    match limit {
        None => QUERY_DEFAULT_RESULT_LIMIT,
        Some(n) => if n > QUERY_MAX_RESULT_LIMIT {
            QUERY_MAX_RESULT_LIMIT
        } else {
            n
        },
    }
}

/// What a listing query does before it touches the backend.
#[derive(Clone, Copy, Debug, PartialEq, Eq)]
pub enum ListingPlan {
    /// Answer with the empty page; the backend is not called.
    Empty,
    /// Ask the backend for `fetch` rows and cut the answer down to `limit`.
    Fetch { limit: usize, fetch: usize },
}

/// The plan for a requested page size: nothing is fetched for a page of zero
/// rows, and one row beyond the capped limit otherwise.
pub open spec fn listing_plan(limit: Option<usize>) -> ListingPlan {
    let capped = capped_limit(limit);
    if capped == 0 {
        ListingPlan::Empty
    } else {
        ListingPlan::Fetch { limit: capped, fetch: (capped + 1) as usize }
    }
}

/// Decides whether a listing query reaches the backend at all, and with
/// which fetch size.
pub fn plan_listing(limit: Option<usize>) -> (plan: ListingPlan)
    ensures
        plan == listing_plan(limit),
        plan is Empty <==> capped_limit(limit) == 0,
        plan matches ListingPlan::Fetch { limit: l, fetch: f } ==> 0 < l <= QUERY_MAX_RESULT_LIMIT
            && f == l + 1,
{
    let capped = cap_page_limit(limit);
    if capped == 0 {
        ListingPlan::Empty
    } else {
        ListingPlan::Fetch { limit: capped, fetch: capped + 1 }
    }
}

/// A row of a listing, which knows the key a cursor names it by.
pub trait Keyed {
    /// The cursor type of the listing.
    type Key;

    /// The key of this row.
    spec fn key_spec(&self) -> Self::Key;

    fn key(&self) -> (k: Self::Key)
        ensures
            k == self.key_spec(),
    ;
}

/// One page of a listing.
#[derive(Debug)]
pub struct Page<T, C> {
    /// The rows, in query order.
    pub data: Vec<T>,
    /// Key of the last row of `data`; the next query starts strictly after it.
    pub next_cursor: Option<C>,
    /// Whether the backend held rows beyond this page.
    pub has_next_page: bool,
}

/// Mathematical content of a [`Page`].
pub struct PageView<T, C> {
    pub data: Seq<T>,
    pub next_cursor: Option<C>,
    pub has_next_page: bool,
}

impl<T, C> View for Page<T, C> {
    type V = PageView<T, C>;

    open spec fn view(&self) -> PageView<T, C> {
        PageView {
            data: self.data@,
            next_cursor: self.next_cursor,
            has_next_page: self.has_next_page,
        }
    }
}

/// The page without rows.
pub open spec fn empty_page<T, C>() -> PageView<T, C> {
    PageView { data: Seq::empty(), next_cursor: None, has_next_page: false }
}

impl<T, C> Page<T, C> {
    /// The empty page: no rows, no cursor, no further page.
    pub fn empty() -> (page: Self)
        ensures
            page@ == empty_page::<T, C>(),
    {
        Page { data: Vec::new(), next_cursor: None, has_next_page: false }
    }
}

/// The first `limit` rows of `rows`, or all of them where there are fewer.
pub open spec fn truncated<T>(rows: Seq<T>, limit: usize) -> Seq<T> {
    if rows.len() > limit {
        rows.take(limit as int)
    } else {
        rows
    }
}

/// The cursor after a page: the key of its last row, none for no rows.
pub open spec fn cursor_after<T: Keyed>(data: Seq<T>) -> Option<T::Key> {
    if data.len() == 0 {
        None
    } else {
        Some(data.last().key_spec())
    }
}

/// The page that the fetched rows make under `limit`.
pub open spec fn page_of<T: Keyed>(rows: Seq<T>, limit: usize) -> PageView<T, T::Key> {
    PageView {
        data: truncated(rows, limit),
        next_cursor: cursor_after(truncated(rows, limit)),
        has_next_page: rows.len() > limit,
    }
}

/// Whether `page` is what some fetched rows make under `limit`.
pub open spec fn is_page_under<T: Keyed>(page: PageView<T, T::Key>, limit: usize) -> bool {
    exists|rows: Seq<T>| page == #[trigger] page_of(rows, limit)
}

/// Cuts the fetched rows down to one page: at most `limit` rows in the order
/// they came, a further page exactly when more than `limit` rows came, and
/// the cursor taken from the last row that stays, never from the row cut off.
pub fn paginate<T: Keyed>(rows: Vec<T>, limit: usize) -> (page: Page<T, T::Key>)
    ensures
        page@ == page_of(rows@, limit),
        page.data@.len() <= limit,
        page.data@ =~= rows@.take(page.data@.len() as int),
        page.has_next_page <==> rows@.len() > limit,
        page.data@.len() == 0 ==> page.next_cursor is None,
        page.data@.len() > 0 ==> page.next_cursor == Some(page.data@.last().key_spec()),
{
    let ghost fetched_rows = rows@;
    let mut data = rows;
    let has_next_page = data.len() > limit;
    data.truncate(limit);
    assert(data@ =~= truncated(fetched_rows, limit));
    let next_cursor = match data.last() {
        Some(row) => Some(row.key()),
        None => None,
    };
    Page { data, next_cursor, has_next_page }
}

/// What a backend that holds `available` rows beyond the cursor hands over
/// when asked for `fetch` of them.
pub open spec fn fetched<T>(available: Seq<T>, fetch: usize) -> Seq<T> {
    truncated(available, fetch)
}

/// Fetching one row beyond the limit decides the next page: the page holds
/// the first `limit` rows beyond the cursor, and reports a further page
/// exactly when more than `limit` rows lie beyond the cursor.
pub proof fn lemma_fetch_one_extra<T: Keyed>(available: Seq<T>, limit: usize)
    requires
        limit < usize::MAX,
    ensures
        page_of(fetched(available, (limit + 1) as usize), limit).data == truncated(
            available,
            limit,
        ),
        page_of(fetched(available, (limit + 1) as usize), limit).has_next_page <==> available.len()
            > limit,
        page_of(fetched(available, (limit + 1) as usize), limit) == page_of(available, limit),
{
    let rows = fetched(available, (limit + 1) as usize);
    assert(truncated(rows, limit) =~= truncated(available, limit));
}

/// A page never holds more rows than the limit, its cursor is the key of its
/// last row, and it has no cursor exactly when it has no rows.
pub proof fn lemma_page_shape<T: Keyed>(rows: Seq<T>, limit: usize)
    ensures
        page_of(rows, limit).data.len() <= limit,
        page_of(rows, limit).data.len() <= rows.len(),
        forall|i: int|
            0 <= i < page_of(rows, limit).data.len() ==> page_of(rows, limit).data[i] == rows[i],
        page_of(rows, limit).next_cursor is None <==> page_of(rows, limit).data.len() == 0,
        page_of(rows, limit).data.len() > 0 ==> page_of(rows, limit).next_cursor == Some(
            rows[page_of(rows, limit).data.len() - 1].key_spec(),
        ),
        limit == 0 ==> page_of(rows, limit).data.len() == 0,
{
}

/// Whether no two of the rows have the same key.
pub open spec fn distinct_keys<T: Keyed>(all: Seq<T>) -> bool {
    forall|i: int, j: int|
        0 <= i < all.len() && 0 <= j < all.len() && (#[trigger] all[i]).key_spec() == (
        #[trigger] all[j]).key_spec() ==> i == j
}

/// Whether the row at `i` is the one that the cursor names.
pub open spec fn names_row<T: Keyed>(all: Seq<T>, key: T::Key, i: int) -> bool {
    0 <= i < all.len() && all[i].key_spec() == key
}

/// The position of the row that the cursor names, where there is one.
pub open spec fn row_index<T: Keyed>(all: Seq<T>, key: T::Key) -> int {
    choose|i: int| names_row(all, key, i)
}

/// The rows of an ordered listing that lie strictly after the cursor: all of
/// them without a cursor, none after a cursor that names no row.
pub open spec fn rows_after<T: Keyed>(all: Seq<T>, cursor: Option<T::Key>) -> Seq<T> {
    match cursor {
        None => all,
        Some(key) => if names_row(all, key, row_index(all, key)) {
            all.skip(row_index(all, key) + 1)
        } else {
            Seq::empty()
        },
    }
}

/// The page that a listing over `all` answers with.
pub open spec fn listing<T: Keyed>(all: Seq<T>, cursor: Option<T::Key>, limit: usize) -> PageView<
    T,
    T::Key,
> {
    page_of(fetched(rows_after(all, cursor), (limit + 1) as usize), limit)
}

/// Pages follow each other without a gap and without a repeat: where a page
/// reports a further page, the listing from its cursor on starts with the
/// row that follows its last row.
pub proof fn lemma_next_page_continues<T: Keyed>(
    all: Seq<T>,
    cursor: Option<T::Key>,
    limit: usize,
)
    requires
        distinct_keys(all),
        0 < limit < usize::MAX,
        listing(all, cursor, limit).has_next_page,
    ensures
        listing(all, cursor, limit).data == rows_after(all, cursor).take(limit as int),
        listing(all, cursor, limit).next_cursor is Some,
        rows_after(all, listing(all, cursor, limit).next_cursor) == rows_after(all, cursor).skip(
            limit as int,
        ),
        listing(all, listing(all, cursor, limit).next_cursor, limit).data == truncated(
            rows_after(all, cursor).skip(limit as int),
            limit,
        ),
{
    let rows = rows_after(all, cursor);
    lemma_fetch_one_extra(rows, limit);
    let page = listing(all, cursor, limit);
    assert(page.data == rows.take(limit as int));
    let start: int = match cursor {
        None => 0,
        Some(key) => row_index(all, key) + 1,
    };
    assert(rows == all.skip(start) && 0 <= start <= all.len()) by {
        match cursor {
            None => {
                assert(all.skip(0) =~= all);
            },
            Some(key) => {
                if !names_row(all, key, row_index(all, key)) {
                    assert(rows.len() == 0);
                }
            },
        }
    }
    let last = start + limit - 1;
    assert(page.data.last() == all[last]);
    let key = all[last].key_spec();
    assert(page.next_cursor == Some(key));
    assert(names_row(all, key, last));
    let found = row_index(all, key);
    assert(names_row(all, key, found));
    assert(found == last);
    assert(all.skip(last + 1) =~= rows.skip(limit as int));
    assert(rows_after(all, Some(key)) == all.skip(found + 1));
    assert(rows_after(all, page.next_cursor) == rows.skip(limit as int));
    lemma_fetch_one_extra(rows.skip(limit as int), limit);
    assert(listing(all, page.next_cursor, limit).data == truncated(
        rows.skip(limit as int),
        limit,
    ));
}

/// Listing is a function of what the backend holds: against the same rows,
/// the same cursor and the same limit give the same page, however often the
/// listing is asked for.
pub proof fn lemma_listing_repeatable<T: Keyed>(
    first: Seq<T>,
    second: Seq<T>,
    cursor: Option<T::Key>,
    limit: Option<usize>,
)
    requires
        first == second,
    ensures
        listing(first, cursor, capped_limit(limit)) == listing(second, cursor, capped_limit(limit)),
        listing(first, cursor, capped_limit(limit)) == page_of(
            rows_after(first, cursor),
            capped_limit(limit),
        ),
{
    lemma_fetch_one_extra(rows_after(first, cursor), capped_limit(limit));
}

} // verus!
