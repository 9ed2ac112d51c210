use mgo_state_query::page::{
    cap_page_limit, paginate, plan_listing, ListingPlan, Page, QUERY_DEFAULT_RESULT_LIMIT,
    QUERY_MAX_RESULT_LIMIT,
};
use mgo_state_query::query::{
    MgoObjectResponseQuery, MgoTransactionBlockResponse, MgoTransactionBlockResponseOptions,
};
use mgo_state_query::types::TransactionDigest;

fn rows(n: u8) -> Vec<MgoTransactionBlockResponse> {
    (1..=n)
        .map(|k| MgoTransactionBlockResponse {
            digest: TransactionDigest([k; 32]),
            checkpoint: Some(k as u64),
            timestamp_ms: None,
        })
        .collect()
}

#[test]
fn limit_is_capped_not_rejected() {
    assert_eq!(QUERY_MAX_RESULT_LIMIT, 50);
    assert_eq!(QUERY_DEFAULT_RESULT_LIMIT, 50);
    assert_eq!(cap_page_limit(None), 50);
    assert_eq!(cap_page_limit(Some(0)), 0);
    assert_eq!(cap_page_limit(Some(1)), 1);
    assert_eq!(cap_page_limit(Some(50)), 50);
    assert_eq!(cap_page_limit(Some(51)), 50);
    assert_eq!(cap_page_limit(Some(usize::MAX)), 50);
}

#[test]
fn plan_fetches_one_row_more_than_the_limit() {
    assert_eq!(plan_listing(Some(0)), ListingPlan::Empty);
    assert_eq!(plan_listing(Some(1)), ListingPlan::Fetch { limit: 1, fetch: 2 });
    assert_eq!(plan_listing(Some(7)), ListingPlan::Fetch { limit: 7, fetch: 8 });
    assert_eq!(plan_listing(None), ListingPlan::Fetch { limit: 50, fetch: 51 });
    assert_eq!(plan_listing(Some(usize::MAX)), ListingPlan::Fetch { limit: 50, fetch: 51 });
}

#[test]
fn empty_page_has_nothing() {
    let page: Page<MgoTransactionBlockResponse, TransactionDigest> = Page::empty();
    assert!(page.data.is_empty());
    assert_eq!(page.next_cursor, None);
    assert!(!page.has_next_page);
}

#[test]
fn fewer_rows_than_the_limit_are_the_last_page() {
    let page = paginate(rows(2), 3);
    assert_eq!(page.data, rows(2));
    assert!(!page.has_next_page);
    assert_eq!(page.next_cursor, Some(TransactionDigest([2; 32])));
}

#[test]
fn exactly_the_limit_is_the_last_page() {
    let page = paginate(rows(3), 3);
    assert_eq!(page.data, rows(3));
    assert!(!page.has_next_page);
    assert_eq!(page.next_cursor, Some(TransactionDigest([3; 32])));
}

#[test]
fn extra_row_marks_a_further_page_and_is_cut_off() {
    let page = paginate(rows(4), 3);
    assert_eq!(page.data, rows(3));
    assert!(page.has_next_page);
    assert_eq!(page.next_cursor, Some(TransactionDigest([3; 32])));
}

#[test]
fn no_rows_make_the_empty_page() {
    let page = paginate(rows(0), 3);
    assert!(page.data.is_empty());
    assert!(!page.has_next_page);
    assert_eq!(page.next_cursor, None);
}

#[test]
fn limit_of_zero_keeps_no_row() {
    let page = paginate(rows(2), 0);
    assert!(page.data.is_empty());
    assert!(page.has_next_page);
    assert_eq!(page.next_cursor, None);
}

#[test]
fn same_rows_give_the_same_page() {
    let first = paginate(rows(9), 4);
    let second = paginate(rows(9), 4);
    assert_eq!(first.data, second.data);
    assert_eq!(first.next_cursor, second.next_cursor);
    assert_eq!(first.has_next_page, second.has_next_page);
}

#[test]
fn queries_default_to_no_filter_and_no_options() {
    let query = MgoObjectResponseQuery::default();
    assert_eq!(query.filter, None);
    assert_eq!(query.options, None);
    let options = MgoTransactionBlockResponseOptions::default();
    assert!(!options.show_input && !options.show_effects && !options.show_events);
}
