use mcc_frontend_core::api::{ApiError, ApiInternalError};
use mcc_frontend_core::paged::{LoadingItemsState, PageAffordance, PagedCollection};
use mcc_frontend_core::query::{PantryFilter, RecipesFilter};

fn items(from: u32, count: u32) -> Vec<u32> {
    (from..from + count).collect()
}

fn filter_titled(title: &str) -> RecipesFilter {
    RecipesFilter { title: Some(title.to_owned()), ..RecipesFilter::default() }
}

#[test]
fn full_page_offers_load_more() {
    let (mut c, req) = PagedCollection::<RecipesFilter, u32>::new(RecipesFilter::default());
    assert!(matches!(c.state, LoadingItemsState::Loading));
    assert_eq!(c.affordance(), PageAffordance::ShowLoading);

    let applied = c.apply_result(req.id, Ok(items(0, 20)));
    assert!(applied);
    assert!(matches!(c.state, LoadingItemsState::Loaded(20)));
    assert_eq!(c.items.len(), 20);
    assert_eq!(c.affordance(), PageAffordance::LoadMore);
}

#[test]
fn short_page_reaches_bottom() {
    let (mut c, req) = PagedCollection::<RecipesFilter, u32>::new(RecipesFilter::default());
    let applied = c.apply_result(req.id, Ok(items(0, 15)));
    assert!(applied);
    assert!(matches!(c.state, LoadingItemsState::Loaded(15)));
    assert_eq!(c.affordance(), PageAffordance::ReachedBottom);
}

#[test]
fn load_more_appends_to_tail() {
    let (mut c, req) = PagedCollection::<RecipesFilter, u32>::new(RecipesFilter::default());
    c.apply_result(req.id, Ok(items(0, 20)));

    let req2 = c.load_more();
    assert_eq!(c.filter.page, 2);
    assert_eq!(c.items.len(), 20, "items stay while the next page loads");
    c.apply_result(req2.id, Ok(items(20, 20)));
    assert_eq!(c.items, items(0, 40), "the second page lands at the tail");
}

#[test]
fn failure_and_retry_reissue_identical_request() {
    let (mut c, req) = PagedCollection::<RecipesFilter, u32>::new(RecipesFilter::default());
    c.apply_result(req.id, Ok(items(0, 20)));
    let req2 = c.load_more();
    let page_before = c.filter.page;
    let items_before = c.items.clone();

    let applied = c.apply_result(
        req2.id,
        Err(ApiError::Internal(ApiInternalError::Connection)),
    );
    assert!(applied);
    assert!(matches!(c.state, LoadingItemsState::Failed));
    assert_eq!(c.items, items_before, "a failure leaves the items untouched");
    assert_eq!(c.affordance(), PageAffordance::Retry);

    let req3 = c.retry();
    assert_eq!(c.filter.page, page_before, "retry keeps the page");
    assert_eq!(c.filter.title, None, "retry keeps the search fields");
    assert_eq!(c.items, items_before, "retry does not mutate the items");
    assert!(req3.id > req2.id, "the retry is a fresh request");
    assert!(matches!(c.state, LoadingItemsState::Loading));
}

#[test]
fn filter_change_clears_items_and_resets_page() {
    let (mut c, req) = PagedCollection::<RecipesFilter, u32>::new(RecipesFilter::default());
    c.apply_result(req.id, Ok(items(0, 20)));
    let req2 = c.load_more();
    c.apply_result(req2.id, Ok(items(20, 20)));
    assert_eq!(c.filter.page, 2);
    assert_eq!(c.items.len(), 40);

    let req3 = c.set_filter(filter_titled("cake"));
    assert!(req3.is_some(), "a changed search issues a fetch");
    assert_eq!(c.filter.page, 1, "the page resets to 1");
    assert!(c.items.is_empty(), "the items are cleared before any result lands");
    assert_eq!(c.filter.title.as_deref(), Some("cake"));
}

#[test]
fn same_search_filter_is_ignored() {
    let (mut c, req) = PagedCollection::<RecipesFilter, u32>::new(RecipesFilter::default());
    c.apply_result(req.id, Ok(items(0, 20)));

    // an equal search (page aside) issues nothing and changes nothing
    let again = c.set_filter(RecipesFilter { page: 7, ..RecipesFilter::default() });
    assert!(again.is_none());
    assert_eq!(c.items.len(), 20);
    assert!(matches!(c.state, LoadingItemsState::Loaded(20)));
}

#[test]
fn stale_response_is_discarded() {
    let (mut c, req) = PagedCollection::<RecipesFilter, u32>::new(RecipesFilter::default());
    c.apply_result(req.id, Ok(items(0, 20)));

    // search A, then search B before A's fetch resolves
    let req_a = c.set_filter(filter_titled("a")).unwrap();
    let req_b = c.set_filter(filter_titled("b")).unwrap();

    // A's result arrives after B was issued: it must not be applied
    let applied = c.apply_result(req_a.id, Ok(items(100, 20)));
    assert!(!applied);
    assert!(c.items.is_empty());
    assert!(matches!(c.state, LoadingItemsState::Loading));
    assert_eq!(c.filter.title.as_deref(), Some("b"));

    // B's own result is applied
    let applied = c.apply_result(req_b.id, Ok(items(200, 20)));
    assert!(applied);
    assert_eq!(c.items, items(200, 20));
}

#[test]
fn replace_on_first_page_after_reset() {
    // a page-1 success replaces the items, never appends to a stale tail
    let (mut c, req) = PagedCollection::<RecipesFilter, u32>::new(RecipesFilter::default());
    c.apply_result(req.id, Ok(items(0, 20)));
    let req2 = c.set_filter(filter_titled("soup")).unwrap();
    c.apply_result(req2.id, Ok(items(50, 5)));
    assert_eq!(c.items, items(50, 5));
    assert!(matches!(c.state, LoadingItemsState::Loaded(5)));
}

#[test]
fn pantry_filter_keys_a_search_too() {
    let (mut c, req) = PagedCollection::<PantryFilter, u32>::new(PantryFilter::default());
    c.apply_result(req.id, Ok(items(0, 20)));

    let changed = PantryFilter { expired: Some(true), ..PantryFilter::default() };
    let req2 = c.set_filter(changed);
    assert!(req2.is_some());
    assert_eq!(c.filter.page, 1);
    assert!(c.items.is_empty());
}
