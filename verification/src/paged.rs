//! The paged-collection synchronizer: the state machine behind an
//! infinite-scroll list. It accumulates fetched pages, keyed by a filter,
//! replaces the list on a fresh search, appends on later pages, and
//! discards stale responses by fencing every fetch with a monotonically
//! increasing request id.
//!
//! The synchronizer itself performs no fetch: each operation that needs
//! one hands back a [`FetchRequest`], the surrounding code performs it,
//! and the eventual outcome comes back through [`PagedCollection::apply_result`].

use crate::api::ApiError;
use vstd::prelude::*;

verus! {

/// What the most recent page fetch has reported: a loaded page and its
/// item count, a fetch still in flight, or a failure.
#[derive(Debug, Clone, Copy, PartialEq, Eq, Structural)]
pub enum LoadingItemsState {
    Loaded(usize),
    Loading,
    Failed,
}

/// The affordance a list view derives from the loading state: offer to
/// load more, report the bottom reached, show a loading indicator, or
/// offer a retry.
#[derive(Debug, Clone, Copy, PartialEq, Eq, Structural)]
pub enum PageAffordance {
    LoadMore,
    ReachedBottom,
    ShowLoading,
    Retry,
}

/// A filter a paged fetch is keyed by: a 1-based page, a page size, and
/// caller-defined search fields. Every field but the page takes part in
/// search equality, so that changing any of them reads as a new search.
pub trait PageFilter: Sized {
    /// The page field, 1-based.
    spec fn spec_page(&self) -> usize;

    /// The page size.
    spec fn spec_per_page(&self) -> usize;

    /// Do the two filters describe the same search: equal in every field
    /// but the page?
    spec fn spec_same_search(&self, other: &Self) -> bool;

    /// The same search, on another page.
    spec fn spec_with_page(&self, page: usize) -> Self;

    /// Search equality is an equivalence that ignores exactly the page:
    /// moving to another page never changes the search, and filters of one
    /// search share their page size.
    proof fn lemma_search_equivalence(a: &Self, b: &Self, c: &Self, page: usize)
        ensures
            a.spec_same_search(a),
            a.spec_same_search(b) == b.spec_same_search(a),
            a.spec_same_search(b) && b.spec_same_search(c) ==> a.spec_same_search(c),
            a.spec_with_page(page).spec_same_search(b) == a.spec_same_search(b),
            a.spec_with_page(page).spec_page() == page,
            a.spec_with_page(page).spec_per_page() == a.spec_per_page(),
            a.spec_same_search(b) ==> a.spec_per_page() == b.spec_per_page(),
            a.spec_with_page(a.spec_page()) == *a,
    ;

    fn page(&self) -> (r: usize)
        ensures
            r == self.spec_page(),
    ;

    fn per_page(&self) -> (r: usize)
        ensures
            r == self.spec_per_page(),
    ;

    fn same_search(&self, other: &Self) -> (r: bool)
        ensures
            r == self.spec_same_search(other),
    ;

    fn set_page(&mut self, page: usize)
        ensures
            *final(self) == old(self).spec_with_page(page),
    ;
}

/// One issued fetch: the fencing id it carries. The fetch itself is keyed
/// by the collection's filter as it stands when the request is issued.
#[derive(Debug, Clone, Copy, PartialEq, Eq, Structural)]
pub struct FetchRequest {
    pub id: u64,
}

/// The mathematical state of a paged collection, over sequences.
pub struct PagedModel<F, T> {
    pub filter: F,
    pub items: Seq<T>,
    pub state: LoadingItemsState,
    pub current_request: int,
    pub next_request: int,
}

/// Issue a fetch from model `m` for `filter`: the state turns to loading
/// and the fetch carries a fresh id, which becomes the only id whose
/// outcome will be applied.
pub open spec fn spec_issue<F, T>(m: PagedModel<F, T>, filter: F) -> (PagedModel<F, T>, int) {
    (
        PagedModel {
            filter,
            state: LoadingItemsState::Loading,
            current_request: m.next_request,
            next_request: m.next_request + 1,
            ..m
        },
        m.next_request,
    )
}

/// Change the search: when the new filter describes another search than
/// the current one (ignoring the page), the items are cleared, the page is
/// reset to 1, and a fetch is issued; otherwise nothing changes.
pub open spec fn spec_set_filter<F: PageFilter, T>(m: PagedModel<F, T>, new_filter: F) -> (
    PagedModel<F, T>,
    Option<int>,
) {
    if m.filter.spec_same_search(&new_filter) {
        (m, None)
    } else {
        let cleared = PagedModel { items: Seq::empty(), ..m };
        let (m1, id) = spec_issue(cleared, new_filter.spec_with_page(1));
        (m1, Some(id))
    }
}

/// Load the next page: the page advances on the unchanged search, the
/// items stay, and a fetch is issued.
pub open spec fn spec_load_more<F: PageFilter, T>(m: PagedModel<F, T>) -> (PagedModel<F, T>, int) {
    spec_issue(m, m.filter.spec_with_page((m.filter.spec_page() + 1) as usize))
}

/// Retry the current page: filter and items stay untouched and a fetch
/// for the identical filter is issued.
pub open spec fn spec_retry<F: PageFilter, T>(m: PagedModel<F, T>) -> (PagedModel<F, T>, int) {
    spec_issue(m, m.filter)
}

/// Apply the outcome of the fetch with id `id`: an outcome whose id is not
/// the most recently issued one is discarded without any change. A
/// successful page replaces the items when the current page is 1 and is
/// appended otherwise, and the state records the page's item count; a
/// failure leaves the items untouched and records the failure.
pub open spec fn spec_apply_result<F: PageFilter, T>(
    m: PagedModel<F, T>,
    id: int,
    outcome: Result<Seq<T>, ApiError>,
) -> PagedModel<F, T> {
    if id != m.current_request {
        m
    } else {
        match outcome {
            Ok(page_items) => PagedModel {
                items: if m.filter.spec_page() == 1 {
                    page_items
                } else {
                    m.items + page_items
                },
                state: LoadingItemsState::Loaded(page_items.len() as usize),
                ..m
            },
            Err(_) => PagedModel { state: LoadingItemsState::Failed, ..m },
        }
    }
}

/// The outcome of a fetch, over sequences.
pub open spec fn outcome_model<T>(outcome: Result<Vec<T>, ApiError>) -> Result<Seq<T>, ApiError> {
    match outcome {
        Ok(v) => Ok(v@),
        Err(e) => Err(e),
    }
}

/// The accumulated, page-fetched list state backing one list view,
/// together with the filter it is keyed by and the fencing ids of its
/// fetches.
pub struct PagedCollection<F, T> {
    pub filter: F,
    pub items: Vec<T>,
    pub state: LoadingItemsState,
    pub current_request: u64,
    pub next_request: u64,
}

impl<F: PageFilter, T> PagedCollection<F, T> {
    /// The collection as a mathematical state.
    pub open spec fn model(self) -> PagedModel<F, T> {
        PagedModel {
            filter: self.filter,
            items: self.items@,
            state: self.state,
            current_request: self.current_request as int,
            next_request: self.next_request as int,
        }
    }

    /// The collection is well formed: the page is 1-based and the most
    /// recently issued id is below the next free one.
    pub open spec fn inv(self) -> bool {
        &&& self.filter.spec_page() >= 1
        &&& self.current_request < self.next_request
    }

    /// Bind a new collection to `filter` and issue its first fetch, keyed
    /// by that filter.
    pub fn new(filter: F) -> (r: (Self, FetchRequest))
        requires
            filter.spec_page() >= 1,
        ensures
            r.0.inv(),
            r.0.filter == filter,
            r.0.items@ == Seq::<T>::empty(),
            r.0.state == LoadingItemsState::Loading,
            r.0.current_request == 0 && r.0.next_request == 1,
            r.1.id == 0,
    {
        let c = PagedCollection {
            filter,
            items: Vec::new(),
            state: LoadingItemsState::Loading,
            current_request: 0,
            next_request: 1,
        };
        let req = FetchRequest { id: 0 };
        (c, req)
    }

    /// Change the search. When `new_filter` differs from the current
    /// filter in any field but the page, the items are cleared, the page
    /// resets to 1, and the returned fetch must be performed; a filter of
    /// the same search changes nothing.
    pub fn set_filter(&mut self, new_filter: F) -> (r: Option<FetchRequest>)
        requires
            old(self).inv(),
            old(self).next_request < u64::MAX,
        ensures
            final(self).inv(),
            old(self).next_request <= final(self).next_request,
            match r {
                None => old(self).filter.spec_same_search(&new_filter) && *final(self) == *old(
                    self,
                ),
                Some(req) => {
                    &&& !old(self).filter.spec_same_search(&new_filter)
                    &&& final(self).model() == spec_set_filter(old(self).model(), new_filter).0
                    &&& spec_set_filter(old(self).model(), new_filter).1 == Some(req.id as int)
                    &&& req.id == old(self).next_request
                },
            },
    {
        if self.filter.same_search(&new_filter) {
            return None;
        }
        proof {
            F::lemma_search_equivalence(&new_filter, &new_filter, &new_filter, 1);
        }
        let mut filter1 = new_filter;
        filter1.set_page(1);
        let id = self.next_request;
        self.filter = filter1;
        self.items = Vec::new();
        self.state = LoadingItemsState::Loading;
        self.current_request = id;
        self.next_request = id + 1;
        let req = FetchRequest { id };
        proof {
            assert(final(self).model() =~= spec_set_filter(old(self).model(), new_filter).0);
        }
        Some(req)
    }

    /// Advance to the next page of the current search and issue the fetch
    /// for it. The accumulated items stay.
    pub fn load_more(&mut self) -> (r: FetchRequest)
        requires
            old(self).inv(),
            old(self).next_request < u64::MAX,
            old(self).filter.spec_page() < usize::MAX,
        ensures
            final(self).inv(),
            old(self).next_request <= final(self).next_request,
            final(self).model() == spec_load_more(old(self).model()).0,
            spec_load_more(old(self).model()).1 == r.id as int,
            r.id == old(self).next_request,
            final(self).items == old(self).items,
    {
        let page = self.filter.page();
        proof {
            F::lemma_search_equivalence(&self.filter, &self.filter, &self.filter, (page + 1) as usize);
        }
        self.filter.set_page(page + 1);
        let id = self.next_request;
        self.state = LoadingItemsState::Loading;
        self.current_request = id;
        self.next_request = id + 1;
        let req = FetchRequest { id };
        proof {
            assert(final(self).model() =~= spec_load_more(old(self).model()).0);
        }
        req
    }

    /// Re-issue the fetch for the current filter and page, unchanged. The
    /// items and the filter are not touched: only the state turns to
    /// loading, under a fresh fencing id.
    pub fn retry(&mut self) -> (r: FetchRequest)
        requires
            old(self).inv(),
            old(self).next_request < u64::MAX,
        ensures
            final(self).inv(),
            old(self).next_request <= final(self).next_request,
            final(self).model() == spec_retry(old(self).model()).0,
            spec_retry(old(self).model()).1 == r.id as int,
            r.id == old(self).next_request,
            final(self).filter == old(self).filter,
            final(self).items == old(self).items,
    {
        let id = self.next_request;
        self.state = LoadingItemsState::Loading;
        self.current_request = id;
        self.next_request = id + 1;
        let req = FetchRequest { id };
        proof {
            assert(final(self).model() =~= spec_retry(old(self).model()).0);
        }
        req
    }

    /// Apply the outcome of the fetch carrying `id`. A stale outcome — one
    /// whose id is not the most recently issued — is discarded whole. A
    /// current success replaces the items on page 1 and appends otherwise,
    /// recording the page's item count; a current failure records only the
    /// failure.
    pub fn apply_result(&mut self, id: u64, outcome: Result<Vec<T>, ApiError>) -> (applied: bool)
        requires
            old(self).inv(),
        ensures
            final(self).inv(),
            old(self).next_request <= final(self).next_request,
            final(self).model() == spec_apply_result(
                old(self).model(),
                id as int,
                outcome_model(outcome),
            ),
            applied == (id == old(self).current_request),
            !applied ==> *final(self) == *old(self),
    {
        if id != self.current_request {
            return false;
        }
        match outcome {
            Ok(mut page_items) => {
                let count = page_items.len();
                if self.filter.page() == 1 {
                    self.items = page_items;
                } else {
                    self.items.append(&mut page_items);
                }
                self.state = LoadingItemsState::Loaded(count);
            },
            Err(_) => {
                self.state = LoadingItemsState::Failed;
            },
        }
        proof {
            assert(final(self).model() =~= spec_apply_result(
                old(self).model(),
                id as int,
                outcome_model(outcome),
            ));
        }
        true
    }

    /// The affordance the view derives: loading shows an indicator; a
    /// loaded page of exactly the page size offers to load more, a shorter
    /// one reports the bottom; a failure offers a retry.
    pub fn affordance(&self) -> (r: PageAffordance)
        ensures
            r == match self.state {
                LoadingItemsState::Loaded(n) => if n == self.filter.spec_per_page() {
                    PageAffordance::LoadMore
                } else {
                    PageAffordance::ReachedBottom
                },
                LoadingItemsState::Loading => PageAffordance::ShowLoading,
                LoadingItemsState::Failed => PageAffordance::Retry,
            },
    {
        match self.state {
            LoadingItemsState::Loaded(n) => {
                if n == self.filter.per_page() {
                    PageAffordance::LoadMore
                } else {
                    PageAffordance::ReachedBottom
                }
            },
            LoadingItemsState::Loading => PageAffordance::ShowLoading,
            LoadingItemsState::Failed => PageAffordance::Retry,
        }
    }
}

/// Changing any filter field other than the page clears the items and
/// resets the page to 1, before any fetch outcome is applied.
pub proof fn lemma_filter_reset<F: PageFilter, T>(m: PagedModel<F, T>, new_filter: F)
    requires
        !m.filter.spec_same_search(&new_filter),
    ensures
        ({
            let (m1, id) = spec_set_filter(m, new_filter);
            &&& id is Some
            &&& m1.items == Seq::<T>::empty()
            &&& m1.filter.spec_page() == 1
            &&& m1.filter.spec_same_search(&new_filter)
            &&& m1.state == LoadingItemsState::Loading
        }),
{
    F::lemma_search_equivalence(&new_filter, &new_filter, &new_filter, 1);
}

/// Stale-response fencing: issue a fetch for search `fa`, then supersede
/// it with a fetch for another search `fb` before the first resolves.
/// Whatever outcome the fetch for `fa` eventually brings, applying it to
/// the superseded state changes nothing.
pub proof fn lemma_stale_response_discarded<F: PageFilter, T>(
    m: PagedModel<F, T>,
    fa: F,
    fb: F,
    outcome: Result<Seq<T>, ApiError>,
)
    requires
        !m.filter.spec_same_search(&fa),
        !fa.spec_same_search(&fb),
    ensures
        ({
            let (m1, ra) = spec_set_filter(m, fa);
            let (m2, rb) = spec_set_filter(m1, fb);
            &&& ra is Some
            &&& rb is Some
            &&& ra != rb
            &&& spec_apply_result(m2, ra.unwrap(), outcome) == m2
        }),
{
    let (m1, ra) = spec_set_filter(m, fa);
    F::lemma_search_equivalence(&fa, &fb, &fb, 1);
    assert(m1.filter == fa.spec_with_page(1));
    assert(!m1.filter.spec_same_search(&fb));
    let (m2, rb) = spec_set_filter(m1, fb);
    assert(ra == Some(m.next_request));
    assert(m2.current_request == m.next_request + 1);
}

/// More generally: once any later fetch has been issued, the outcome of
/// any earlier one is discarded, because every newly issued id exceeds all
/// ids issued before.
pub proof fn lemma_superseded_id_discarded<F: PageFilter, T>(
    m: PagedModel<F, T>,
    stale_id: int,
    outcome: Result<Seq<T>, ApiError>,
)
    requires
        stale_id != m.current_request,
    ensures
        spec_apply_result(m, stale_id, outcome) == m,
{
}

} // verus!
