//! The page envelope around a dataset: index views, pages with prev and
//! next links, the pagination query parameters, and the conversion of a
//! millisecond cursor back to storage timestamp precision.
use crate::bytestr::{append_bytes, append_str, ascii_seq, lemma_bytes_deep_view};
use crate::error::ApiError;
use crate::numfmt::{dec_int, push_dec_i64};
use crate::pagination::{
    first_n, last_n, newer_than, older_than, Dataset, ItemXsdString, PAGE_SIZE,
};
use vstd::prelude::*;

verus! {

/// The address of a collection's paged view.
pub open spec fn page_id_uri(part_of: Seq<u8>) -> Seq<u8> {
    part_of + ascii_seq("?page=true"@)
}

/// The link toward newer entries, keyed by the first cursor of a page.
pub open spec fn prev_page_uri(part_of: Seq<u8>, first_id: i64) -> Seq<u8> {
    part_of + ascii_seq("?min_id="@) + dec_int(first_id as int) + ascii_seq("&page=true"@)
}

/// The link toward older entries, keyed by the last cursor of a page.
pub open spec fn next_page_uri(part_of: Seq<u8>, last_id: i64) -> Seq<u8> {
    part_of + ascii_seq("?max_id="@) + dec_int(last_id as int) + ascii_seq("&page=true"@)
}

/// The link to a collection's oldest page.
pub open spec fn last_index_uri(id: Seq<u8>) -> Seq<u8> {
    id + ascii_seq("?min_id=0&page=true"@)
}

/// One page of a collection: its address, the collection it is part of,
/// links toward newer and older pages, and the entries themselves.
#[derive(Clone, Debug)]
pub struct CollectionPage {
    pub id: Vec<u8>,
    pub part_of: Vec<u8>,
    pub prev: Option<Vec<u8>>,
    pub next: Option<Vec<u8>>,
    pub items: Vec<ItemXsdString>,
}

/// The index (non-paged) view of a collection: the total count and the
/// addresses of its first and last pages, no items.
#[derive(Clone, Debug)]
pub struct CollectionIndex {
    pub id: Vec<u8>,
    pub total_items: u64,
    pub first: Vec<u8>,
    pub last: Vec<u8>,
}

/// Wraps fetched entries in a page envelope: a prev link toward newer
/// entries when asked for and the page is non-empty, and a next link
/// toward older entries exactly when the page is full, signalling that
/// more may exist.
pub fn build_page(part_of: &Vec<u8>, items: Vec<ItemXsdString>, add_prev: bool) -> (p:
    CollectionPage)
    ensures
        p.id@ == page_id_uri(part_of@),
        p.part_of@ == part_of@,
        p.items == items,
        p.prev.deep_view() == (if items.deep_view().len() > 0 && add_prev {
            Some(prev_page_uri(part_of@, items.deep_view()[0].0))
        } else {
            None::<Seq<u8>>
        }),
        p.next.deep_view() == (if items.deep_view().len() == PAGE_SIZE as int {
            Some(next_page_uri(part_of@, items.deep_view().last().0))
        } else {
            None::<Seq<u8>>
        }),
{
    proof {
        reveal_strlit("?page=true");
        reveal_strlit("?min_id=");
        reveal_strlit("?max_id=");
        reveal_strlit("&page=true");
    }
    let mut id: Vec<u8> = Vec::new();
    append_bytes(&mut id, part_of.as_slice());
    append_str(&mut id, "?page=true");

    let mut own_part_of: Vec<u8> = Vec::new();
    append_bytes(&mut own_part_of, part_of.as_slice());

    let prev: Option<Vec<u8>> = if items.len() > 0 && add_prev {
        let mut u: Vec<u8> = Vec::new();
        append_bytes(&mut u, part_of.as_slice());
        append_str(&mut u, "?min_id=");
        push_dec_i64(items[0].id, &mut u);
        append_str(&mut u, "&page=true");
        proof {
            lemma_bytes_deep_view(&u);
        }
        Some(u)
    } else {
        None
    };
    let next: Option<Vec<u8>> = if items.len() == PAGE_SIZE {
        let mut u: Vec<u8> = Vec::new();
        append_bytes(&mut u, part_of.as_slice());
        append_str(&mut u, "?max_id=");
        push_dec_i64(items[items.len() - 1].id, &mut u);
        append_str(&mut u, "&page=true");
        proof {
            lemma_bytes_deep_view(&u);
        }
        Some(u)
    } else {
        None
    };
    CollectionPage { id, part_of: own_part_of, prev, next, items }
}

/// The index view over a collection address and its total count.
pub fn build_index(id: &Vec<u8>, total_items: u64) -> (r: CollectionIndex)
    ensures
        r.id@ == id@,
        r.total_items == total_items,
        r.first@ == page_id_uri(id@),
        r.last@ == last_index_uri(id@),
{
    proof {
        reveal_strlit("?page=true");
        reveal_strlit("?min_id=0&page=true");
    }
    let mut own_id: Vec<u8> = Vec::new();
    append_bytes(&mut own_id, id.as_slice());
    let mut first: Vec<u8> = Vec::new();
    append_bytes(&mut first, id.as_slice());
    append_str(&mut first, "?page=true");
    let mut last: Vec<u8> = Vec::new();
    append_bytes(&mut last, id.as_slice());
    append_str(&mut last, "?min_id=0&page=true");
    CollectionIndex { id: own_id, total_items, first, last }
}

/// A paginated collection: an ordered dataset together with the address
/// the protocol knows it under.
#[derive(Clone, Debug)]
pub struct Collection {
    pub provider: Dataset,
    pub collection_id: Vec<u8>,
}

impl Collection {
    /// The dataset is ordered newest first.
    pub open spec fn wf(&self) -> bool {
        self.provider.wf()
    }

    /// A collection over a dataset, under the given address.
    pub fn new(provider: Dataset, collection_id: Vec<u8>) -> (r: Collection)
        ensures
            r.provider == provider,
            r.collection_id == collection_id,
    {
        Collection { provider, collection_id }
    }

    /// The collection's address.
    pub fn id(&self) -> (r: &Vec<u8>)
        ensures
            r@ == self.collection_id@,
    {
        &self.collection_id
    }

    /// How many entries the collection holds.
    pub fn len(&self) -> (r: u64)
        ensures
            r == self.provider.model().len(),
    {
        self.provider.total_count()
    }

    /// The index view: total count and first and last page addresses.
    pub fn index_page(&self) -> (r: CollectionIndex)
        ensures
            r.id@ == self.collection_id@,
            r.total_items == self.provider.model().len(),
            r.first@ == page_id_uri(self.collection_id@),
            r.last@ == last_index_uri(self.collection_id@),
    {
        let total = self.provider.total_count();
        build_index(&self.collection_id, total)
    }

    /// The newest page, without a prev link.
    pub fn first_page(&self) -> (p: CollectionPage)
        ensures
            p.items.deep_view() == first_n(self.provider.model(), PAGE_SIZE as int),
            p.id@ == page_id_uri(self.collection_id@),
            p.part_of@ == self.collection_id@,
            p.prev is None,
            p.next.deep_view() == (if p.items.deep_view().len() == PAGE_SIZE as int {
                Some(next_page_uri(self.collection_id@, p.items.deep_view().last().0))
            } else {
                None::<Seq<u8>>
            }),
    {
        let items = self.provider.first_page();
        build_page(&self.collection_id, items, false)
    }

    /// The page of entries older than the cursor, with a prev link when
    /// non-empty.
    pub fn max_id_page(&self, max_id: i64) -> (p: CollectionPage)
        requires
            self.wf(),
        ensures
            p.items.deep_view() == first_n(
                older_than(self.provider.model(), max_id),
                PAGE_SIZE as int,
            ),
            p.id@ == page_id_uri(self.collection_id@),
            p.part_of@ == self.collection_id@,
            p.prev.deep_view() == (if p.items.deep_view().len() > 0 {
                Some(prev_page_uri(self.collection_id@, p.items.deep_view()[0].0))
            } else {
                None::<Seq<u8>>
            }),
            p.next.deep_view() == (if p.items.deep_view().len() == PAGE_SIZE as int {
                Some(next_page_uri(self.collection_id@, p.items.deep_view().last().0))
            } else {
                None::<Seq<u8>>
            }),
    {
        let items = self.provider.page_before(max_id);
        build_page(&self.collection_id, items, true)
    }

    /// The page of entries newer than the cursor, newest first, with a
    /// prev link when non-empty.
    pub fn min_id_page(&self, min_id: i64) -> (p: CollectionPage)
        requires
            self.wf(),
        ensures
            p.items.deep_view() == last_n(
                newer_than(self.provider.model(), min_id),
                PAGE_SIZE as int,
            ),
            p.id@ == page_id_uri(self.collection_id@),
            p.part_of@ == self.collection_id@,
            p.prev.deep_view() == (if p.items.deep_view().len() > 0 {
                Some(prev_page_uri(self.collection_id@, p.items.deep_view()[0].0))
            } else {
                None::<Seq<u8>>
            }),
            p.next.deep_view() == (if p.items.deep_view().len() == PAGE_SIZE as int {
                Some(next_page_uri(self.collection_id@, p.items.deep_view().last().0))
            } else {
                None::<Seq<u8>>
            }),
    {
        let items = self.provider.page_after(min_id);
        build_page(&self.collection_id, items, true)
    }
}

/// Which view of a collection a request asks for.
#[derive(Clone, Copy, Debug, PartialEq, Eq, Structural)]
pub enum PageSelector {
    Index,
    First,
    MaxId(i64),
    MinId(i64),
}

/// Decides which view the pagination query parameters ask for. Supplying
/// both cursors is a client error.
pub fn select_page(page: bool, max_id: Option<i64>, min_id: Option<i64>) -> (r: Result<
    PageSelector,
    ApiError,
>)
    ensures
        !page ==> r == Ok::<PageSelector, ApiError>(PageSelector::Index),
        page && max_id is Some && min_id is Some ==> r == Err::<PageSelector, ApiError>(
            ApiError::OtherBadRequest,
        ),
        page && max_id is Some && min_id is None ==> r == Ok::<PageSelector, ApiError>(
            PageSelector::MaxId(max_id->Some_0),
        ),
        page && max_id is None && min_id is Some ==> r == Ok::<PageSelector, ApiError>(
            PageSelector::MinId(min_id->Some_0),
        ),
        page && max_id is None && min_id is None ==> r == Ok::<PageSelector, ApiError>(
            PageSelector::First,
        ),
{
    if !page {
        return Ok(PageSelector::Index);
    }
    match (max_id, min_id) {
        (Some(_), Some(_)) => Err(ApiError::OtherBadRequest),
        (Some(c), None) => Ok(PageSelector::MaxId(c)),
        (None, Some(c)) => Ok(PageSelector::MinId(c)),
        (None, None) => Ok(PageSelector::First),
    }
}

/// Either answer a collection endpoint gives: the index view, or one
/// page.
#[derive(Clone, Debug)]
pub enum CollectionView {
    Index(CollectionIndex),
    Page(CollectionPage),
}

/// Serves a collection request end to end: decides which view the query
/// parameters ask for and produces it over the dataset. Supplying both
/// cursors is refused; everything else is answered.
pub fn serve_collection(
    provider: Dataset,
    collection_id: Vec<u8>,
    page: bool,
    max_id: Option<i64>,
    min_id: Option<i64>,
) -> (r: Result<CollectionView, ApiError>)
    requires
        provider.wf(),
    ensures
        page && max_id is Some && min_id is Some ==> (r matches Err(e) && e
            == ApiError::OtherBadRequest),
        !page ==> (r matches Ok(v) && v matches CollectionView::Index(ix) && ix.id@
            == collection_id@ && ix.total_items == provider.model().len() && ix.first@
            == page_id_uri(collection_id@) && ix.last@ == last_index_uri(collection_id@)),
        (page && max_id is None && min_id is None) ==> (r matches Ok(v) && v matches
            CollectionView::Page(p) && p.items.deep_view() == first_n(
            provider.model(),
            PAGE_SIZE as int,
        ) && p.part_of@ == collection_id@ && p.prev is None),
        (page && max_id is Some && min_id is None) ==> (r matches Ok(v) && v matches
            CollectionView::Page(p) && p.items.deep_view() == first_n(
            older_than(provider.model(), max_id->Some_0),
            PAGE_SIZE as int,
        ) && p.part_of@ == collection_id@),
        (page && max_id is None && min_id is Some) ==> (r matches Ok(v) && v matches
            CollectionView::Page(p) && p.items.deep_view() == last_n(
            newer_than(provider.model(), min_id->Some_0),
            PAGE_SIZE as int,
        ) && p.part_of@ == collection_id@),
{
    let collection = Collection::new(provider, collection_id);
    match select_page(page, max_id, min_id) {
        Err(e) => Err(e),
        Ok(PageSelector::Index) => Ok(CollectionView::Index(collection.index_page())),
        Ok(PageSelector::First) => Ok(CollectionView::Page(collection.first_page())),
        Ok(PageSelector::MaxId(c)) => Ok(CollectionView::Page(collection.max_id_page(c))),
        Ok(PageSelector::MinId(c)) => Ok(CollectionView::Page(collection.min_id_page(c))),
    }
}

/// The pagination query parameters of an inbox request.
#[derive(Clone, Copy, Debug)]
pub struct GetInboxQuery {
    pub page: bool,
    pub max_id: Option<i64>,
    pub min_id: Option<i64>,
}

/// The pagination query parameters of an outbox request.
#[derive(Clone, Copy, Debug)]
pub struct GetOutboxQuery {
    pub page: bool,
    pub max_id: Option<i64>,
    pub min_id: Option<i64>,
}

/// The pagination query parameters of a followers request.
#[derive(Clone, Copy, Debug)]
pub struct GetFollowersQuery {
    pub page: bool,
    pub max_id: Option<i64>,
    pub min_id: Option<i64>,
}

/// The pagination query parameters of a following request.
#[derive(Clone, Copy, Debug)]
pub struct GetFollowingQuery {
    pub page: bool,
    pub max_id: Option<i64>,
    pub min_id: Option<i64>,
}

/// Converts a millisecond cursor to whole seconds and nanoseconds within
/// the second, without losing sub-second precision. A negative cursor
/// whose millisecond remainder is nonzero has no nanosecond representation
/// this way and is an internal error, as is the far edge of the range.
pub fn cursor_to_timestamp_parts(ms: i64) -> (r: Result<(i64, u32), ApiError>)
    ensures
        ms >= 0 ==> r == Ok::<(i64, u32), ApiError>(
            ((ms / 1000) as i64, ((ms % 1000) * 1000000) as u32),
        ),
        ms < 0 && (-ms) % 1000 == 0 ==> r == Ok::<(i64, u32), ApiError>(
            ((0 - ((-ms) / 1000)) as i64, 0u32),
        ),
        ms < 0 && (-ms) % 1000 != 0 ==> r == Err::<(i64, u32), ApiError>(
            ApiError::InternalServerError,
        ),
{
    if ms >= 0 {
        let secs = ms / 1000;
        let millis = ms % 1000;
        Ok((secs, (millis * 1000) as u32 * 1000))
    } else {
        let wide: i128 = ms as i128;
        let mag: i128 = -wide;
        let rem: i128 = mag % 1000;
        if rem == 0 {
            let secs: i64 = (mag / 1000) as i64;
            Ok((0 - secs, 0))
        } else {
            Err(ApiError::InternalServerError)
        }
    }
}

} // verus!
