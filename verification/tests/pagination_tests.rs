use activitymemes::collection::{
    build_index, build_page, cursor_to_timestamp_parts, select_page, serve_collection, Collection,
    CollectionView, PageSelector,
};
use activitymemes::error::ApiError;
use activitymemes::pagination::{Dataset, ItemXsdString, Stream, PAGE_SIZE};

fn entry(id: i64) -> ItemXsdString {
    ItemXsdString { id, data: format!("item-{}", id).into_bytes() }
}

/// A dataset of `n` entries with cursors n, n-1, ..., 1: newest first.
fn dataset(n: i64) -> Dataset {
    Dataset::new((0..n).map(|i| entry(n - i)).collect())
}

#[test]
fn first_page_holds_the_newest_twenty() {
    let ds = dataset(45);
    let page = ds.first_page();
    assert_eq!(page.len(), 20);
    assert_eq!(page[0].id, 45);
    assert_eq!(page[19].id, 26);
}

#[test]
fn page_before_returns_strictly_older_entries() {
    let ds = dataset(45);
    let page = ds.page_before(26);
    assert_eq!(page.len(), 20);
    assert_eq!(page[0].id, 25);
    assert_eq!(page[19].id, 6);
}

#[test]
fn page_after_returns_the_nearest_newer_entries_descending() {
    let ds = dataset(45);
    let page = ds.page_after(6);
    assert_eq!(page.len(), 20);
    assert_eq!(page[0].id, 26);
    assert_eq!(page[19].id, 7);
}

#[test]
fn walking_pages_yields_every_entry_exactly_once_descending() {
    let ds = dataset(45);
    let walked = ds.walk_pages();
    assert_eq!(walked.len(), 45);
    for (i, item) in walked.iter().enumerate() {
        assert_eq!(item.id, 45 - i as i64);
        assert_eq!(item.data, format!("item-{}", 45 - i as i64).into_bytes());
    }
}

#[test]
fn walking_pages_handles_a_multiple_of_the_page_size() {
    let ds = dataset(40);
    let walked = ds.walk_pages();
    assert_eq!(walked.len(), 40);
    for (i, item) in walked.iter().enumerate() {
        assert_eq!(item.id, 40 - i as i64);
    }
}

#[test]
fn cursor_symmetry_pages_adjoin_without_gap_or_overlap() {
    // Page backward from entry 30's cursor, then forward from the
    // returned page's boundary: the forward page ends exactly at entry
    // 30 and the two pages cover one contiguous stretch.
    let ds = dataset(45);
    let before = ds.page_before(30);
    assert_eq!(before[0].id, 29);
    let after = ds.page_after(before[0].id);
    assert_eq!(after.last().unwrap().id, 30);
    let mut stretch: Vec<i64> = after.iter().map(|i| i.id).collect();
    stretch.extend(before.iter().map(|i| i.id));
    for pair in stretch.windows(2) {
        assert_eq!(pair[0], pair[1] + 1);
    }
}

#[test]
fn stream_yields_every_entry_in_order() {
    let ds = dataset(45);
    let mut stream = Stream::new(ds);
    let mut seen: Vec<i64> = Vec::new();
    while let Some(item) = stream.next() {
        seen.push(item.id);
    }
    assert_eq!(seen, (1..=45).rev().collect::<Vec<i64>>());
    assert!(stream.next().is_none());
}

#[test]
fn stream_over_an_empty_dataset_ends_at_once() {
    let mut stream = Stream::new(dataset(0));
    assert!(stream.next().is_none());
}

#[test]
fn full_page_gets_a_next_link_and_short_page_does_not() {
    let part_of = b"https://instance/users/alice/outbox".to_vec();
    let full: Vec<ItemXsdString> = (0..PAGE_SIZE as i64).map(|i| entry(100 - i)).collect();
    let page = build_page(&part_of, full, false);
    assert_eq!(
        page.id,
        b"https://instance/users/alice/outbox?page=true".to_vec()
    );
    assert_eq!(page.part_of, part_of);
    assert!(page.prev.is_none());
    assert_eq!(
        page.next,
        Some(b"https://instance/users/alice/outbox?max_id=81&page=true".to_vec())
    );

    let short: Vec<ItemXsdString> = (0..3).map(|i| entry(10 - i)).collect();
    let page2 = build_page(&part_of, short, true);
    assert_eq!(
        page2.prev,
        Some(b"https://instance/users/alice/outbox?min_id=10&page=true".to_vec())
    );
    assert!(page2.next.is_none());
}

#[test]
fn empty_page_carries_no_links() {
    let part_of = b"https://instance/users/alice/inbox".to_vec();
    let page = build_page(&part_of, Vec::new(), true);
    assert!(page.prev.is_none());
    assert!(page.next.is_none());
    assert!(page.items.is_empty());
}

#[test]
fn index_view_links_first_and_last_pages() {
    let id = b"https://instance/users/alice/followers".to_vec();
    let index = build_index(&id, 37);
    assert_eq!(index.total_items, 37);
    assert_eq!(
        index.first,
        b"https://instance/users/alice/followers?page=true".to_vec()
    );
    assert_eq!(
        index.last,
        b"https://instance/users/alice/followers?min_id=0&page=true".to_vec()
    );
}

#[test]
fn collection_pages_through_its_dataset() {
    let col = Collection::new(dataset(25), b"https://instance/users/a/outbox".to_vec());
    assert_eq!(col.len(), 25);
    let first = col.first_page();
    assert_eq!(first.items.len(), 20);
    assert!(first.next.is_some());
    let second = col.max_id_page(first.items.last().unwrap().id);
    assert_eq!(second.items.len(), 5);
    assert!(second.next.is_none());
    assert!(second.prev.is_some());
    let back = col.min_id_page(second.items[0].id);
    assert_eq!(back.items.len(), 20);
}

#[test]
fn the_order_check_accepts_strict_descent_only() {
    assert!(dataset(5).check_descending());
    assert!(dataset(0).check_descending());
    let tied = Dataset::new(vec![entry(3), entry(3), entry(1)]);
    assert!(!tied.check_descending());
    let ascending = Dataset::new(vec![entry(1), entry(2)]);
    assert!(!ascending.check_descending());
}

#[test]
fn serving_a_collection_follows_the_query() {
    let id = b"https://instance/users/a/inbox".to_vec();
    match serve_collection(dataset(25), id.clone(), false, None, None).unwrap() {
        CollectionView::Index(ix) => assert_eq!(ix.total_items, 25),
        CollectionView::Page(_) => panic!("expected the index view"),
    }
    match serve_collection(dataset(25), id.clone(), true, Some(6), None).unwrap() {
        CollectionView::Page(p) => {
            assert_eq!(p.items.len(), 5);
            assert_eq!(p.items[0].id, 5);
        }
        CollectionView::Index(_) => panic!("expected a page"),
    }
    assert!(serve_collection(dataset(25), id, true, Some(6), Some(6)).is_err());
}

#[test]
fn supplying_both_cursors_is_a_client_error() {
    let r = select_page(true, Some(1000), Some(1000));
    assert_eq!(r, Err(ApiError::OtherBadRequest));
}

#[test]
fn page_selection_follows_the_query_parameters() {
    assert_eq!(select_page(false, None, None), Ok(PageSelector::Index));
    assert_eq!(select_page(false, Some(5), Some(6)), Ok(PageSelector::Index));
    assert_eq!(select_page(true, None, None), Ok(PageSelector::First));
    assert_eq!(select_page(true, Some(7), None), Ok(PageSelector::MaxId(7)));
    assert_eq!(select_page(true, None, Some(8)), Ok(PageSelector::MinId(8)));
}

#[test]
fn cursor_conversion_keeps_sub_second_precision() {
    assert_eq!(cursor_to_timestamp_parts(0), Ok((0, 0)));
    assert_eq!(cursor_to_timestamp_parts(1000), Ok((1, 0)));
    assert_eq!(cursor_to_timestamp_parts(1500), Ok((1, 500_000_000)));
    assert_eq!(cursor_to_timestamp_parts(1999), Ok((1, 999_000_000)));
    assert_eq!(cursor_to_timestamp_parts(-2000), Ok((-2, 0)));
    assert_eq!(
        cursor_to_timestamp_parts(-1500),
        Err(ApiError::InternalServerError)
    );
}
