//! The cursor-based collection paginator: an ordered dataset of
//! cursor-carrying items, fixed-size pages taken before or after a cursor,
//! page links, and a pull-based stream that walks the pages.
use crate::bytestr::clone_bytes;
use vstd::prelude::*;

verus! {

/// How many items a page holds.
pub const PAGE_SIZE: usize = 20;

/// One collection entry: a cursor (milliseconds-since-epoch of the moment
/// the entry was created) and its payload bytes — an actor URI for
/// followers and following listings, a serialized document for inbox and
/// outbox listings.
#[derive(Clone, Debug)]
pub struct ItemXsdString {
    pub id: i64,
    pub data: Vec<u8>,
}

impl View for ItemXsdString {
    type V = (i64, Seq<u8>);

    open spec fn view(&self) -> (i64, Seq<u8>) {
        (self.id, self.data@)
    }
}

impl DeepView for ItemXsdString {
    type V = (i64, Seq<u8>);

    open spec fn deep_view(&self) -> (i64, Seq<u8>) {
        self@
    }
}

impl ItemXsdString {
    /// A copy of the entry with the same cursor and the same bytes.
    pub fn duplicate(&self) -> (r: ItemXsdString)
        ensures
            r@ == self@,
    {
        ItemXsdString { id: self.id, data: clone_bytes(&self.data) }
    }
}

/// The deep view of an entry vector indexes to the entry views.
pub proof fn lemma_items_deep_view_index(v: &Vec<ItemXsdString>, i: int)
    requires
        0 <= i < v@.len(),
    ensures
        v.deep_view().len() == v@.len(),
        v.deep_view()[i] == v@[i]@,
{
}

/// The deep view of an entry vector, entry by entry.
pub proof fn lemma_items_deep_view(v: &Vec<ItemXsdString>)
    ensures
        v.deep_view().len() == v@.len(),
        forall|i: int| 0 <= i < v@.len() ==> v.deep_view()[i] == (#[trigger] v@[i])@,
{
}

/// True when cursors strictly decrease along the list: newest first,
/// no two entries sharing a cursor.
pub open spec fn strictly_descending(s: Seq<(i64, Seq<u8>)>) -> bool {
    forall|i: int, j: int| 0 <= i < j < s.len() ==> #[trigger] s[i].0 > #[trigger] s[j].0
}

/// The entries with cursors strictly below `c`, in their original order.
pub open spec fn older_than(s: Seq<(i64, Seq<u8>)>, c: i64) -> Seq<(i64, Seq<u8>)>
    decreases s.len(),
{
    if s.len() == 0 {
        Seq::empty()
    } else {
        older_than(s.drop_last(), c) + (if s.last().0 < c {
            seq![s.last()]
        } else {
            Seq::<(i64, Seq<u8>)>::empty()
        })
    }
}

/// The entries with cursors strictly above `c`, in their original order.
pub open spec fn newer_than(s: Seq<(i64, Seq<u8>)>, c: i64) -> Seq<(i64, Seq<u8>)>
    decreases s.len(),
{
    if s.len() == 0 {
        Seq::empty()
    } else {
        newer_than(s.drop_last(), c) + (if s.last().0 > c {
            seq![s.last()]
        } else {
            Seq::<(i64, Seq<u8>)>::empty()
        })
    }
}

/// The first `n` entries, or all of them when fewer.
pub open spec fn first_n(s: Seq<(i64, Seq<u8>)>, n: int) -> Seq<(i64, Seq<u8>)> {
    if s.len() <= n {
        s
    } else {
        s.take(n)
    }
}

/// The last `n` entries, or all of them when fewer.
pub open spec fn last_n(s: Seq<(i64, Seq<u8>)>, n: int) -> Seq<(i64, Seq<u8>)> {
    if s.len() <= n {
        s
    } else {
        s.skip(s.len() - n)
    }
}

/// On a strictly descending list the entries older than a cursor are
/// exactly a suffix, split where the cursor falls.
pub proof fn lemma_older_props(s: Seq<(i64, Seq<u8>)>, c: i64)
    requires
        strictly_descending(s),
    ensures
        older_than(s, c).len() <= s.len(),
        older_than(s, c) == s.skip(s.len() - older_than(s, c).len()),
        forall|i: int| 0 <= i < s.len() - older_than(s, c).len() ==> #[trigger] s[i].0 >= c,
        forall|i: int| s.len() - older_than(s, c).len() <= i < s.len() ==> #[trigger] s[i].0 < c,
    decreases s.len(),
{
    if s.len() == 0 {
        assert(older_than(s, c) =~= s.skip(0));
    } else {
        let dl = s.drop_last();
        assert(strictly_descending(dl)) by {
            assert(forall|i: int| 0 <= i < dl.len() ==> dl[i] == s[i]);
        }
        lemma_older_props(dl, c);
        let m0 = older_than(dl, c).len();
        if s.last().0 < c {
            let m = older_than(s, c).len();
            assert(m == m0 + 1);
            assert(older_than(s, c) =~= s.skip(s.len() - m)) by {
                assert(older_than(dl, c) == dl.skip(dl.len() - m0));
                assert(forall|i: int|
                    0 <= i < m0 ==> older_than(dl, c)[i] == dl[dl.len() - m0 + i]);
                assert(forall|i: int| 0 <= i < dl.len() ==> dl[i] == s[i]);
            }
            assert forall|i: int| 0 <= i < s.len() - m implies #[trigger] s[i].0 >= c by {
                assert(s[i] == dl[i]);
                assert(dl[i].0 >= c);
            }
            assert forall|i: int| s.len() - m <= i < s.len() implies #[trigger] s[i].0 < c by {
                if i < s.len() - 1 {
                    assert(s[i] == dl[i]);
                    assert(dl[i].0 < c);
                }
            }
        } else {
            // The last entry carries the smallest cursor, so nothing is
            // older than a cursor at or below it.
            assert(m0 == 0) by {
                if m0 > 0 {
                    assert(dl[dl.len() - 1].0 < c);
                    assert(dl[dl.len() - 1] == s[s.len() - 2]);
                    assert(s[s.len() - 2].0 > s[s.len() - 1].0);
                }
            }
            assert(older_than(s, c) =~= s.skip(s.len() as int));
            assert forall|i: int| 0 <= i < s.len() implies #[trigger] s[i].0 >= c by {
                if i < s.len() - 1 {
                    assert(s[i].0 > s[s.len() - 1].0);
                }
            }
        }
    }
}

/// On a strictly descending list the entries newer than a cursor are
/// exactly a prefix, split where the cursor falls.
pub proof fn lemma_newer_props(s: Seq<(i64, Seq<u8>)>, c: i64)
    requires
        strictly_descending(s),
    ensures
        newer_than(s, c).len() <= s.len(),
        newer_than(s, c) == s.take(newer_than(s, c).len() as int),
        forall|i: int| 0 <= i < newer_than(s, c).len() ==> #[trigger] s[i].0 > c,
        forall|i: int| newer_than(s, c).len() <= i < s.len() ==> #[trigger] s[i].0 <= c,
    decreases s.len(),
{
    if s.len() == 0 {
        assert(newer_than(s, c) =~= s.take(0));
    } else {
        let dl = s.drop_last();
        assert(strictly_descending(dl)) by {
            assert(forall|i: int| 0 <= i < dl.len() ==> dl[i] == s[i]);
        }
        lemma_newer_props(dl, c);
        let g0 = newer_than(dl, c).len();
        if s.last().0 > c {
            // Entries before the last carry larger cursors still, so the
            // whole list is newer than the cursor.
            assert(g0 == dl.len()) by {
                if g0 < dl.len() {
                    assert(dl[g0 as int].0 <= c);
                    assert(dl[g0 as int] == s[g0 as int]);
                    assert(s[g0 as int].0 > s[s.len() - 1].0);
                }
            }
            assert(newer_than(dl, c) == dl.take(g0 as int));
            assert(newer_than(s, c) =~= s.take(s.len() as int)) by {
                assert(forall|i: int| 0 <= i < dl.len() ==> dl[i] == s[i]);
            }
            assert forall|i: int| 0 <= i < s.len() implies #[trigger] s[i].0 > c by {
                if i < s.len() - 1 {
                    assert(s[i].0 > s[s.len() - 1].0);
                }
            }
        } else {
            assert(newer_than(s, c) == newer_than(dl, c));
            assert(newer_than(s, c) =~= s.take(g0 as int)) by {
                assert(newer_than(dl, c) == dl.take(g0 as int));
                assert(forall|i: int| 0 <= i < dl.len() ==> dl[i] == s[i]);
            }
            assert forall|i: int| 0 <= i < newer_than(s, c).len() implies #[trigger] s[i].0
                > c by {
                assert(s[i] == dl[i]);
                assert(dl[i].0 > c);
            }
            assert forall|i: int| newer_than(s, c).len() <= i < s.len() implies #[trigger] s[i].0
                <= c by {
                if i < s.len() - 1 {
                    assert(s[i] == dl[i]);
                    assert(dl[i].0 <= c);
                }
            }
        }
    }
}

/// An ordered, append-mostly dataset held newest first: the in-memory
/// model every collection pages over.
#[derive(Clone, Debug)]
pub struct Dataset {
    pub items: Vec<ItemXsdString>,
}

impl Dataset {
    /// The dataset as a mathematical list of cursor-payload pairs.
    pub open spec fn model(&self) -> Seq<(i64, Seq<u8>)> {
        self.items.deep_view()
    }

    /// Entries are strictly descending by cursor.
    pub open spec fn wf(&self) -> bool {
        strictly_descending(self.model())
    }

    /// A dataset over the given entries.
    pub fn new(items: Vec<ItemXsdString>) -> (r: Dataset)
        ensures
            r.model() == items.deep_view(),
    {
        Dataset { items }
    }

    /// Checks that cursors strictly decrease along the dataset: adjacent
    /// entries suffice, since the order is transitive.
    pub fn check_descending(&self) -> (r: bool)
        ensures
            r == self.wf(),
    {
        let len = self.items.len();
        if len == 0 {
            return true;
        }
        let mut i: usize = 0;
        while i + 1 < len
            invariant
                i < len,
                len == self.items@.len(),
                forall|a: int, b: int|
                    0 <= a < b <= i ==> #[trigger] self.model()[a].0 > #[trigger] self.model()[
                    b].0,
            decreases len - i,
        {
            proof {
                lemma_items_deep_view_index(&self.items, i as int);
                lemma_items_deep_view_index(&self.items, i + 1);
            }
            if self.items[i].id <= self.items[i + 1].id {
                proof {
                    assert(self.model()[i as int].0 <= self.model()[i + 1].0);
                }
                return false;
            }
            i += 1;
            proof {
                assert forall|a: int, b: int|
                    0 <= a < b <= i implies #[trigger] self.model()[a].0
                    > #[trigger] self.model()[b].0 by {
                    if b == i {
                        if a < i - 1 {
                            assert(self.model()[a].0 > self.model()[i - 1].0);
                        }
                        assert(self.model()[i - 1].0 > self.model()[i as int].0);
                    }
                }
            }
        }
        true
    }

    /// How many entries the dataset holds.
    pub fn total_count(&self) -> (r: u64)
        ensures
            r == self.model().len(),
    {
        proof {
            assert(self.model().len() == self.items@.len());
        }
        self.items.len() as u64
    }

    /// Copies the entries from `from` (inclusive) to `to` (exclusive).
    fn copy_range(&self, from: usize, to: usize) -> (r: Vec<ItemXsdString>)
        requires
            from <= to <= self.items@.len(),
        ensures
            r.deep_view() == self.model().subrange(from as int, to as int),
    {
        let mut out: Vec<ItemXsdString> = Vec::new();
        let mut i: usize = from;
        while i < to
            invariant
                from <= i <= to <= self.items@.len(),
                out@.len() == i - from,
                out.deep_view() == self.model().subrange(from as int, i as int),
            decreases to - i,
        {
            proof {
                lemma_items_deep_view_index(&self.items, i as int);
            }
            let c = self.items[i].duplicate();
            out.push(c);
            i += 1;
            proof {
                lemma_items_deep_view_index(&out, out@.len() - 1);
                assert(out.deep_view() =~= self.model().subrange(from as int, i as int));
            }
        }
        out
    }

    /// The newest page: the first twenty entries.
    pub fn first_page(&self) -> (r: Vec<ItemXsdString>)
        ensures
            r.deep_view() == first_n(self.model(), PAGE_SIZE as int),
    {
        proof {
            assert(self.model().len() == self.items@.len());
        }
        let take = if self.items.len() <= PAGE_SIZE {
            self.items.len()
        } else {
            PAGE_SIZE
        };
        let out = self.copy_range(0, take);
        proof {
            if self.model().len() <= PAGE_SIZE as int {
                assert(self.model().subrange(0, take as int) =~= self.model());
            }
        }
        out
    }

    /// The next older page: the first twenty entries strictly below the
    /// cursor.
    pub fn page_before(&self, cursor: i64) -> (r: Vec<ItemXsdString>)
        requires
            self.wf(),
        ensures
            r.deep_view() == first_n(older_than(self.model(), cursor), PAGE_SIZE as int),
    {
        proof {
            lemma_older_props(self.model(), cursor);
            assert(self.model().len() == self.items@.len());
        }
        let ghost older = older_than(self.model(), cursor);
        let len = self.items.len();
        // Find where the suffix of older entries begins.
        let mut f: usize = 0;
        while f < len && self.items[f].id >= cursor
            invariant
                f <= len,
                len == self.items@.len(),
                forall|i: int| 0 <= i < f ==> #[trigger] self.model()[i].0 >= cursor,
            decreases len - f,
        {
            proof {
                lemma_items_deep_view_index(&self.items, f as int);
            }
            f += 1;
        }
        proof {
            if f < len {
                lemma_items_deep_view_index(&self.items, f as int);
                assert(self.model()[f as int].0 < cursor);
            }
            let f0 = self.model().len() - older.len();
            if f < f0 {
                assert(self.model()[f as int].0 >= cursor);
            }
            if f0 < f {
                assert(self.model()[f0 as int].0 < cursor);
            }
            assert(f == f0);
        }
        let take = if len - f <= PAGE_SIZE {
            len - f
        } else {
            PAGE_SIZE
        };
        let out = self.copy_range(f, f + take);
        proof {
            assert(older == self.model().skip(f as int));
            if older.len() <= PAGE_SIZE as int {
                assert(self.model().subrange(f as int, (f + take) as int) =~= older);
            } else {
                assert(self.model().subrange(f as int, (f + take) as int) =~= older.take(
                    PAGE_SIZE as int,
                ));
            }
        }
        out
    }

    /// The next newer page: the twenty entries nearest above the cursor,
    /// handed back newest first.
    pub fn page_after(&self, cursor: i64) -> (r: Vec<ItemXsdString>)
        requires
            self.wf(),
        ensures
            r.deep_view() == last_n(newer_than(self.model(), cursor), PAGE_SIZE as int),
    {
        proof {
            lemma_newer_props(self.model(), cursor);
            assert(self.model().len() == self.items@.len());
        }
        let ghost newer = newer_than(self.model(), cursor);
        let len = self.items.len();
        // Find where the prefix of newer entries ends.
        let mut g: usize = 0;
        while g < len && self.items[g].id > cursor
            invariant
                g <= len,
                len == self.items@.len(),
                forall|i: int| 0 <= i < g ==> #[trigger] self.model()[i].0 > cursor,
            decreases len - g,
        {
            proof {
                lemma_items_deep_view_index(&self.items, g as int);
            }
            g += 1;
        }
        proof {
            if g < len {
                lemma_items_deep_view_index(&self.items, g as int);
                assert(self.model()[g as int].0 <= cursor);
            }
            let g0 = newer.len();
            if g < g0 {
                assert(self.model()[g as int].0 > cursor);
            }
            if g0 < g {
                assert(self.model()[g0 as int].0 <= cursor);
            }
            assert(g == g0);
        }
        let from = if g <= PAGE_SIZE {
            0
        } else {
            g - PAGE_SIZE
        };
        let out = self.copy_range(from, g);
        proof {
            assert(newer == self.model().take(g as int));
            if newer.len() <= PAGE_SIZE as int {
                assert(self.model().subrange(from as int, g as int) =~= newer);
            } else {
                assert(self.model().subrange(from as int, g as int) =~= newer.skip(
                    newer.len() - PAGE_SIZE as int,
                ));
            }
        }
        out
    }
}

/// On a strictly descending list, the entries older than the cursor of
/// entry `k - 1` are exactly the suffix from `k` on.
pub proof fn lemma_older_cut(s: Seq<(i64, Seq<u8>)>, k: int)
    requires
        strictly_descending(s),
        1 <= k <= s.len(),
    ensures
        older_than(s, s[k - 1].0) == s.skip(k),
{
    let c = s[k - 1].0;
    lemma_older_props(s, c);
    let f0 = s.len() - older_than(s, c).len();
    if f0 < k {
        assert(s[k - 1].0 < c);
    }
    if f0 > k {
        assert(s[k as int].0 >= c);
        assert(s[k - 1].0 > s[k as int].0);
    }
    assert(f0 == k);
}

/// On a strictly descending list, the entries newer than the cursor of
/// entry `k` are exactly the prefix before it.
pub proof fn lemma_newer_cut(s: Seq<(i64, Seq<u8>)>, k: int)
    requires
        strictly_descending(s),
        0 <= k < s.len(),
    ensures
        newer_than(s, s[k as int].0) == s.take(k),
{
    let c = s[k as int].0;
    lemma_newer_props(s, c);
    let g0 = newer_than(s, c).len() as int;
    if g0 < k {
        assert(s[g0].0 <= c);
        assert(s[g0].0 > s[k as int].0);
    }
    if g0 > k {
        assert(s[k as int].0 > c);
    }
    assert(g0 == k);
}

/// Paging backward from a cursor and then forward from the returned
/// page's boundary reproduces the pages adjoining the cursor's entry,
/// with no gap and no overlap: the forward page ends exactly at the
/// entry the cursor names, and the two pages together form one
/// contiguous stretch of the dataset.
pub proof fn lemma_cursor_symmetry(s: Seq<(i64, Seq<u8>)>, k: int)
    requires
        strictly_descending(s),
        0 <= k < s.len() - 1,
    ensures
        ({
            let before = first_n(older_than(s, s[k as int].0), PAGE_SIZE as int);
            let after = last_n(newer_than(s, before[0].0), PAGE_SIZE as int);
            &&& before.len() > 0
            &&& after.len() > 0
            &&& after.last() == s[k as int]
            &&& after + before == s.subrange(k + 1 - after.len(), k + 1 + before.len())
        }),
{
    lemma_older_cut(s, k + 1);
    let older = older_than(s, s[k as int].0);
    assert(older == s.skip(k + 1));
    let before = first_n(older, PAGE_SIZE as int);
    assert(before.len() > 0);
    assert(before[0] == s[k + 1]);
    lemma_newer_cut(s, k + 1);
    assert(newer_than(s, s[k + 1].0) == s.take(k + 1));
    let newer = newer_than(s, before[0].0);
    assert(newer == s.take(k + 1));
    let after = last_n(newer, PAGE_SIZE as int);
    assert(after.len() > 0);
    assert(after.last() == s[k as int]);
    assert(after + before =~= s.subrange(k + 1 - after.len(), k + 1 + before.len()));
}

/// The entries of `a` followed by copies of the entries of `b`.
pub fn concat_items(a: Vec<ItemXsdString>, b: &Vec<ItemXsdString>) -> (r: Vec<ItemXsdString>)
    ensures
        r@.len() == a@.len() + b@.len(),
        r.deep_view() == a.deep_view() + b.deep_view(),
{
    let ghost a0 = a.deep_view();
    let ghost alen = a@.len() as int;
    let mut out = a;
    let mut i: usize = 0;
    while i < b.len()
        invariant
            i <= b@.len(),
            out@.len() == alen + i,
            out.deep_view() == a0 + b.deep_view().take(i as int),
        decreases b@.len() - i,
    {
        proof {
            lemma_items_deep_view_index(b, i as int);
            lemma_items_deep_view(&out);
        }
        let c = b[i].duplicate();
        out.push(c);
        i += 1;
        proof {
            lemma_items_deep_view(&out);
            assert(out.deep_view() =~= a0 + b.deep_view().take(i as int));
        }
    }
    proof {
        assert(b.deep_view().take(b@.len() as int) =~= b.deep_view());
        assert(out.deep_view() =~= a0 + b.deep_view());
    }
    out
}

impl Dataset {
    /// Walks the dataset page by page, from the newest page through every
    /// next-older cursor, and hands back every entry exactly once, in
    /// order: the pagination round trip loses nothing and repeats
    /// nothing.
    pub fn walk_pages(&self) -> (r: Vec<ItemXsdString>)
        requires
            self.wf(),
        ensures
            r.deep_view() == self.model(),
    {
        let mut out: Vec<ItemXsdString> = Vec::new();
        let mut more = true;
        while more
            invariant
                self.wf(),
                out@.len() <= self.model().len(),
                out.deep_view() == self.model().take(out@.len() as int),
                !more ==> out@.len() == self.model().len(),
            decreases self.model().len() - out@.len() + (if more {
                1int
            } else {
                0int
            }),
        {
            let ghost k = out@.len() as int;
            let page = if out.len() == 0 {
                self.first_page()
            } else {
                proof {
                    lemma_items_deep_view_index(&out, k - 1);
                    lemma_older_cut(self.model(), k);
                }
                self.page_before(out[out.len() - 1].id)
            };
            proof {
                if k == 0 {
                    assert(page.deep_view() == first_n(self.model(), PAGE_SIZE as int));
                    assert(self.model().take(0int) =~= Seq::<(i64, Seq<u8>)>::empty());
                } else {
                    assert(out.deep_view()[k - 1] == self.model()[k - 1]);
                    assert(out@[k - 1]@ == self.model()[k - 1]);
                    assert(page.deep_view() == first_n(
                        self.model().skip(k),
                        PAGE_SIZE as int,
                    ));
                }
            }
            let ghost plen = page.deep_view().len() as int;
            out = concat_items(out, &page);
            proof {
                let m = self.model();
                assert(m.take(k) + m.skip(k).take(plen) =~= m.take(k + plen));
                if k == 0 {
                    assert(m.skip(0int) =~= m);
                }
                assert(first_n(m.skip(k), PAGE_SIZE as int) == m.skip(k).take(plen)) by {
                    if m.skip(k).len() <= PAGE_SIZE as int {
                        assert(m.skip(k).take(plen) =~= m.skip(k));
                    }
                }
                assert(out.deep_view() =~= m.take(out@.len() as int));
            }
            more = page.len() == PAGE_SIZE;
            proof {
                if page.len() != PAGE_SIZE {
                    assert(self.model().skip(k).len() <= PAGE_SIZE as int);
                    assert(out@.len() == self.model().len());
                }
            }
        }
        out
    }
}

/// A pull-based walk over a collection: yields entries one at a time,
/// buffering one page and fetching the next older page when the buffer
/// empties; ends when a fetched page is empty. Restartable only by
/// building a new one.
pub struct Stream {
    pub provider: Dataset,
    pub buffer: Vec<ItemXsdString>,
    pub cursor: Option<i64>,
    pub done: bool,
}

impl Stream {
    /// The dataset is ordered newest first.
    pub open spec fn wf(&self) -> bool {
        self.provider.wf()
    }

    /// The entries the stream has yet to yield, in order.
    pub open spec fn remaining(&self) -> Seq<(i64, Seq<u8>)> {
        if self.done {
            Seq::empty()
        } else {
            self.buffer.deep_view() + (match self.cursor {
                Option::None => self.provider.model(),
                Option::Some(c) => older_than(self.provider.model(), c),
            })
        }
    }

    /// A fresh stream over a dataset, with every entry still to come.
    pub fn new(provider: Dataset) -> (r: Stream)
        ensures
            r.provider == provider,
            r.remaining() == provider.model(),
            r.wf() == provider.wf(),
    {
        let r = Stream { provider, buffer: Vec::new(), cursor: None, done: false };
        proof {
            assert(r.remaining() =~= r.provider.model());
        }
        r
    }

    /// The next entry, or nothing once every entry has been yielded.
    #[verifier::rlimit(100)]
    #[verifier::spinoff_prover]
    pub fn next(&mut self) -> (r: Option<ItemXsdString>)
        requires
            old(self).wf(),
        ensures
            final(self).wf(),
            final(self).provider == old(self).provider,
            match r {
                Option::Some(item) => old(self).remaining().len() > 0 && item@ == old(
                    self,
                ).remaining()[0] && final(self).remaining() == old(self).remaining().skip(1),
                Option::None => old(self).remaining().len() == 0 && final(self).remaining()
                    == old(self).remaining(),
            },
    {
        if self.done {
            return None;
        }
        if self.buffer.len() > 0 {
            let item = self.buffer.remove(0);
            proof {
                lemma_items_deep_view_index(&old(self).buffer, 0int);
                assert(self.buffer.deep_view() =~= old(self).buffer.deep_view().skip(1));
                assert(final(self).remaining() =~= old(self).remaining().skip(1));
            }
            return Some(item);
        }
        let ghost m = self.provider.model();
        let ghost rest = match self.cursor {
            Option::None => m,
            Option::Some(c) => older_than(m, c),
        };
        proof {
            assert(old(self).remaining() =~= rest);
            if self.cursor is Some {
                lemma_older_props(m, self.cursor->Some_0);
            }
        }
        let ghost f = m.len() - rest.len();
        proof {
            assert(rest == m.skip(f as int));
        }
        let page = match self.cursor {
            Option::None => self.provider.first_page(),
            Option::Some(c) => self.provider.page_before(c),
        };
        proof {
            if m.skip(f as int).len() <= PAGE_SIZE as int {
                assert(first_n(m.skip(f as int), PAGE_SIZE as int) =~= m.skip(f as int));
            }
            if f == 0 {
                assert(m.skip(0int) =~= m);
            }
            assert(page.deep_view() == first_n(m.skip(f as int), PAGE_SIZE as int));
        }
        if page.len() == 0 {
            self.done = true;
            proof {
                assert(rest.len() == 0);
                assert(final(self).remaining() =~= old(self).remaining());
            }
            return None;
        }
        let ghost plen = page.deep_view().len() as int;
        let last_id = page[page.len() - 1].id;
        proof {
            lemma_items_deep_view_index(&page, plen - 1);
            assert(page.deep_view()[plen - 1] == m[f + plen - 1]);
            assert(last_id == m[f + plen - 1].0);
            lemma_older_cut(m, f + plen);
        }
        self.cursor = Some(last_id);
        let ghost page_model = page.deep_view();
        proof {
            lemma_items_deep_view(&page);
            assert(page_model =~= m.subrange(f as int, f + plen));
        }
        self.buffer = page;
        let item = self.buffer.remove(0);
        proof {
            lemma_items_deep_view(&self.buffer);
            assert(self.buffer.deep_view() =~= page_model.skip(1));
            assert(self.buffer.deep_view() =~= m.subrange(f + 1, f + plen));
            assert(final(self).remaining() =~= rest.skip(1)) by {
                assert(m.skip(f + plen) =~= older_than(m, last_id));
                assert(self.buffer.deep_view() + m.skip(f + plen) =~= m.skip(f as int).skip(
                    1,
                ));
                assert(rest.skip(1) =~= m.skip(f as int).skip(1));
            }
            assert(item@ == page_model[0]);
            assert(rest[0] == m.subrange(f as int, f + plen)[0]);
            assert(item@ == rest[0]);
        }
        Some(item)
    }
}

} // verus!
