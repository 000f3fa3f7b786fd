//! The audience builder: recognizing the public-addressing sentinel,
//! deduplicating raw recipient lists, capping non-public entries, and
//! routing resolved identities into mentions and followers expansions.
use crate::bytestr::{ascii_seq, bytes_eq, clone_bytes, contains_bytes, lemma_deep_view_index, str_to_bytes};
use vstd::prelude::*;

verus! {

/// Maximum number of `to` and `cc` mentions that aren't public addressing.
pub const MAX_NON_PUBLIC_CC_AND_TO: usize = 5;

/// The bytes of the public-addressing sentinel URI.
pub open spec fn public_uri() -> Seq<u8> {
    ascii_seq("https://www.w3.org/ns/activitystreams#Public"@)
}

/// The public-addressing sentinel URI as an owned byte vector.
pub fn public_uri_bytes() -> (r: Vec<u8>)
    ensures
        r@ == public_uri(),
{
    proof {
        reveal_strlit("https://www.w3.org/ns/activitystreams#Public");
    }
    str_to_bytes("https://www.w3.org/ns/activitystreams#Public")
}

/// True when the URI is the public-addressing sentinel.
pub fn is_public_uri(uri: &[u8]) -> (r: bool)
    ensures
        r == (uri@ == public_uri()),
{
    let p = public_uri_bytes();
    bytes_eq(uri, p.as_slice())
}

/// The list with every repeated entry dropped, keeping first occurrences
/// in their original order.
pub open spec fn dedup_spec(s: Seq<Seq<u8>>) -> Seq<Seq<u8>>
    decreases s.len(),
{
    if s.len() == 0 {
        Seq::empty()
    } else {
        let d = dedup_spec(s.drop_last());
        if d.contains(s.last()) {
            d
        } else {
            d.push(s.last())
        }
    }
}

/// A pushed list holds exactly the old members and the pushed value.
pub proof fn lemma_push_contains<T>(s: Seq<T>, y: T, x: T)
    ensures
        s.push(y).contains(x) == (s.contains(x) || x == y),
{
    if s.contains(x) {
        let i = choose|i: int| 0 <= i < s.len() && #[trigger] s[i] == x;
        assert(s.push(y)[i] == x);
    }
    if x == y {
        assert(s.push(y)[s.len() as int] == x);
    }
    if s.push(y).contains(x) {
        let i = choose|i: int| 0 <= i < s.push(y).len() && #[trigger] s.push(y)[i] == x;
        if i < s.len() {
            assert(s[i] == x);
        }
    }
}

/// A nonempty list holds exactly its last element and the members of the
/// list without it.
pub proof fn lemma_drop_last_contains<T>(s: Seq<T>, x: T)
    requires
        s.len() > 0,
    ensures
        s.contains(x) == (s.drop_last().contains(x) || x == s.last()),
{
    assert(s.drop_last().push(s.last()) =~= s);
    lemma_push_contains(s.drop_last(), s.last(), x);
}

/// Deduplication keeps exactly the members of the original list.
pub proof fn lemma_dedup_membership(s: Seq<Seq<u8>>, x: Seq<u8>)
    ensures
        dedup_spec(s).contains(x) == s.contains(x),
    decreases s.len(),
{
    if s.len() > 0 {
        lemma_dedup_membership(s.drop_last(), x);
        lemma_drop_last_contains(s, x);
        let d = dedup_spec(s.drop_last());
        if !d.contains(s.last()) {
            lemma_push_contains(d, s.last(), x);
        }
    }
}

/// Appending entries that already occur in the list leaves its
/// deduplication unchanged.
pub proof fn lemma_dedup_append_absorbed(s: Seq<Seq<u8>>, t: Seq<Seq<u8>>)
    requires
        forall|i: int| 0 <= i < t.len() ==> s.contains(#[trigger] t[i]),
    ensures
        dedup_spec(s + t) == dedup_spec(s),
    decreases t.len(),
{
    if t.len() == 0 {
        assert(s + t =~= s);
    } else {
        assert((s + t).drop_last() =~= s + t.drop_last());
        lemma_dedup_append_absorbed(s, t.drop_last());
        assert((s + t).last() == t.last());
        assert(s.contains(t.last()));
        lemma_dedup_membership(s, t.last());
        assert(dedup_spec(s).contains(t.last()));
    }
}

/// Deduplicating a list with itself appended gives the same result as
/// deduplicating the list alone.
pub proof fn lemma_dedup_idempotent(s: Seq<Seq<u8>>)
    ensures
        dedup_spec(s + s) == dedup_spec(s),
{
    lemma_dedup_append_absorbed(s, s);
}

/// The capped list: at most five non-public entries, with the public
/// sentinel re-appended whenever truncation would have dropped it.
pub open spec fn limit_spec(s: Seq<Seq<u8>>) -> Seq<Seq<u8>> {
    let t = if s.len() <= 5 {
        s
    } else {
        s.take(5)
    };
    if s.contains(public_uri()) && !t.contains(public_uri()) {
        t.push(public_uri())
    } else {
        t
    }
}

/// A list without the public sentinel keeps at most five entries after
/// capping.
pub proof fn lemma_audience_cap_list(s: Seq<Seq<u8>>)
    requires
        !s.contains(public_uri()),
    ensures
        limit_spec(s).len() <= 5,
        !limit_spec(s).contains(public_uri()),
{
    if s.len() > 5 {
        let t = s.take(5);
        assert(!t.contains(public_uri())) by {
            if t.contains(public_uri()) {
                let i = choose|i: int| 0 <= i < t.len() && t[i] == public_uri();
                assert(s[i] == public_uri());
            }
        }
    }
}

/// Capping keeps the public sentinel whenever the input held it.
pub proof fn lemma_public_preserved_list(s: Seq<Seq<u8>>)
    requires
        s.contains(public_uri()),
    ensures
        limit_spec(s).contains(public_uri()),
{
    let t = if s.len() <= 5 {
        s
    } else {
        s.take(5)
    };
    if !t.contains(public_uri()) {
        assert(limit_spec(s) == t.push(public_uri()));
        assert(limit_spec(s).last() == public_uri());
    }
}

/// Caps an audience list at five non-public entries, re-appending the
/// public sentinel when truncation discarded it.
pub fn limit_to_and_cc(v: &Vec<Vec<u8>>) -> (r: Vec<Vec<u8>>)
    ensures
        r.deep_view() == limit_spec(v.deep_view()),
{
    let had_public = contains_bytes(v, public_uri_bytes().as_slice());
    let keep = if v.len() <= MAX_NON_PUBLIC_CC_AND_TO {
        v.len()
    } else {
        MAX_NON_PUBLIC_CC_AND_TO
    };
    let mut out: Vec<Vec<u8>> = Vec::new();
    let mut i: usize = 0;
    while i < keep
        invariant
            i <= keep <= v@.len(),
            out@.len() == i,
            out.deep_view() == v.deep_view().subrange(0, i as int),
        decreases keep - i,
    {
        proof {
            lemma_deep_view_index(v, i as int);
        }
        let c = clone_bytes(&v[i]);
        out.push(c);
        i += 1;
        proof {
            assert(out@.len() == i as int);
            lemma_deep_view_index(&out, i as int - 1);
            assert(out.deep_view() =~= v.deep_view().subrange(0, i as int));
        }
    }
    proof {
        if v@.len() <= 5 {
            assert(out.deep_view() =~= v.deep_view());
        } else {
            assert(out.deep_view() =~= v.deep_view().take(5));
        }
    }
    let still_public = contains_bytes(&out, public_uri_bytes().as_slice());
    if had_public && !still_public {
        out.push(public_uri_bytes());
        proof {
            lemma_deep_view_index(&out, out@.len() - 1);
            let t = if v.deep_view().len() <= 5 {
                v.deep_view()
            } else {
                v.deep_view().take(5)
            };
            assert(out.deep_view() =~= t.push(public_uri()));
        }
    }
    out
}

/// Deduplicates the concatenation of two raw audience lists, keeping
/// first occurrences in order.
pub fn dedup_merged(a: &Vec<Vec<u8>>, b: &Vec<Vec<u8>>) -> (r: Vec<Vec<u8>>)
    ensures
        r.deep_view() == dedup_spec(a.deep_view() + b.deep_view()),
{
    let mut out: Vec<Vec<u8>> = Vec::new();
    let ghost all = a.deep_view() + b.deep_view();
    let mut i: usize = 0;
    while i < a.len()
        invariant
            i <= a@.len(),
            all == a.deep_view() + b.deep_view(),
            out.deep_view() == dedup_spec(all.take(i as int)),
        decreases a@.len() - i,
    {
        proof {
            lemma_deep_view_index(a, i as int);
            assert(all.take(i + 1).drop_last() =~= all.take(i as int));
            assert(all.take(i + 1).last() == a.deep_view()[i as int]);
        }
        if !contains_bytes(&out, a[i].as_slice()) {
            out.push(clone_bytes(&a[i]));
            proof {
                lemma_deep_view_index(&out, out@.len() - 1);
                assert(out.deep_view() =~= dedup_spec(all.take(i + 1)));
            }
        } else {
            proof {
                assert(out.deep_view() =~= dedup_spec(all.take(i + 1)));
            }
        }
        i += 1;
    }
    proof {
        assert(all.take(a@.len() as int) =~= a.deep_view());
    }
    let mut j: usize = 0;
    while j < b.len()
        invariant
            j <= b@.len(),
            a@.len() == a.deep_view().len(),
            all == a.deep_view() + b.deep_view(),
            out.deep_view() == dedup_spec(all.take((a.deep_view().len() + j) as int)),
        decreases b@.len() - j,
    {
        proof {
            lemma_deep_view_index(b, j as int);
            let k = (a.deep_view().len() + j) as int;
            assert(all.take(k + 1).drop_last() =~= all.take(k as int));
            assert(all.take(k + 1).last() == b.deep_view()[j as int]);
        }
        if !contains_bytes(&out, b[j].as_slice()) {
            out.push(clone_bytes(&b[j]));
            proof {
                lemma_deep_view_index(&out, out@.len() - 1);
                assert(out.deep_view() =~= dedup_spec(
                    all.take((a.deep_view().len() + j + 1) as int),
                ));
            }
        } else {
            proof {
                assert(out.deep_view() =~= dedup_spec(
                    all.take((a.deep_view().len() + j + 1) as int),
                ));
            }
        }
        j += 1;
    }
    proof {
        assert(all.take((a.deep_view().len() + b.deep_view().len()) as int) =~= all);
    }
    out
}

/// Merges the `to` lists of an activity and its inner object (and likewise
/// the `cc` lists), deduplicating each merged list and capping it.
pub fn merge_and_limit_mentions(
    object_to: &Vec<Vec<u8>>,
    object_cc: &Vec<Vec<u8>>,
    activity_to: &Vec<Vec<u8>>,
    activity_cc: &Vec<Vec<u8>>,
) -> (r: (Vec<Vec<u8>>, Vec<Vec<u8>>))
    ensures
        r.0.deep_view() == limit_spec(
            dedup_spec(object_to.deep_view() + activity_to.deep_view()),
        ),
        r.1.deep_view() == limit_spec(
            dedup_spec(object_cc.deep_view() + activity_cc.deep_view()),
        ),
{
    let to = limit_to_and_cc(&dedup_merged(object_to, activity_to));
    let cc = limit_to_and_cc(&dedup_merged(object_cc, activity_cc));
    (to, cc)
}

/// One resolved audience entry: a direct mention of an actor, or the
/// implicit mention of everybody following an actor.
#[derive(Clone, Copy, Debug)]
pub enum ToCcUuid {
    DirectMention(u128),
    MentionOfFollowersOf(u128),
}

/// A resolved audience: direct mentions, followers expansions, and whether
/// the raw input addressed the public.
#[derive(Clone, Debug)]
pub struct ToCcUuids {
    pub mentions: Vec<u128>,
    pub followers_of: Vec<u128>,
    pub has_public_uri: bool,
}

/// The identities of the direct mentions in a resolved list, in order.
pub open spec fn mentions_of(s: Seq<ToCcUuid>) -> Seq<u128>
    decreases s.len(),
{
    if s.len() == 0 {
        Seq::empty()
    } else {
        mentions_of(s.drop_last()) + (match s.last() {
            ToCcUuid::DirectMention(id) => seq![id],
            ToCcUuid::MentionOfFollowersOf(_) => Seq::empty(),
        })
    }
}

/// The identities of the followers expansions in a resolved list, in order.
pub open spec fn followers_of_in(s: Seq<ToCcUuid>) -> Seq<u128>
    decreases s.len(),
{
    if s.len() == 0 {
        Seq::empty()
    } else {
        followers_of_in(s.drop_last()) + (match s.last() {
            ToCcUuid::DirectMention(_) => Seq::empty(),
            ToCcUuid::MentionOfFollowersOf(id) => seq![id],
        })
    }
}

/// Every resolved entry lands in exactly one of the two output lists.
pub proof fn lemma_collect_total(s: Seq<ToCcUuid>)
    ensures
        mentions_of(s).len() + followers_of_in(s).len() == s.len(),
    decreases s.len(),
{
    if s.len() > 0 {
        lemma_collect_total(s.drop_last());
    }
}

/// Routes resolved audience entries into mentions and followers
/// expansions, carrying the public flag through.
pub fn collect_resolved(resolved: &Vec<ToCcUuid>, has_public: bool) -> (r: ToCcUuids)
    ensures
        r.mentions@ == mentions_of(resolved@),
        r.followers_of@ == followers_of_in(resolved@),
        r.has_public_uri == has_public,
{
    let mut mentions: Vec<u128> = Vec::new();
    let mut followers_of: Vec<u128> = Vec::new();
    let mut i: usize = 0;
    while i < resolved.len()
        invariant
            i <= resolved@.len(),
            mentions@ == mentions_of(resolved@.take(i as int)),
            followers_of@ == followers_of_in(resolved@.take(i as int)),
        decreases resolved@.len() - i,
    {
        proof {
            assert(resolved@.take(i + 1).drop_last() =~= resolved@.take(i as int));
            assert(resolved@.take(i + 1).last() == resolved@[i as int]);
        }
        match resolved[i] {
            ToCcUuid::DirectMention(id) => mentions.push(id),
            ToCcUuid::MentionOfFollowersOf(id) => followers_of.push(id),
        }
        i += 1;
    }
    proof {
        assert(resolved@.take(resolved@.len() as int) =~= resolved@);
    }
    ToCcUuids { mentions, followers_of, has_public_uri: has_public }
}

/// The entries of a raw audience list that are not the public sentinel,
/// in their original order.
pub open spec fn non_public_of(s: Seq<Seq<u8>>) -> Seq<Seq<u8>>
    decreases s.len(),
{
    if s.len() == 0 {
        Seq::empty()
    } else {
        non_public_of(s.drop_last()) + (if s.last() == public_uri() {
            Seq::<Seq<u8>>::empty()
        } else {
            seq![s.last()]
        })
    }
}

/// Splits a raw audience list into its non-public entries and the flag
/// saying whether the public sentinel occurred anywhere in it.
pub fn split_public_uris(uris: &Vec<Vec<u8>>) -> (r: (Vec<Vec<u8>>, bool))
    ensures
        r.0.deep_view() == non_public_of(uris.deep_view()),
        r.1 == uris.deep_view().contains(public_uri()),
{
    let mut out: Vec<Vec<u8>> = Vec::new();
    let mut has_public = false;
    let mut i: usize = 0;
    while i < uris.len()
        invariant
            i <= uris@.len(),
            out.deep_view() == non_public_of(uris.deep_view().take(i as int)),
            has_public == uris.deep_view().take(i as int).contains(public_uri()),
        decreases uris@.len() - i,
    {
        proof {
            lemma_deep_view_index(uris, i as int);
            assert(uris.deep_view().take(i + 1).drop_last() =~= uris.deep_view().take(i as int));
            assert(uris.deep_view().take(i + 1).last() == uris.deep_view()[i as int]);
        }
        let ghost pre = uris.deep_view().take(i as int);
        let ghost cur = uris.deep_view()[i as int];
        if is_public_uri(uris[i].as_slice()) {
            has_public = true;
            proof {
                assert(uris.deep_view().take(i + 1).contains(public_uri())) by {
                    assert(uris.deep_view().take(i + 1)[i as int] == public_uri());
                }
                assert(out.deep_view() =~= non_public_of(uris.deep_view().take(i + 1)));
            }
        } else {
            out.push(clone_bytes(&uris[i]));
            proof {
                lemma_deep_view_index(&out, out@.len() - 1);
                assert(out.deep_view() =~= non_public_of(uris.deep_view().take(i + 1)));
                if !has_public {
                    assert(!uris.deep_view().take(i + 1).contains(public_uri())) by {
                        if uris.deep_view().take(i + 1).contains(public_uri()) {
                            let t = uris.deep_view().take(i + 1);
                            let k = choose|k: int|
                                0 <= k < t.len() && #[trigger] t[k] == public_uri();
                            if k < i {
                                assert(pre[k] == public_uri());
                            }
                        }
                    }
                }
                if has_public {
                    let k = choose|k: int| 0 <= k < pre.len() && #[trigger] pre[k] == public_uri();
                    assert(uris.deep_view().take(i + 1)[k] == public_uri());
                }
            }
        }
        i += 1;
    }
    proof {
        assert(uris.deep_view().take(uris@.len() as int) =~= uris.deep_view());
    }
    (out, has_public)
}

/// For a raw list without public addressing, a fully resolved audience
/// never holds more than five entries across mentions and followers
/// expansions combined.
pub proof fn lemma_audience_cap(s: Seq<Seq<u8>>, resolved: Seq<ToCcUuid>)
    requires
        !s.contains(public_uri()),
        resolved.len() == limit_spec(dedup_spec(s)).len(),
    ensures
        mentions_of(resolved).len() + followers_of_in(resolved).len() <= 5,
{
    lemma_dedup_membership(s, public_uri());
    lemma_audience_cap_list(dedup_spec(s));
    lemma_collect_total(resolved);
}

/// The public sentinel survives deduplication and capping wherever it
/// stood in the raw input.
pub proof fn lemma_public_preserved(s: Seq<Seq<u8>>)
    requires
        s.contains(public_uri()),
    ensures
        limit_spec(dedup_spec(s)).contains(public_uri()),
{
    lemma_dedup_membership(s, public_uri());
    lemma_public_preserved_list(dedup_spec(s));
}

/// The whole merge-dedup-cap pipeline gives the same audience for a raw
/// list with every entry repeated as for the list alone.
pub proof fn lemma_build_idempotent(s: Seq<Seq<u8>>)
    ensures
        limit_spec(dedup_spec(s + s)) == limit_spec(dedup_spec(s)),
{
    lemma_dedup_idempotent(s);
}

} // verus!
