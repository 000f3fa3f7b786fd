//! The persisted form of an activity, its assembly from a resolved
//! audience, and who may read it.
use crate::audience::ToCcUuids;
use vstd::prelude::*;

verus! {

/// The persisted row of one activity: resolved identities only, never
/// raw URIs; written once and never mutated.
#[derive(Clone, Debug)]
pub struct ActivityRecord {
    pub id: u128,
    pub user_id: u128,
    pub this_instance: bool,
    pub published_at_ms: i64,
    pub activity: Vec<u8>,
    pub is_public: bool,
    pub to_mentions: Vec<u128>,
    pub cc_mentions: Vec<u128>,
    pub to_followers_of: Vec<u128>,
    pub cc_followers_of: Vec<u128>,
}

/// Collapses the resolved `to` and `cc` audiences of a locally created
/// activity into its persisted row: the activity is public exactly when
/// either list addressed the public, and the resolved identity lists
/// land in the row unchanged.
pub fn activity_record(
    id: u128,
    user_id: u128,
    published_at_ms: i64,
    activity: Vec<u8>,
    to: ToCcUuids,
    cc: ToCcUuids,
) -> (r: ActivityRecord)
    ensures
        r.id == id,
        r.user_id == user_id,
        r.this_instance == true,
        r.published_at_ms == published_at_ms,
        r.activity@ == activity@,
        r.is_public == (to.has_public_uri || cc.has_public_uri),
        r.to_mentions@ == to.mentions@,
        r.cc_mentions@ == cc.mentions@,
        r.to_followers_of@ == to.followers_of@,
        r.cc_followers_of@ == cc.followers_of@,
{
    let is_public = to.has_public_uri || cc.has_public_uri;
    ActivityRecord {
        id,
        user_id,
        this_instance: true,
        published_at_ms,
        activity,
        is_public,
        to_mentions: to.mentions,
        cc_mentions: cc.mentions,
        to_followers_of: to.followers_of,
        cc_followers_of: cc.followers_of,
    }
}

/// True when the identity stands in the list.
pub fn contains_id(v: &Vec<u128>, x: u128) -> (r: bool)
    ensures
        r == v@.contains(x),
{
    let mut i: usize = 0;
    while i < v.len()
        invariant
            i <= v@.len(),
            forall|j: int| 0 <= j < i ==> v@[j] != x,
        decreases v@.len() - i,
    {
        if v[i] == x {
            return true;
        }
        i += 1;
    }
    false
}

/// Who may read an activity: everyone when it is public; otherwise only
/// a signed-in viewer named in its `to` or `cc` mentions.
pub fn can_view_activity(
    is_public: bool,
    to_mentions: &Vec<u128>,
    cc_mentions: &Vec<u128>,
    viewer: Option<u128>,
) -> (r: bool)
    ensures
        r == (is_public || (viewer matches Some(v) && (to_mentions@.contains(v)
            || cc_mentions@.contains(v)))),
{
    if is_public {
        return true;
    }
    match viewer {
        Option::Some(v) => contains_id(to_mentions, v) || contains_id(cc_mentions, v),
        Option::None => false,
    }
}

/// One accepted follow relation, as persisted: who follows whom, since
/// when, and whether approval is still pending. Same-instance follows
/// are accepted immediately, so the pending flag is false at creation.
#[derive(Clone, Copy, Debug, PartialEq, Eq, Structural)]
pub struct FollowRecord {
    pub subject_user_id: u128,
    pub object_user_id: u128,
    pub following_since_ms: i64,
    pub pending: bool,
}

} // verus!
