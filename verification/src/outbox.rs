//! Posting to the outbox: validating raw addressing, sanitizing a
//! submitted object, and planning the rows a follow activity creates.
use crate::activity::{ActivityRecord, FollowRecord};
use crate::audience::{limit_spec, limit_to_and_cc};
use crate::bytestr::{ascii_seq, bytes_eq, str_to_bytes, trim_bytes, trim_spec};
use crate::error::ApiError;
use crate::url::{activitypub_actor, spec_user_url_name, UrlContext};
use vstd::prelude::*;

verus! {

/// True of the two activity media types a posting endpoint accepts.
pub open spec fn is_activity_media_type(ct: Seq<u8>) -> bool {
    ct == ascii_seq("application/ld+json; profile=\"https://www.w3.org/ns/activitystreams\""@)
        || ct == ascii_seq("application/activity+json"@)
}

/// Checks a posted request's Content-Type: only the two activity media
/// types are accepted, anything else is a bad request.
pub fn check_content_type(content_type: &[u8]) -> (r: Result<(), ApiError>)
    ensures
        is_activity_media_type(content_type@) ==> r is Ok,
        !is_activity_media_type(content_type@) ==> r == Err::<(), ApiError>(
            ApiError::OtherBadRequest,
        ),
{
    proof {
        reveal_strlit("application/ld+json; profile=\"https://www.w3.org/ns/activitystreams\"");
        reveal_strlit("application/activity+json");
    }
    let ld = str_to_bytes(
        "application/ld+json; profile=\"https://www.w3.org/ns/activitystreams\"",
    );
    let plain = str_to_bytes("application/activity+json");
    if bytes_eq(content_type, ld.as_slice()) || bytes_eq(content_type, plain.as_slice()) {
        Ok(())
    } else {
        Err(ApiError::OtherBadRequest)
    }
}

/// Validates the raw `to` and `cc` lists handed to an activity builder:
/// at least one of them must be present and non-empty; absent lists
/// become empty ones.
pub fn validate_to_cc(to: Option<Vec<Vec<u8>>>, cc: Option<Vec<Vec<u8>>>) -> (r: Result<
    (Vec<Vec<u8>>, Vec<Vec<u8>>),
    ApiError,
>)
    ensures
        match (&to, &cc) {
            (Option::None, Option::None) => r == Err::<(Vec<Vec<u8>>, Vec<Vec<u8>>), ApiError>(
                ApiError::OtherBadRequest,
            ),
            (Option::Some(t), Option::None) => {
                if t@.len() == 0 {
                    r == Err::<(Vec<Vec<u8>>, Vec<Vec<u8>>), ApiError>(ApiError::OtherBadRequest)
                } else {
                    r matches Ok(p) && p.0.deep_view() == t.deep_view() && p.1@.len() == 0
                }
            },
            (Option::None, Option::Some(c)) => {
                if c@.len() == 0 {
                    r == Err::<(Vec<Vec<u8>>, Vec<Vec<u8>>), ApiError>(ApiError::OtherBadRequest)
                } else {
                    r matches Ok(p) && p.0@.len() == 0 && p.1.deep_view() == c.deep_view()
                }
            },
            (Option::Some(t), Option::Some(c)) => {
                if t@.len() == 0 && c@.len() == 0 {
                    r == Err::<(Vec<Vec<u8>>, Vec<Vec<u8>>), ApiError>(ApiError::OtherBadRequest)
                } else {
                    r matches Ok(p) && p.0.deep_view() == t.deep_view() && p.1.deep_view()
                        == c.deep_view()
                }
            },
        },
{
    match (to, cc) {
        (Option::None, Option::None) => Err(ApiError::OtherBadRequest),
        (Option::Some(t), Option::None) => {
            if t.len() == 0 {
                Err(ApiError::OtherBadRequest)
            } else {
                Ok((t, Vec::new()))
            }
        },
        (Option::None, Option::Some(c)) => {
            if c.len() == 0 {
                Err(ApiError::OtherBadRequest)
            } else {
                Ok((Vec::new(), c))
            }
        },
        (Option::Some(t), Option::Some(c)) => {
            if t.len() == 0 && c.len() == 0 {
                Err(ApiError::OtherBadRequest)
            } else {
                Ok((t, c))
            }
        },
    }
}

/// A submitted object, reduced to the fields this node reads before it
/// accepts the object: display name, alt-text summary, whether a URL is
/// attached, and the raw addressing lists.
#[derive(Clone, Debug)]
pub struct UnsanitizedObject {
    pub name: Option<Vec<u8>>,
    pub summary: Option<Vec<u8>>,
    pub has_url: bool,
    pub to: Vec<Vec<u8>>,
    pub cc: Vec<Vec<u8>>,
}

/// A submitted object this node accepted: trimmed name and summary, and
/// capped addressing lists.
#[derive(Clone, Debug)]
pub struct SanitizedObject {
    pub name: Vec<u8>,
    pub summary: Option<Vec<u8>>,
    pub to: Vec<Vec<u8>>,
    pub cc: Vec<Vec<u8>>,
}

impl UnsanitizedObject {
    /// Wraps the extracted fields of a submitted object.
    pub fn new(
        name: Option<Vec<u8>>,
        summary: Option<Vec<u8>>,
        has_url: bool,
        to: Vec<Vec<u8>>,
        cc: Vec<Vec<u8>>,
    ) -> (r: UnsanitizedObject)
        ensures
            r.name == name,
            r.summary == summary,
            r.has_url == has_url,
            r.to == to,
            r.cc == cc,
    {
        UnsanitizedObject { name, summary, has_url, to, cc }
    }

    /// Accepts or refuses a submitted object: the name must be present
    /// and non-empty once trimmed, a URL must be attached, and at least
    /// one audience entry must be given; the audience lists are capped
    /// at five non-public entries each, with public addressing kept.
    pub fn sanitize(self) -> (r: Result<SanitizedObject, ApiError>)
        ensures
            match self.name {
                Option::None => r == Err::<SanitizedObject, ApiError>(ApiError::OtherBadRequest),
                Option::Some(n) => {
                    if trim_spec(n@).len() == 0 || !self.has_url || (self.to@.len() == 0
                        && self.cc@.len() == 0) {
                        r == Err::<SanitizedObject, ApiError>(ApiError::OtherBadRequest)
                    } else {
                        r matches Ok(s) && s.name@ == trim_spec(n@) && s.summary.deep_view() == (
                        match self.summary {
                            Option::Some(m) => Some(trim_spec(m@)),
                            Option::None => None::<Seq<u8>>,
                        }) && s.to.deep_view() == limit_spec(self.to.deep_view())
                            && s.cc.deep_view() == limit_spec(self.cc.deep_view())
                    }
                },
            },
    {
        let name = match &self.name {
            Option::Some(n) => trim_bytes(n.as_slice()),
            Option::None => {
                return Err(ApiError::OtherBadRequest);
            },
        };
        if name.len() == 0 {
            return Err(ApiError::OtherBadRequest);
        }
        if !self.has_url {
            return Err(ApiError::OtherBadRequest);
        }
        if self.to.len() == 0 && self.cc.len() == 0 {
            return Err(ApiError::OtherBadRequest);
        }
        let summary = match &self.summary {
            Option::Some(m) => Some(trim_bytes(m.as_slice())),
            Option::None => None,
        };
        proof {
            match &summary {
                Option::Some(m) => {
                    assert(m.deep_view() =~= m@);
                },
                Option::None => {},
            }
        }
        let to = limit_to_and_cc(&self.to);
        let cc = limit_to_and_cc(&self.cc);
        Ok(SanitizedObject { name, summary, to, cc })
    }
}

impl SanitizedObject {
    /// Hands the accepted fields back out.
    pub fn into_inner(self) -> (r: (Vec<u8>, Option<Vec<u8>>, Vec<Vec<u8>>, Vec<Vec<u8>>))
        ensures
            r.0 == self.name,
            r.1 == self.summary,
            r.2 == self.to,
            r.3 == self.cc,
    {
        (self.name, self.summary, self.to, self.cc)
    }
}

/// The two rows a follow activity writes in one transaction: the
/// activity itself and the accepted follow relation.
#[derive(Clone, Debug)]
pub struct FollowPlan {
    pub activity: ActivityRecord,
    pub follow: FollowRecord,
}

/// Plans a follow posted by a local actor: the activity's actor URL must
/// be the poster's own, the object must name a local actor, and that
/// actor must exist; the plan then holds a public activity row with no
/// mentions and a follow row accepted immediately, both stamped with the
/// same moment.
pub fn plan_follow(
    ctx: &UrlContext,
    username: &[u8],
    subject_user_id: u128,
    actor_url: &[u8],
    object_url: &[u8],
    object_user_id: Option<u128>,
    activity_id: u128,
    document: Vec<u8>,
    now_ms: i64,
) -> (r: Result<FollowPlan, ApiError>)
    ensures
        actor_url@ != ctx.spec_actor_prefix() + username@ ==> r == Err::<FollowPlan, ApiError>(
            ApiError::OtherBadRequest,
        ),
        actor_url@ == ctx.spec_actor_prefix() + username@ && spec_user_url_name(ctx, object_url@)
            is None ==> r == Err::<FollowPlan, ApiError>(ApiError::OtherBadRequest),
        (actor_url@ == ctx.spec_actor_prefix() + username@ && spec_user_url_name(
            ctx,
            object_url@,
        ) is Some && object_user_id is None) ==> r == Err::<FollowPlan, ApiError>(
            ApiError::UserDoesNotExist,
        ),
        (actor_url@ == ctx.spec_actor_prefix() + username@ && spec_user_url_name(
            ctx,
            object_url@,
        ) is Some && object_user_id is Some) ==> (r matches Ok(plan)
            && plan.activity.id == activity_id && plan.activity.user_id == subject_user_id
            && plan.activity.this_instance == true && plan.activity.published_at_ms == now_ms
            && plan.activity.activity@ == document@ && plan.activity.is_public == true
            && plan.activity.to_mentions@.len() == 0 && plan.activity.cc_mentions@.len() == 0
            && plan.activity.to_followers_of@.len() == 0 && plan.activity.cc_followers_of@.len()
            == 0 && plan.follow.subject_user_id == subject_user_id && Some(
            plan.follow.object_user_id,
        ) == object_user_id && plan.follow.following_since_ms == now_ms
            && plan.follow.pending == false),
{
    let own_url = activitypub_actor(ctx, username);
    if !bytes_eq(actor_url, own_url.as_slice()) {
        return Err(ApiError::OtherBadRequest);
    }
    match crate::url::match_user_url(ctx, object_url) {
        Option::Some(_) => {},
        Option::None => {
            // Following actors on other instances is not supported here.
            return Err(ApiError::OtherBadRequest);
        },
    }
    let oid = match object_user_id {
        Option::Some(oid) => oid,
        Option::None => {
            return Err(ApiError::UserDoesNotExist);
        },
    };
    let activity = ActivityRecord {
        id: activity_id,
        user_id: subject_user_id,
        this_instance: true,
        published_at_ms: now_ms,
        activity: document,
        is_public: true,
        to_mentions: Vec::new(),
        cc_mentions: Vec::new(),
        to_followers_of: Vec::new(),
        cc_followers_of: Vec::new(),
    };
    let follow = FollowRecord {
        subject_user_id,
        object_user_id: oid,
        following_since_ms: now_ms,
        pending: false,
    };
    Ok(FollowPlan { activity, follow })
}

} // verus!
