use activitymemes::activity::{activity_record, can_view_activity};
use activitymemes::audience::{collect_resolved, split_public_uris, ToCcUuid, ToCcUuids};
use activitymemes::error::ApiError;
use activitymemes::outbox::{check_content_type, plan_follow, validate_to_cc, UnsanitizedObject};
use activitymemes::url::UrlContext;

const PUBLIC: &str = "https://www.w3.org/ns/activitystreams#Public";

fn ctx() -> UrlContext {
    UrlContext { scheme: b"https".to_vec(), domain: b"instance".to_vec() }
}

fn empty_audience(has_public: bool) -> ToCcUuids {
    collect_resolved(&Vec::new(), has_public)
}

#[test]
fn posting_to_a_known_local_actor_persists_her_identity_and_stays_private() {
    // An image activity addressed to one known local actor.
    let alice_id: u128 = 41;
    let raw_to: Vec<Vec<u8>> = vec![b"https://instance/users/alice".to_vec()];
    let (non_public, has_public) = split_public_uris(&raw_to);
    assert!(!has_public);
    assert_eq!(non_public.len(), 1);
    let resolved = vec![ToCcUuid::DirectMention(alice_id)];
    let to = collect_resolved(&resolved, has_public);
    let record = activity_record(7, 1, 1700000000000, b"{}".to_vec(), to, empty_audience(false));
    assert_eq!(record.to_mentions, vec![alice_id]);
    assert!(!record.is_public);
    assert!(record.this_instance);
    assert!(record.cc_mentions.is_empty());
}

#[test]
fn posting_to_the_public_sentinel_is_public_with_no_mentions() {
    let raw_to: Vec<Vec<u8>> = vec![PUBLIC.as_bytes().to_vec()];
    let (non_public, has_public) = split_public_uris(&raw_to);
    assert!(has_public);
    assert!(non_public.is_empty());
    let to = collect_resolved(&Vec::new(), has_public);
    let record = activity_record(8, 1, 1700000000000, b"{}".to_vec(), to, empty_audience(false));
    assert!(record.is_public);
    assert!(record.to_mentions.is_empty());
}

#[test]
fn a_follow_between_local_actors_plans_both_rows() {
    let c = ctx();
    let bob_id: u128 = 11;
    let alice_id: u128 = 12;
    let now: i64 = 1700000000000;
    let plan = plan_follow(
        &c,
        b"bob",
        bob_id,
        b"https://instance/users/bob",
        b"https://instance/users/alice",
        Some(alice_id),
        99,
        b"{}".to_vec(),
        now,
    )
    .unwrap();
    assert_eq!(plan.follow.subject_user_id, bob_id);
    assert_eq!(plan.follow.object_user_id, alice_id);
    assert_eq!(plan.follow.following_since_ms, now);
    assert!(!plan.follow.pending);
    assert_eq!(plan.activity.user_id, bob_id);
    assert_eq!(plan.activity.published_at_ms, now);
    assert!(plan.activity.is_public);
    assert!(plan.activity.to_mentions.is_empty());
}

#[test]
fn a_follow_with_a_foreign_actor_url_is_refused() {
    let c = ctx();
    let r = plan_follow(
        &c,
        b"bob",
        11,
        b"https://instance/users/bob",
        b"https://other.net/users/alice",
        None,
        99,
        b"{}".to_vec(),
        0,
    );
    assert_eq!(r.err(), Some(ApiError::OtherBadRequest));
}

#[test]
fn a_follow_claiming_someone_elses_actor_url_is_refused() {
    let c = ctx();
    let r = plan_follow(
        &c,
        b"bob",
        11,
        b"https://instance/users/mallory",
        b"https://instance/users/alice",
        Some(12),
        99,
        b"{}".to_vec(),
        0,
    );
    assert_eq!(r.err(), Some(ApiError::OtherBadRequest));
}

#[test]
fn a_follow_of_an_absent_local_actor_is_not_found() {
    let c = ctx();
    let r = plan_follow(
        &c,
        b"bob",
        11,
        b"https://instance/users/bob",
        b"https://instance/users/ghost",
        None,
        99,
        b"{}".to_vec(),
        0,
    );
    assert_eq!(r.err(), Some(ApiError::UserDoesNotExist));
}

#[test]
fn addressing_must_name_at_least_one_recipient() {
    assert_eq!(
        validate_to_cc(None, None).err(),
        Some(ApiError::OtherBadRequest)
    );
    assert_eq!(
        validate_to_cc(Some(Vec::new()), None).err(),
        Some(ApiError::OtherBadRequest)
    );
    assert_eq!(
        validate_to_cc(Some(Vec::new()), Some(Vec::new())).err(),
        Some(ApiError::OtherBadRequest)
    );
    let to = vec![b"https://instance/users/alice".to_vec()];
    let (t, c) = validate_to_cc(Some(to.clone()), None).unwrap();
    assert_eq!(t, to);
    assert!(c.is_empty());
}

#[test]
fn sanitize_trims_the_name_and_summary_and_caps_the_audience() {
    let to: Vec<Vec<u8>> = (0..7)
        .map(|i| format!("https://instance/users/u{}", i).into_bytes())
        .collect();
    let obj = UnsanitizedObject::new(
        Some(b"  a meme  ".to_vec()),
        Some(b" alt text ".to_vec()),
        true,
        to,
        Vec::new(),
    );
    let s = obj.sanitize().unwrap();
    assert_eq!(s.name, b"a meme".to_vec());
    assert_eq!(s.summary, Some(b"alt text".to_vec()));
    assert_eq!(s.to.len(), 5);
    assert!(s.cc.is_empty());
}

#[test]
fn sanitize_refuses_blank_names_missing_urls_and_empty_audiences() {
    let to = vec![b"https://instance/users/a".to_vec()];
    let blank = UnsanitizedObject::new(Some(b"   ".to_vec()), None, true, to.clone(), Vec::new());
    assert_eq!(blank.sanitize().err(), Some(ApiError::OtherBadRequest));

    let unnamed = UnsanitizedObject::new(None, None, true, to.clone(), Vec::new());
    assert_eq!(unnamed.sanitize().err(), Some(ApiError::OtherBadRequest));

    let no_url = UnsanitizedObject::new(Some(b"x".to_vec()), None, false, to, Vec::new());
    assert_eq!(no_url.sanitize().err(), Some(ApiError::OtherBadRequest));

    let unaddressed =
        UnsanitizedObject::new(Some(b"x".to_vec()), None, true, Vec::new(), Vec::new());
    assert_eq!(unaddressed.sanitize().err(), Some(ApiError::OtherBadRequest));
}

#[test]
fn only_the_activity_media_types_are_accepted() {
    assert!(check_content_type(
        b"application/ld+json; profile=\"https://www.w3.org/ns/activitystreams\""
    )
    .is_ok());
    assert!(check_content_type(b"application/activity+json").is_ok());
    assert_eq!(
        check_content_type(b"application/json").err(),
        Some(ApiError::OtherBadRequest)
    );
    assert_eq!(
        check_content_type(b"text/html").err(),
        Some(ApiError::OtherBadRequest)
    );
}

#[test]
fn private_activities_are_visible_only_to_their_audience() {
    let to: Vec<u128> = vec![1, 2];
    let cc: Vec<u128> = vec![3];
    assert!(can_view_activity(true, &to, &cc, None));
    assert!(can_view_activity(false, &to, &cc, Some(2)));
    assert!(can_view_activity(false, &to, &cc, Some(3)));
    assert!(!can_view_activity(false, &to, &cc, Some(4)));
    assert!(!can_view_activity(false, &to, &cc, None));
}
