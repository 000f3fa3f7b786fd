use activitymemes::numfmt::{format_uuid, i64_to_dec, u64_to_dec};
use activitymemes::url::{
    activitypub_activity, activitypub_actor, activitypub_object, html_user,
    match_user_followers_url, match_user_url, shared_url, UrlContext,
};

fn ctx() -> UrlContext {
    UrlContext { scheme: b"https".to_vec(), domain: b"example.org".to_vec() }
}

#[test]
fn shared_url_joins_scheme_and_domain() {
    assert_eq!(shared_url(&ctx()), b"https://example.org".to_vec());
}

#[test]
fn user_urls_are_built_from_the_context() {
    assert_eq!(
        html_user(&ctx(), b"alice"),
        b"https://example.org/@alice".to_vec()
    );
    assert_eq!(
        activitypub_actor(&ctx(), b"alice"),
        b"https://example.org/users/alice".to_vec()
    );
}

#[test]
fn activity_urls_carry_the_hyphenated_identifier() {
    let id: u128 = 0x67e5504410b1426f9247bb680e5fe0c8;
    assert_eq!(
        activitypub_activity(&ctx(), id),
        b"https://example.org/activities/67e55044-10b1-426f-9247-bb680e5fe0c8".to_vec()
    );
    assert_eq!(
        activitypub_object(&ctx(), id),
        b"https://example.org/activities/67e55044-10b1-426f-9247-bb680e5fe0c8/object".to_vec()
    );
}

#[test]
fn uuid_formatting_matches_the_canonical_form() {
    assert_eq!(
        format_uuid(0),
        b"00000000-0000-0000-0000-000000000000".to_vec()
    );
    assert_eq!(
        format_uuid(u128::MAX),
        b"ffffffff-ffff-ffff-ffff-ffffffffffff".to_vec()
    );
}

#[test]
fn decimal_formatting_is_exact() {
    assert_eq!(u64_to_dec(0), b"0".to_vec());
    assert_eq!(u64_to_dec(1234567890), b"1234567890".to_vec());
    assert_eq!(i64_to_dec(-123), b"-123".to_vec());
    assert_eq!(i64_to_dec(i64::MIN), b"-9223372036854775808".to_vec());
    assert_eq!(i64_to_dec(i64::MAX), b"9223372036854775807".to_vec());
}

#[test]
fn user_url_matching_extracts_the_username() {
    let c = ctx();
    assert_eq!(
        match_user_url(&c, b"https://example.org/users/alice"),
        Some(b"alice".to_vec())
    );
    assert_eq!(
        match_user_url(&c, b"https://example.org/users/al_ice-9"),
        Some(b"al_ice-9".to_vec())
    );
    assert_eq!(match_user_url(&c, b"https://example.org/users/"), None);
    assert_eq!(match_user_url(&c, b"https://example.org/users/a/b"), None);
    assert_eq!(match_user_url(&c, b"https://other.net/users/alice"), None);
    assert_eq!(
        match_user_url(&c, b"https://example.org/users/alice/followers"),
        None
    );
}

#[test]
fn followers_url_matching_extracts_the_username() {
    let c = ctx();
    assert_eq!(
        match_user_followers_url(&c, b"https://example.org/users/alice/followers"),
        Some(b"alice".to_vec())
    );
    assert_eq!(
        match_user_followers_url(&c, b"https://example.org/users/alice"),
        None
    );
    assert_eq!(
        match_user_followers_url(&c, b"https://example.org/users//followers"),
        None
    );
    assert_eq!(
        match_user_followers_url(&c, b"https://example.org/users/a/b/followers"),
        None
    );
}
