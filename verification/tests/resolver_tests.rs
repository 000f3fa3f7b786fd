use activitymemes::error::ApiError;
use activitymemes::resolver::{
    classify_actor_uri, is_https, is_own_domain, remote_fetch_plan, uri_host,
    validate_remote_actor, RemoteFetchPlan, UriClass,
};
use activitymemes::url::UrlContext;

fn ctx() -> UrlContext {
    UrlContext { scheme: b"https".to_vec(), domain: b"example.org".to_vec() }
}

#[test]
fn local_uris_are_classified_by_their_shape() {
    let c = ctx();
    match classify_actor_uri(&c, b"https://example.org/users/alice") {
        UriClass::LocalUser(name) => assert_eq!(name, b"alice".to_vec()),
        _ => panic!("expected a local user"),
    }
    match classify_actor_uri(&c, b"https://example.org/users/alice/followers") {
        UriClass::LocalFollowers(name) => assert_eq!(name, b"alice".to_vec()),
        _ => panic!("expected a local followers collection"),
    }
    match classify_actor_uri(&c, b"https://remote.net/users/alice") {
        UriClass::Foreign => {}
        _ => panic!("expected a foreign URI"),
    }
}

#[test]
fn the_scheme_check_wants_https() {
    assert!(is_https(b"https://remote.net/users/bob"));
    assert!(!is_https(b"http://remote.net/users/bob"));
    assert!(!is_https(b"gopher://remote.net"));
}

#[test]
fn the_host_is_what_stands_between_separator_and_path() {
    assert_eq!(
        uri_host(b"https://remote.net/users/bob"),
        Some(b"remote.net".to_vec())
    );
    assert_eq!(
        uri_host(b"https://remote.net:8443/users/bob"),
        Some(b"remote.net".to_vec())
    );
    assert_eq!(uri_host(b"https://remote.net"), Some(b"remote.net".to_vec()));
    assert_eq!(uri_host(b"no-scheme-here"), None);
}

#[test]
fn the_own_domain_guard_spots_loopbacks() {
    let c = ctx();
    assert!(is_own_domain(&c, b"https://example.org/users/alice"));
    assert!(!is_own_domain(&c, b"https://remote.net/users/alice"));
}

#[test]
fn only_person_actors_with_a_username_are_accepted() {
    let c = ctx();
    let ok = validate_remote_actor(
        &c,
        Some(b"Person".to_vec()),
        Some(b"https://remote.net/users/bob".to_vec()),
        Some(b"bob".to_vec()),
        Some(b"Bob".to_vec()),
        Some(b"a bio".to_vec()),
    )
    .unwrap();
    assert_eq!(ok.username, b"bob".to_vec());
    assert_eq!(ok.name, Some(b"Bob".to_vec()));
    assert_eq!(ok.bio, Some(b"a bio".to_vec()));

    let not_person = validate_remote_actor(
        &c,
        Some(b"Service".to_vec()),
        None,
        Some(b"bot".to_vec()),
        None,
        None,
    );
    assert_eq!(
        not_person.err(),
        Some(ApiError::UnexpectedResponseFromFederatedServer)
    );

    let kindless = validate_remote_actor(&c, None, None, Some(b"x".to_vec()), None, None);
    assert_eq!(
        kindless.err(),
        Some(ApiError::UnexpectedResponseFromFederatedServer)
    );

    let nameless = validate_remote_actor(
        &c,
        Some(b"Person".to_vec()),
        Some(b"https://remote.net/users/bob".to_vec()),
        None,
        None,
        None,
    );
    assert_eq!(
        nameless.err(),
        Some(ApiError::UnexpectedResponseFromFederatedServer)
    );
}

#[test]
fn a_profile_pointing_back_home_is_a_bad_request() {
    let c = ctx();
    let loopback = validate_remote_actor(
        &c,
        Some(b"Person".to_vec()),
        Some(b"https://example.org/users/alice".to_vec()),
        Some(b"alice".to_vec()),
        None,
        None,
    );
    assert_eq!(loopback.err(), Some(ApiError::OtherBadRequest));
}

#[test]
fn cached_identities_are_used_without_any_fetch() {
    assert_eq!(
        remote_fetch_plan(b"http://remote.net/users/bob", Some(5)),
        Ok(RemoteFetchPlan::Cached(5))
    );
    assert_eq!(
        remote_fetch_plan(b"https://remote.net/users/bob", None),
        Ok(RemoteFetchPlan::Fetch)
    );
    assert_eq!(
        remote_fetch_plan(b"http://remote.net/users/bob", None),
        Err(ApiError::OtherBadRequest)
    );
}
