use activitymemes::error::ApiError;
use activitymemes::url::UrlContext;
use activitymemes::web_finger::{make_web_finger, parse_webfinger_resource};

fn ctx() -> UrlContext {
    UrlContext { scheme: b"https".to_vec(), domain: b"example.org".to_vec() }
}

#[test]
fn a_well_formed_resource_yields_the_username() {
    assert_eq!(
        parse_webfinger_resource(b"acct:alice@example.org", b"example.org"),
        Ok(b"alice".to_vec())
    );
}

#[test]
fn the_marker_and_the_at_sign_are_both_required() {
    assert_eq!(
        parse_webfinger_resource(b"alice@example.org", b"example.org"),
        Err(ApiError::IncorrectResourceQuery)
    );
    assert_eq!(
        parse_webfinger_resource(b"acct:alice", b"example.org"),
        Err(ApiError::IncorrectResourceQuery)
    );
    assert_eq!(
        parse_webfinger_resource(b"", b"example.org"),
        Err(ApiError::IncorrectResourceQuery)
    );
}

#[test]
fn a_foreign_domain_is_not_served() {
    assert_eq!(
        parse_webfinger_resource(b"acct:alice@remote.net", b"example.org"),
        Err(ApiError::UserDoesNotExist)
    );
}

#[test]
fn error_statuses_follow_the_error_kind() {
    assert_eq!(ApiError::UserDoesNotExist.status_code(), 404);
    assert_eq!(ApiError::InternalServerError.status_code(), 500);
    assert_eq!(ApiError::Forbidden.status_code(), 403);
    assert_eq!(ApiError::ResourceNotFound.status_code(), 404);
    assert_eq!(ApiError::OtherBadRequest.status_code(), 400);
    assert_eq!(ApiError::IncorrectResourceQuery.status_code(), 400);
}

#[test]
fn error_messages_match_their_kind() {
    assert_eq!(ApiError::UserDoesNotExist.message(), "User doesn't exist.");
    assert_eq!(ApiError::OtherBadRequest.message(), "Bad request.");
    assert_eq!(
        ApiError::FailedDeliveryDueToNetworkError.message(),
        "Failed delivery due to network error."
    );
}

#[test]
fn the_response_links_profile_page_and_actor_document() {
    let r = make_web_finger(&ctx(), b"alice", b"acct:alice@example.org".to_vec());
    assert_eq!(r.subject, Some(b"acct:alice@example.org".to_vec()));
    assert_eq!(
        r.aliases,
        Some(vec![
            b"https://example.org/@alice".to_vec(),
            b"/users/alice".to_vec(),
        ])
    );
    assert_eq!(r.links.len(), 2);
    assert_eq!(r.links[0].rel, b"http://webfinger.net/rel/profile-page".to_vec());
    assert_eq!(r.links[0].kind, b"text/html".to_vec());
    assert_eq!(r.links[0].href, b"https://example.org/@alice".to_vec());
    assert_eq!(r.links[1].rel, b"self".to_vec());
    assert_eq!(r.links[1].kind, b"application/activity+json".to_vec());
    assert_eq!(r.links[1].href, b"https://example.org/users/alice".to_vec());
}
