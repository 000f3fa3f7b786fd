//! The identity resolver's decisions: classifying a protocol URI as a
//! local actor, a local followers collection, or a foreign address, and
//! validating what a remote instance hands back for a foreign actor.
use crate::bytestr::{ascii_seq, bytes_eq, is_prefix_of, starts_with, str_to_bytes};
use crate::error::ApiError;
use crate::url::{
    match_user_followers_url, match_user_url, spec_followers_url_name, spec_user_url_name,
    UrlContext,
};
use vstd::prelude::*;

verus! {

/// What a protocol URI names, as far as the instance itself can tell.
#[derive(Clone, Debug)]
pub enum UriClass {
    /// A local actor with the given username.
    LocalUser(Vec<u8>),
    /// The followers collection of the local actor with the given
    /// username.
    LocalFollowers(Vec<u8>),
    /// An address this instance does not serve; resolving it takes a
    /// remote fetch.
    Foreign,
}

/// Classifies a protocol URI: a local actor URL, a local followers
/// collection URL, or anything else, which is foreign.
pub fn classify_actor_uri(ctx: &UrlContext, uri: &[u8]) -> (r: UriClass)
    ensures
        match spec_user_url_name(ctx, uri@) {
            Some(name) => r matches UriClass::LocalUser(n) && n@ == name,
            None => match spec_followers_url_name(ctx, uri@) {
                Some(name) => r matches UriClass::LocalFollowers(n) && n@ == name,
                None => r is Foreign,
            },
        },
{
    if let Some(name) = match_user_url(ctx, uri) {
        return UriClass::LocalUser(name);
    }
    if let Some(name) = match_user_followers_url(ctx, uri) {
        return UriClass::LocalFollowers(name);
    }
    UriClass::Foreign
}

/// True when the URI carries the HTTPS scheme; every outbound fetch
/// refuses anything else.
pub fn is_https(uri: &[u8]) -> (r: bool)
    ensures
        r == is_prefix_of(ascii_seq("https://"@), uri@),
{
    proof {
        reveal_strlit("https://");
    }
    let p = str_to_bytes("https://");
    starts_with(uri, p.as_slice())
}

/// The host part of a URI: what stands between the scheme separator and
/// the next slash, colon or end. Nothing when the URI has no scheme
/// separator.
pub open spec fn spec_uri_host(uri: Seq<u8>) -> Option<Seq<u8>> {
    if exists|i: int| 0 <= i <= uri.len() - 3 && sep_at(uri, i) {
        let i = choose|i: int| 0 <= i <= uri.len() - 3 && sep_at(uri, i) && forall|j: int|
            0 <= j < i ==> !sep_at(uri, j);
        Some(host_from(uri, i + 3))
    } else {
        None
    }
}

/// True when the scheme separator `://` stands at position `i`.
pub open spec fn sep_at(uri: Seq<u8>, i: int) -> bool {
    0 <= i && i + 3 <= uri.len() && uri[i] == 58 && uri[i + 1] == 47 && uri[i + 2] == 47
}

/// The bytes from `from` up to the first slash or colon after it.
pub open spec fn host_from(uri: Seq<u8>, from: int) -> Seq<u8> {
    let rest = uri.skip(from);
    if exists|j: int| 0 <= j < rest.len() && (rest[j] == 47 || rest[j] == 58) {
        let j = choose|j: int|
            0 <= j < rest.len() && (rest[j] == 47 || rest[j] == 58) && forall|k: int|
                0 <= k < j ==> !(rest[k] == 47 || rest[k] == 58);
        rest.take(j)
    } else {
        rest
    }
}

/// Extracts the host part of a URI: the bytes between the first `://`
/// and the next slash, colon or end.
pub fn uri_host(uri: &[u8]) -> (r: Option<Vec<u8>>)
    ensures
        match r {
            Some(h) => spec_uri_host(uri@) == Some(h@),
            None => spec_uri_host(uri@) is None,
        },
{
    let len = uri.len();
    // Find the first scheme separator.
    let mut i: usize = 0;
    let mut sep: Option<usize> = None;
    while i < len && sep.is_none()
        invariant
            i <= len,
            len == uri@.len(),
            match sep {
                Some(s) => 0 <= s <= len - 3 && sep_at(uri@, s as int) && forall|j: int|
                    0 <= j < s ==> !sep_at(uri@, j),
                None => forall|j: int| 0 <= j < i ==> !sep_at(uri@, j),
            },
        decreases len - i + (if sep is Some {
            0int
        } else {
            1int
        }),
    {
        if len - i >= 3 && uri[i] == 58 && uri[i + 1] == 47 && uri[i + 2] == 47 {
            sep = Some(i);
        } else {
            proof {
                assert(!sep_at(uri@, i as int));
            }
            i += 1;
        }
    }
    let s = match sep {
        Some(s) => s,
        None => {
            proof {
                assert(forall|j: int| 0 <= j <= uri@.len() - 3 ==> !sep_at(uri@, j));
            }
            return None;
        },
    };
    proof {
        assert(sep_at(uri@, s as int));
    }
    // Copy the host until a slash, a colon, or the end.
    let from = s + 3;
    let ghost rest = uri@.skip(from as int);
    let mut out: Vec<u8> = Vec::new();
    let mut k: usize = from;
    while k < len && uri[k] != 47 && uri[k] != 58
        invariant
            from <= k <= len,
            len == uri@.len(),
            rest == uri@.skip(from as int),
            out@ == rest.take(k - from),
            forall|j: int| 0 <= j < k - from ==> !(rest[j] == 47 || rest[j] == 58),
        decreases len - k,
    {
        out.push(uri[k]);
        k += 1;
        proof {
            assert(out@ =~= rest.take(k - from));
        }
    }
    proof {
        let hf = host_from(uri@, from as int);
        if k < len {
            assert(rest[k - from] == 47 || rest[k - from] == 58);
            let j0 = choose|j: int|
                0 <= j < rest.len() && (rest[j] == 47 || rest[j] == 58) && forall|z: int|
                    0 <= z < j ==> !(rest[z] == 47 || rest[z] == 58);
            assert(j0 == k - from) by {
                if j0 < k - from {
                    assert(!(rest[j0] == 47 || rest[j0] == 58));
                }
                if j0 > k - from {
                    assert(!(rest[k - from] == 47 || rest[k - from] == 58));
                }
            }
            assert(hf == rest.take(j0));
        } else {
            assert(forall|j: int| 0 <= j < rest.len() ==> !(rest[j] == 47 || rest[j] == 58));
            assert(out@ =~= rest);
            assert(hf == rest);
        }
        let i0 = choose|i: int| 0 <= i <= uri@.len() - 3 && sep_at(uri@, i) && forall|j: int|
            0 <= j < i ==> !sep_at(uri@, j);
        assert(i0 == s) by {
            if i0 < s {
                assert(!sep_at(uri@, i0));
            }
            if i0 > s {
                assert(!sep_at(uri@, s as int));
            }
        }
        assert(spec_uri_host(uri@) == Some(hf));
    }
    Some(out)
}

/// True when the URI's host equals the instance's own domain: the guard
/// against a foreign fetch that would loop back to this instance.
pub fn is_own_domain(ctx: &UrlContext, uri: &[u8]) -> (r: bool)
    ensures
        r == (spec_uri_host(uri@) == Some(ctx.domain@)),
{
    match uri_host(uri) {
        Some(h) => bytes_eq(h.as_slice(), ctx.domain.as_slice()),
        None => false,
    }
}

/// A remote actor's profile, reduced to what the node persists about it.
#[derive(Clone, Debug)]
pub struct NewRemoteActor {
    pub username: Vec<u8>,
    pub name: Option<Vec<u8>>,
    pub bio: Option<Vec<u8>>,
}

/// Validates a fetched remote actor document, handed in as its extracted
/// fields: only a Person actor with a preferred username is accepted,
/// and a document whose own id points back at this instance is refused
/// as a self-referential fetch.
pub fn validate_remote_actor(
    ctx: &UrlContext,
    kind: Option<Vec<u8>>,
    id_url: Option<Vec<u8>>,
    preferred_username: Option<Vec<u8>>,
    name: Option<Vec<u8>>,
    summary: Option<Vec<u8>>,
) -> (r: Result<NewRemoteActor, ApiError>)
    ensures
        kind.deep_view() != Some(ascii_seq("Person"@)) ==> r == Err::<NewRemoteActor, ApiError>(
            ApiError::UnexpectedResponseFromFederatedServer,
        ),
        kind.deep_view() == Some(ascii_seq("Person"@)) && (id_url matches Some(u)
            && spec_uri_host(u@) == Some(ctx.domain@)) ==> r == Err::<NewRemoteActor, ApiError>(
            ApiError::OtherBadRequest,
        ),
        kind.deep_view() == Some(ascii_seq("Person"@)) && !(id_url matches Some(u)
            && spec_uri_host(u@) == Some(ctx.domain@)) && preferred_username is None ==> r == Err::<
            NewRemoteActor,
            ApiError,
        >(ApiError::UnexpectedResponseFromFederatedServer),
        (kind.deep_view() == Some(ascii_seq("Person"@)) && !(id_url matches Some(u)
            && spec_uri_host(u@) == Some(ctx.domain@)) && preferred_username is Some) ==> (
        r matches Ok(a) && Some(a.username@) == preferred_username.deep_view()
            && a.name.deep_view() == name.deep_view() && a.bio.deep_view()
            == summary.deep_view()),
{
    proof {
        reveal_strlit("Person");
        crate::bytestr::lemma_opt_bytes_deep_view(&kind);
        crate::bytestr::lemma_opt_bytes_deep_view(&name);
        crate::bytestr::lemma_opt_bytes_deep_view(&summary);
        crate::bytestr::lemma_opt_bytes_deep_view(&preferred_username);
    }
    let person = str_to_bytes("Person");
    let is_person = match &kind {
        Option::Some(k) => bytes_eq(k.as_slice(), person.as_slice()),
        Option::None => false,
    };
    if !is_person {
        return Err(ApiError::UnexpectedResponseFromFederatedServer);
    }
    if let Option::Some(u) = &id_url {
        if is_own_domain(ctx, u.as_slice()) {
            return Err(ApiError::OtherBadRequest);
        }
    }
    match preferred_username {
        Option::Some(pu) => Ok(NewRemoteActor { username: pu, name, bio: summary }),
        Option::None => Err(ApiError::UnexpectedResponseFromFederatedServer),
    }
}

/// What the resolver does with a foreign URI before any network work:
/// use the cached identity when one exists, refuse a non-HTTPS address,
/// and otherwise fetch.
#[derive(Clone, Copy, Debug, PartialEq, Eq, Structural)]
pub enum RemoteFetchPlan {
    /// The actor is already cached under this identity.
    Cached(u128),
    /// The profile must be fetched from the address.
    Fetch,
}

/// Decides how to resolve a foreign actor URI, given what the cache
/// already holds for it: a cache hit is used as is and never refreshed;
/// a miss demands an HTTPS address before any fetch.
pub fn remote_fetch_plan(uri: &[u8], cached: Option<u128>) -> (r: Result<
    RemoteFetchPlan,
    ApiError,
>)
    ensures
        cached matches Some(id) ==> r == Ok::<RemoteFetchPlan, ApiError>(
            RemoteFetchPlan::Cached(id),
        ),
        cached is None && is_prefix_of(ascii_seq("https://"@), uri@) ==> r == Ok::<
            RemoteFetchPlan,
            ApiError,
        >(RemoteFetchPlan::Fetch),
        cached is None && !is_prefix_of(ascii_seq("https://"@), uri@) ==> r == Err::<
            RemoteFetchPlan,
            ApiError,
        >(ApiError::OtherBadRequest),
{
    match cached {
        Option::Some(id) => Ok(RemoteFetchPlan::Cached(id)),
        Option::None => {
            if is_https(uri) {
                Ok(RemoteFetchPlan::Fetch)
            } else {
                Err(ApiError::OtherBadRequest)
            }
        },
    }
}

} // verus!
