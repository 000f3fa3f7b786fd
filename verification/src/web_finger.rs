//! The webfinger endpoint's logic: parsing the `resource` query into a
//! local username, and building the response document.
use crate::bytestr::{append_bytes, append_str, ascii_seq, bytes_eq, str_to_bytes};
use crate::error::ApiError;
use crate::url::{html_user, UrlContext};
use vstd::prelude::*;

verus! {

/// The `acct:` prefix a webfinger resource carries, as bytes.
pub open spec fn acct_marker() -> Seq<u8> {
    seq![97u8, 99u8, 99u8, 116u8, 58u8]
}

/// The `acct:` prefix as an owned byte vector.
fn acct_marker_bytes() -> (r: Vec<u8>)
    ensures
        r@ == acct_marker(),
{
    let mut v: Vec<u8> = Vec::new();
    v.push(97);
    v.push(99);
    v.push(99);
    v.push(116);
    v.push(58);
    proof {
        assert(v@ =~= acct_marker());
    }
    v
}

/// True when `sub` occurs in `s` at position `i`.
pub open spec fn occurs_at(s: Seq<u8>, sub: Seq<u8>, i: int) -> bool {
    0 <= i && i + sub.len() <= s.len() && s.subrange(i, i + sub.len()) == sub
}

/// True when `sub` occurs somewhere in `s`.
pub open spec fn contains_sub(s: Seq<u8>, sub: Seq<u8>) -> bool {
    exists|i: int| occurs_at(s, sub, i)
}

/// True when the byte occurs in `s`.
pub open spec fn contains_byte(s: Seq<u8>, b: u8) -> bool {
    exists|i: int| 0 <= i < s.len() && s[i] == b
}

/// `s` with every occurrence of the `acct:` marker removed, scanning
/// left to right.
pub open spec fn remove_acct(s: Seq<u8>) -> Seq<u8>
    decreases s.len(),
{
    if s.len() == 0 {
        Seq::empty()
    } else if occurs_at(s, acct_marker(), 0) {
        remove_acct(s.skip(acct_marker().len() as int))
    } else {
        seq![s[0]] + remove_acct(s.skip(1))
    }
}

/// Removing the marker never removes an at-sign: the marker holds none.
pub proof fn lemma_remove_acct_keeps_at(s: Seq<u8>)
    ensures
        contains_byte(remove_acct(s), 64) == contains_byte(s, 64),
    decreases s.len(),
{
    if s.len() == 0 {
    } else if occurs_at(s, acct_marker(), 0) {
        let k = acct_marker().len() as int;
        lemma_remove_acct_keeps_at(s.skip(k));
        assert forall|i: int| 0 <= i < s.len() && s[i] == 64 implies contains_byte(
            s.skip(k),
            64,
        ) by {
            assert(s.subrange(0, k) == acct_marker());
            if i < k {
                assert(s.subrange(0, k)[i] == s[i]);
                assert(acct_marker()[i] != 64);
            } else {
                assert(s.skip(k)[i - k] == 64);
            }
        }
        assert forall|i: int| 0 <= i < s.skip(k).len() && s.skip(k)[i] == 64 implies contains_byte(
            s,
            64,
        ) by {
            assert(s[i + k] == 64);
        }
    } else {
        lemma_remove_acct_keeps_at(s.skip(1));
        let r = remove_acct(s);
        if contains_byte(s, 64) {
            let i = choose|i: int| 0 <= i < s.len() && s[i] == 64;
            if i == 0 {
                assert(r[0] == 64);
            } else {
                assert(s.skip(1)[i - 1] == 64);
                assert(contains_byte(remove_acct(s.skip(1)), 64));
                let j = choose|j: int|
                    0 <= j < remove_acct(s.skip(1)).len() && remove_acct(s.skip(1))[j] == 64;
                assert(r[j + 1] == 64);
            }
        }
        if contains_byte(r, 64) {
            let j = choose|j: int| 0 <= j < r.len() && r[j] == 64;
            if j == 0 && s[0] == 64 {
                assert(contains_byte(s, 64));
            } else {
                assert(remove_acct(s.skip(1))[j - 1] == 64);
                assert(contains_byte(s.skip(1), 64));
                let i = choose|i: int| 0 <= i < s.skip(1).len() && s.skip(1)[i] == 64;
                assert(s[i + 1] == 64);
            }
        }
    }
}

/// The position of the first at-sign in `s`.
pub open spec fn first_at(s: Seq<u8>) -> int {
    choose|i: int| 0 <= i < s.len() && s[i] == 64 && forall|j: int| 0 <= j < i ==> s[j] != 64
}

/// The second segment of `s` split at its at-signs: what stands between
/// the first at-sign and the next one, or the end.
pub open spec fn second_segment(s: Seq<u8>) -> Seq<u8> {
    let rest = s.skip(first_at(s) + 1);
    if contains_byte(rest, 64) {
        rest.take(first_at(rest))
    } else {
        rest
    }
}

/// What the webfinger endpoint answers for a `resource` query, given the
/// instance's domain: the marker and an at-sign are required, the domain
/// part must be this instance's own, and the username is what stands
/// before the first at-sign once the marker is removed.
pub open spec fn spec_webfinger_username(resource: Seq<u8>, domain: Seq<u8>) -> Result<
    Seq<u8>,
    ApiError,
> {
    if !contains_sub(resource, acct_marker()) || !contains_byte(resource, 64) {
        Err(ApiError::IncorrectResourceQuery)
    } else {
        let u = remove_acct(resource);
        if second_segment(u) != domain {
            Err(ApiError::UserDoesNotExist)
        } else {
            Ok(u.take(first_at(u)))
        }
    }
}

/// Scans for an occurrence of the `acct:` marker.
fn find_acct(resource: &[u8]) -> (r: bool)
    ensures
        r == contains_sub(resource@, acct_marker()),
{
    let marker = acct_marker_bytes();
    let mlen = marker.len();
    let len = resource.len();
    if len < mlen {
        proof {
            assert forall|i: int| !occurs_at(resource@, acct_marker(), i) by {}
        }
        return false;
    }
    let mut i: usize = 0;
    while i <= len - mlen
        invariant
            mlen == 5,
            mlen <= len,
            i <= len - mlen + 1,
            len == resource@.len(),
            marker@ == acct_marker(),
            forall|p: int| 0 <= p < i ==> !occurs_at(resource@, acct_marker(), p),
        decreases len - i,
    {
        let mut k: usize = 0;
        let mut all = true;
        while k < mlen
            invariant
                k <= mlen,
                mlen == 5,
                i + mlen <= len,
                len == resource@.len(),
                marker@ == acct_marker(),
                all ==> (forall|q: int| 0 <= q < k ==> resource@[i + q] == acct_marker()[q]),
                !all ==> (exists|q: int|
                    0 <= q < acct_marker().len() && resource@[i + q] != acct_marker()[q]),
            decreases mlen - k,
        {
            if resource[i + k] != marker[k] {
                all = false;
                assert(resource@[i + k as int] != acct_marker()[k as int]);
                k = mlen;
            } else {
                k += 1;
            }
        }
        if all {
            proof {
                assert(resource@.subrange(i as int, i + acct_marker().len()) =~= acct_marker());
                assert(occurs_at(resource@, acct_marker(), i as int));
            }
            return true;
        }
        proof {
            let q = choose|q: int|
                0 <= q < acct_marker().len() && resource@[i + q] != acct_marker()[q];
            assert(!occurs_at(resource@, acct_marker(), i as int)) by {
                if occurs_at(resource@, acct_marker(), i as int) {
                    assert(resource@.subrange(i as int, i + acct_marker().len())[q] == acct_marker()[
                    q]);
                }
            }
        }
        i += 1;
    }
    proof {
        assert forall|p: int| !occurs_at(resource@, acct_marker(), p) by {
            if occurs_at(resource@, acct_marker(), p) {
                assert(0 <= p && p + 5 <= len);
            }
        }
    }
    false
}

/// Removes every occurrence of the `acct:` marker, scanning left to
/// right.
fn strip_acct(resource: &[u8]) -> (r: Vec<u8>)
    ensures
        r@ == remove_acct(resource@),
{
    let len = resource.len();
    let mut out: Vec<u8> = Vec::new();
    let mut i: usize = 0;
    proof {
        assert(resource@.skip(0int) =~= resource@);
        assert(remove_acct(resource@) =~= out@ + remove_acct(resource@.skip(0int)));
    }
    while i < len
        invariant
            i <= len,
            len == resource@.len(),
            remove_acct(resource@) == out@ + remove_acct(resource@.skip(i as int)),
        decreases len - i,
    {
        let ghost rest = resource@.skip(i as int);
        // Does the marker stand here?
        let matched = if len - i >= 5 {
            resource[i] == 97 && resource[i + 1] == 99 && resource[i + 2] == 99 && resource[i + 3]
                == 116 && resource[i + 4] == 58
        } else {
            false
        };
        proof {
            if matched {
                assert(occurs_at(rest, acct_marker(), 0)) by {
                    assert(rest.subrange(0, 5) =~= acct_marker()) by {
                        assert(forall|q: int| 0 <= q < 5 ==> rest[q] == resource@[i + q]);
                    }
                }
                assert(rest.skip(5) =~= resource@.skip(i + 5));
            } else {
                if occurs_at(rest, acct_marker(), 0) {
                    assert(rest.subrange(0, 5) == acct_marker());
                    assert(forall|q: int| 0 <= q < 5 ==> rest.subrange(0, 5)[q] == rest[q]);
                    assert(rest[0] == 97 && rest[1] == 99 && rest[2] == 99 && rest[3] == 116
                        && rest[4] == 58);
                    assert(forall|q: int| 0 <= q < 5 ==> rest[q] == resource@[i + q]);
                }
                assert(!occurs_at(rest, acct_marker(), 0));
                assert(rest.skip(1) =~= resource@.skip(i + 1));
            }
        }
        if matched {
            i += 5;
        } else {
            let ghost pre_out = out@;
            out.push(resource[i]);
            proof {
                assert(out@ + remove_acct(resource@.skip(i + 1)) =~= pre_out + (seq![
                    resource@[i as int],
                ] + remove_acct(resource@.skip(i + 1))));
            }
            i += 1;
        }
    }
    proof {
        assert(resource@.skip(len as int) =~= Seq::<u8>::empty());
        assert(out@ =~= out@ + remove_acct(resource@.skip(len as int)));
    }
    out
}

/// Parses a webfinger `resource` query into the local username it names:
/// the query must carry the `acct:` marker and an at-sign, and the
/// domain between the first at-sign and the next must be this
/// instance's own.
pub fn parse_webfinger_resource(resource: &[u8], domain: &[u8]) -> (r: Result<Vec<u8>, ApiError>)
    ensures
        match r {
            Ok(name) => spec_webfinger_username(resource@, domain@) == Ok::<Seq<u8>, ApiError>(
                name@,
            ),
            Err(e) => spec_webfinger_username(resource@, domain@) == Err::<Seq<u8>, ApiError>(e),
        },
{
    if !find_acct(resource) {
        return Err(ApiError::IncorrectResourceQuery);
    }
    // Check for an at-sign in the raw resource.
    let len = resource.len();
    let mut has_at = false;
    let mut k: usize = 0;
    while k < len
        invariant
            k <= len,
            len == resource@.len(),
            has_at ==> contains_byte(resource@, 64),
            !has_at ==> (forall|i: int| 0 <= i < k ==> resource@[i] != 64),
        decreases len - k,
    {
        if resource[k] == 64 {
            has_at = true;
            assert(resource@[k as int] == 64);
            k = len;
        } else {
            k += 1;
        }
    }
    if !has_at {
        return Err(ApiError::IncorrectResourceQuery);
    }
    let u = strip_acct(resource);
    proof {
        lemma_remove_acct_keeps_at(resource@);
    }
    // Find the first at-sign of the stripped form.
    let ulen = u.len();
    let mut a: usize = 0;
    while a < ulen && u[a] != 64
        invariant
            a <= ulen,
            ulen == u@.len(),
            forall|i: int| 0 <= i < a ==> u@[i] != 64,
        decreases ulen - a,
    {
        a += 1;
    }
    proof {
        assert(contains_byte(u@, 64));
        if a == ulen {
            let i = choose|i: int| 0 <= i < u@.len() && u@[i] == 64;
            assert(false);
        }
        assert(u@[a as int] == 64);
        assert(first_at(u@) == a) by {
            assert(u@[a as int] == 64 && (forall|j: int| 0 <= j < a ==> u@[j] != 64));
            let w = first_at(u@);
            if w < a {
                assert(u@[w] != 64);
            }
            if w > a {
                assert(u@[a as int] != 64);
            }
        }
    }
    // The domain part: from after the at-sign to the next one or the end.
    let ghost rest = u@.skip(a + 1);
    let mut dom: Vec<u8> = Vec::new();
    let mut d: usize = a + 1;
    while d < ulen && u[d] != 64
        invariant
            a + 1 <= d <= ulen,
            ulen == u@.len(),
            rest == u@.skip(a + 1),
            dom@ == rest.take(d - (a + 1)),
            forall|i: int| 0 <= i < d - (a + 1) ==> rest[i] != 64,
        decreases ulen - d,
    {
        dom.push(u[d]);
        d += 1;
        proof {
            assert(dom@ =~= rest.take(d - (a + 1)));
        }
    }
    proof {
        if d < ulen {
            assert(rest[d - (a + 1)] == 64);
            assert(contains_byte(rest, 64));
            assert(first_at(rest) == d - (a + 1)) by {
                let w = first_at(rest);
                assert(rest[d - (a + 1)] == 64 && (forall|j: int|
                    0 <= j < d - (a + 1) ==> rest[j] != 64));
                if w < d - (a + 1) {
                    assert(rest[w] != 64);
                }
                if w > d - (a + 1) {
                    assert(rest[d - (a + 1)] != 64);
                }
            }
            assert(second_segment(u@) == rest.take(d - (a + 1)));
        } else {
            assert(!contains_byte(rest, 64)) by {
                if contains_byte(rest, 64) {
                    let i = choose|i: int| 0 <= i < rest.len() && rest[i] == 64;
                }
            }
            assert(dom@ =~= rest);
            assert(second_segment(u@) == rest);
        }
    }
    if !bytes_eq(dom.as_slice(), domain) {
        return Err(ApiError::UserDoesNotExist);
    }
    // The username: everything before the first at-sign.
    let mut name: Vec<u8> = Vec::new();
    let mut n: usize = 0;
    while n < a
        invariant
            n <= a <= ulen,
            ulen == u@.len(),
            name@ == u@.take(n as int),
        decreases a - n,
    {
        name.push(u[n]);
        n += 1;
        proof {
            assert(name@ =~= u@.take(n as int));
        }
    }
    Ok(name)
}

/// One link of a webfinger response.
#[derive(Clone, Debug)]
pub struct WebFingerLink {
    pub rel: Vec<u8>,
    pub kind: Vec<u8>,
    pub href: Vec<u8>,
}

/// A webfinger response: the queried resource, the subject's addresses,
/// and links to its profile page and actor document.
#[derive(Clone, Debug)]
pub struct WebFinger {
    pub subject: Option<Vec<u8>>,
    pub aliases: Option<Vec<Vec<u8>>>,
    pub links: Vec<WebFingerLink>,
}

/// The webfinger query parameters.
#[derive(Clone, Debug)]
pub struct GetWebFingerQuery {
    pub resource: Vec<u8>,
}

/// The relative actor URL used in the response's prefetch link.
pub open spec fn spec_relative_actor_url(username: Seq<u8>) -> Seq<u8> {
    ascii_seq("/users/"@) + username
}

/// Builds the webfinger response for a local user: the queried resource
/// as subject, the HTML profile page and the relative actor URL as
/// aliases, and the profile-page and self links.
pub fn make_web_finger(ctx: &UrlContext, username: &[u8], resource: Vec<u8>) -> (r: WebFinger)
    ensures
        r.subject.deep_view() == Some(resource@),
        r.aliases.deep_view() matches Some(a) && a == seq![
            ctx.spec_shared_url() + ascii_seq("/@"@) + username@,
            spec_relative_actor_url(username@),
        ],
        r.links@.len() == 2,
        r.links@[0].rel@ == ascii_seq("http://webfinger.net/rel/profile-page"@),
        r.links@[0].kind@ == ascii_seq("text/html"@),
        r.links@[0].href@ == ctx.spec_shared_url() + ascii_seq("/@"@) + username@,
        r.links@[1].rel@ == ascii_seq("self"@),
        r.links@[1].kind@ == ascii_seq("application/activity+json"@),
        r.links@[1].href@ == ctx.spec_shared_url() + spec_relative_actor_url(username@),
{
    proof {
        reveal_strlit("/users/");
        reveal_strlit("http://webfinger.net/rel/profile-page");
        reveal_strlit("text/html");
        reveal_strlit("self");
        reveal_strlit("application/activity+json");
    }
    let html_href = html_user(ctx, username);
    let mut relative: Vec<u8> = Vec::new();
    append_str(&mut relative, "/users/");
    append_bytes(&mut relative, username);
    let mut absolute = crate::url::shared_url(ctx);
    append_bytes(&mut absolute, relative.as_slice());

    let html_href_alias = crate::bytestr::clone_bytes(&html_href);
    let mut aliases_vec: Vec<Vec<u8>> = Vec::new();
    aliases_vec.push(html_href_alias);
    aliases_vec.push(relative);
    proof {
        crate::bytestr::lemma_deep_view_index(&aliases_vec, 0int);
        crate::bytestr::lemma_deep_view_index(&aliases_vec, 1int);
        assert(aliases_vec.deep_view() =~= seq![
            ctx.spec_shared_url() + ascii_seq("/@"@) + username@,
            spec_relative_actor_url(username@),
        ]);
    }
    let profile_link = WebFingerLink {
        rel: str_to_bytes("http://webfinger.net/rel/profile-page"),
        kind: str_to_bytes("text/html"),
        href: html_href,
    };
    let self_link = WebFingerLink {
        rel: str_to_bytes("self"),
        kind: str_to_bytes("application/activity+json"),
        href: absolute,
    };
    let mut links: Vec<WebFingerLink> = Vec::new();
    links.push(profile_link);
    links.push(self_link);
    let r = WebFinger { subject: Some(resource), aliases: Some(aliases_vec), links };
    proof {
        match &r.subject {
            Option::Some(v) => {
                assert(v.deep_view() =~= v@);
            },
            Option::None => {},
        }
    }
    r
}

} // verus!
