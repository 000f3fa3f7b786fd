//! Building and parsing of instance-relative URLs. The instance's scheme and
//! domain live in an explicit context value handed to every function, and the
//! URL grammar for local actors is stated as a spec predicate rather than a
//! compiled pattern.
use crate::bytestr::{append_bytes, append_str, ascii_seq, starts_with, str_to_bytes};
use crate::numfmt::{format_uuid, uuid_hyphenated};
use vstd::prelude::*;

verus! {

/// The instance's own base-URL pieces, fixed at startup from configuration.
pub struct UrlContext {
    pub scheme: Vec<u8>,
    pub domain: Vec<u8>,
}

impl UrlContext {
    /// The base URL of the instance: `scheme://domain`.
    pub open spec fn spec_shared_url(&self) -> Seq<u8> {
        self.scheme@ + ascii_seq("://"@) + self.domain@
    }

    /// The common prefix of every local actor URL: `scheme://domain/users/`.
    pub open spec fn spec_actor_prefix(&self) -> Seq<u8> {
        self.spec_shared_url() + ascii_seq("/users/"@)
    }
}

/// The base URL of the instance.
pub fn shared_url(ctx: &UrlContext) -> (r: Vec<u8>)
    ensures
        r@ == ctx.spec_shared_url(),
{
    proof {
        reveal_strlit("://");
    }
    let mut out: Vec<u8> = Vec::new();
    append_bytes(&mut out, ctx.scheme.as_slice());
    append_str(&mut out, "://");
    append_bytes(&mut out, ctx.domain.as_slice());
    out
}

/// The address of a user's HTML profile page.
pub fn html_user(ctx: &UrlContext, username: &[u8]) -> (r: Vec<u8>)
    ensures
        r@ == ctx.spec_shared_url() + ascii_seq("/@"@) + username@,
{
    proof {
        reveal_strlit("/@");
    }
    let mut out = shared_url(ctx);
    append_str(&mut out, "/@");
    append_bytes(&mut out, username);
    out
}

/// The canonical URL of a local actor.
pub fn activitypub_actor(ctx: &UrlContext, username: &[u8]) -> (r: Vec<u8>)
    ensures
        r@ == ctx.spec_actor_prefix() + username@,
{
    proof {
        reveal_strlit("/users/");
    }
    let mut out = shared_url(ctx);
    append_str(&mut out, "/users/");
    append_bytes(&mut out, username);
    out
}

/// The canonical URL of a locally created activity.
pub open spec fn spec_activity_url(ctx: &UrlContext, id: u128) -> Seq<u8> {
    ctx.spec_shared_url() + ascii_seq("/activities/"@) + uuid_hyphenated(id)
}

/// The canonical URL of a locally created activity.
pub fn activitypub_activity(ctx: &UrlContext, id: u128) -> (r: Vec<u8>)
    ensures
        r@ == spec_activity_url(ctx, id),
{
    proof {
        reveal_strlit("/activities/");
    }
    let mut out = shared_url(ctx);
    append_str(&mut out, "/activities/");
    let hex = format_uuid(id);
    append_bytes(&mut out, hex.as_slice());
    out
}

/// The canonical URL of the object wrapped by a locally created activity.
pub fn activitypub_object(ctx: &UrlContext, activity_id: u128) -> (r: Vec<u8>)
    ensures
        r@ == spec_activity_url(ctx, activity_id) + ascii_seq("/object"@),
{
    proof {
        reveal_strlit("/object");
    }
    let mut out = activitypub_activity(ctx, activity_id);
    append_str(&mut out, "/object");
    out
}

/// True of the bytes allowed in a local username: ASCII letters, digits,
/// underscore and hyphen.
pub open spec fn is_word_byte(b: u8) -> bool {
    (97 <= b <= 122) || (65 <= b <= 90) || (48 <= b <= 57) || b == 95 || b == 45
}

/// True when every byte of `s` may stand in a username and `s` is nonempty.
pub open spec fn is_username(s: Seq<u8>) -> bool {
    s.len() > 0 && forall|i: int| 0 <= i < s.len() ==> is_word_byte(s[i])
}

/// The username a local-actor URL names, when the URL has exactly the form
/// `scheme://domain/users/<username>`.
pub open spec fn spec_user_url_name(ctx: &UrlContext, url: Seq<u8>) -> Option<Seq<u8>> {
    let p = ctx.spec_actor_prefix();
    if p.len() <= url.len() && url.subrange(0, p.len() as int) == p && is_username(
        url.skip(p.len() as int),
    ) {
        Some(url.skip(p.len() as int))
    } else {
        None
    }
}

/// Checks that every byte from `from` on is a word byte.
fn check_word_bytes(url: &[u8], from: usize) -> (r: bool)
    requires
        from <= url@.len(),
    ensures
        r == (forall|i: int| from <= i < url@.len() ==> is_word_byte(url@[i])),
{
    let mut i: usize = from;
    while i < url.len()
        invariant
            from <= i <= url@.len(),
            forall|j: int| from <= j < i ==> is_word_byte(url@[j]),
        decreases url@.len() - i,
    {
        let b = url[i];
        if !((97 <= b && b <= 122) || (65 <= b && b <= 90) || (48 <= b && b <= 57) || b == 95
            || b == 45) {
            return false;
        }
        i += 1;
    }
    true
}

/// Recognizes a local-actor URL and hands back the username it names.
pub fn match_user_url(ctx: &UrlContext, url: &[u8]) -> (r: Option<Vec<u8>>)
    ensures
        match r {
            Some(name) => spec_user_url_name(ctx, url@) == Some(name@),
            None => spec_user_url_name(ctx, url@) is None,
        },
{
    proof {
        reveal_strlit("/users/");
    }
    let mut prefix = shared_url(ctx);
    append_str(&mut prefix, "/users/");
    if !starts_with(url, prefix.as_slice()) {
        return None;
    }
    let plen = prefix.len();
    if plen >= url.len() {
        assert(url@.skip(plen as int).len() == 0);
        return None;
    }
    if !check_word_bytes(url, plen) {
        proof {
            let i = choose|i: int| plen <= i < url@.len() && !is_word_byte(url@[i]);
            assert(url@.skip(plen as int)[i - plen] == url@[i]);
            assert(!is_username(url@.skip(plen as int)));
        }
        return None;
    }
    let mut name: Vec<u8> = Vec::new();
    let mut i: usize = plen;
    while i < url.len()
        invariant
            plen <= i <= url@.len(),
            name@ == url@.subrange(plen as int, i as int),
        decreases url@.len() - i,
    {
        name.push(url[i]);
        i += 1;
        proof {
            assert(name@ =~= url@.subrange(plen as int, i as int));
        }
    }
    proof {
        assert(name@ =~= url@.skip(plen as int));
    }
    Some(name)
}

/// The username whose followers collection a URL names, when the URL has
/// exactly the form `scheme://domain/users/<username>/followers`.
pub open spec fn spec_followers_url_name(ctx: &UrlContext, url: Seq<u8>) -> Option<Seq<u8>> {
    let p = ctx.spec_actor_prefix();
    let t = ascii_seq("/followers"@);
    if p.len() + t.len() <= url.len() && url.subrange(0, p.len() as int) == p && url.skip(
        url.len() - t.len(),
    ) == t && is_username(url.subrange(p.len() as int, url.len() - t.len())) {
        Some(url.subrange(p.len() as int, url.len() - t.len()))
    } else {
        None
    }
}

/// Recognizes a local followers-collection URL and hands back the username.
pub fn match_user_followers_url(ctx: &UrlContext, url: &[u8]) -> (r: Option<Vec<u8>>)
    ensures
        match r {
            Some(name) => spec_followers_url_name(ctx, url@) == Some(name@),
            None => spec_followers_url_name(ctx, url@) is None,
        },
{
    proof {
        reveal_strlit("/users/");
        reveal_strlit("/followers");
    }
    let mut prefix = shared_url(ctx);
    append_str(&mut prefix, "/users/");
    let tail = str_to_bytes("/followers");
    if !starts_with(url, prefix.as_slice()) {
        return None;
    }
    let plen = prefix.len();
    let tlen = tail.len();
    if url.len() - plen < tlen {
        assert(url@.len() < prefix@.len() + tail@.len());
        return None;
    }
    let cut = url.len() - tlen;
    // Check the trailing `/followers`.
    let mut pos: usize = cut;
    let mut tail_ok = true;
    while pos < url.len()
        invariant
            cut <= pos <= url@.len(),
            plen <= cut,
            tlen == tail@.len(),
            cut + tlen == url@.len(),
            tail@ == ascii_seq("/followers"@),
            tail_ok ==> (forall|j: int| 0 <= j < pos - cut ==> url@[cut + j] == tail@[j]),
            !tail_ok ==> (exists|j: int| 0 <= j < tail@.len() && url@[cut + j] != tail@[j]),
        decreases url@.len() - pos,
    {
        if url[pos] != tail[pos - cut] {
            tail_ok = false;
            assert(url@[cut + (pos - cut)] != tail@[pos - cut]);
            pos = url.len();
        } else {
            pos += 1;
        }
    }
    if !tail_ok {
        assert(url@.skip(url@.len() - tail@.len()) != tail@) by {
            let s = url@.skip(url@.len() - tail@.len());
            assert(exists|j: int| 0 <= j < tail@.len() && url@[cut + j] != tail@[j]);
            let j = choose|j: int| 0 <= j < tail@.len() && url@[cut + j] != tail@[j];
            assert(s[j] == url@[cut + j]);
        }
        return None;
    }
    assert(url@.skip(url@.len() - tail@.len()) =~= tail@);
    if cut <= plen {
        assert(url@.subrange(plen as int, cut as int).len() == 0);
        return None;
    }
    // Check and copy the username between prefix and tail.
    let mut name: Vec<u8> = Vec::new();
    let mut i: usize = plen;
    while i < cut
        invariant
            plen <= i <= cut <= url@.len(),
            plen == ctx.spec_actor_prefix().len(),
            tail@ == ascii_seq("/followers"@),
            cut + tail@.len() == url@.len(),
            url@.subrange(0, plen as int) == ctx.spec_actor_prefix(),
            url@.skip(url@.len() - tail@.len()) == tail@,
            name@ == url@.subrange(plen as int, i as int),
            forall|j: int| plen <= j < i ==> is_word_byte(url@[j]),
        decreases cut - i,
    {
        let b = url[i];
        if !((97 <= b && b <= 122) || (65 <= b && b <= 90) || (48 <= b && b <= 57) || b == 95
            || b == 45) {
            proof {
                assert(url@.subrange(plen as int, cut as int)[i - plen] == url@[i as int]);
                assert(!is_username(url@.subrange(plen as int, cut as int)));
            }
            return None;
        }
        name.push(b);
        i += 1;
        proof {
            assert(name@ =~= url@.subrange(plen as int, i as int));
        }
    }
    assert(is_username(url@.subrange(plen as int, cut as int)));
    Some(name)
}

} // verus!
