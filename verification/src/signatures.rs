//! The signature subsystem's verified half: the exact strings an HTTP
//! message signature is computed over and wrapped in. Hashing and
//! signing themselves belong to outside cryptography crates and sit on
//! the other side of these functions.
use crate::base64::{base64_encode, base64_spec};
use crate::bytestr::{append_bytes, append_str, ascii_seq};
use vstd::prelude::*;

verus! {

/// The value of the Digest header over a body's SHA-256 hash: the hash
/// is computed by the cryptography collaborator; its base64 wrapping and
/// the algorithm marker are exact here.
pub open spec fn spec_digest_header(hash: Seq<u8>) -> Seq<u8> {
    ascii_seq("SHA-256="@) + base64_spec(hash)
}

/// Returns the value of the Digest header around a computed body hash.
pub fn digest_header_value(hash: &[u8]) -> (r: Vec<u8>)
    ensures
        r@ == spec_digest_header(hash@),
{
    proof {
        reveal_strlit("SHA-256=");
    }
    let mut out: Vec<u8> = Vec::new();
    append_str(&mut out, "SHA-256=");
    let encoded = base64_encode(hash);
    append_bytes(&mut out, encoded.as_slice());
    out
}

/// The newline-joined string an HTTP message signature covers:
/// the request target, host, date and digest pseudo-headers.
pub open spec fn spec_signing_string(
    method_lower: Seq<u8>,
    path: Seq<u8>,
    host: Seq<u8>,
    date: Seq<u8>,
    body_digest: Seq<u8>,
) -> Seq<u8> {
    ascii_seq("(request-target): "@) + method_lower + seq![32u8] + path + seq![10u8] + ascii_seq(
        "host: "@,
    ) + host + seq![10u8] + ascii_seq("date: "@) + date + seq![10u8] + ascii_seq("digest: "@)
        + body_digest
}

/// Builds the string an HTTP message signature covers.
pub fn signing_string(
    method_lower: &[u8],
    path: &[u8],
    host: &[u8],
    date: &[u8],
    body_digest: &[u8],
) -> (r: Vec<u8>)
    ensures
        r@ == spec_signing_string(method_lower@, path@, host@, date@, body_digest@),
{
    proof {
        reveal_strlit("(request-target): ");
        reveal_strlit("host: ");
        reveal_strlit("date: ");
        reveal_strlit("digest: ");
    }
    let mut out: Vec<u8> = Vec::new();
    append_str(&mut out, "(request-target): ");
    append_bytes(&mut out, method_lower);
    out.push(32);
    append_bytes(&mut out, path);
    out.push(10);
    append_str(&mut out, "host: ");
    append_bytes(&mut out, host);
    out.push(10);
    append_str(&mut out, "date: ");
    append_bytes(&mut out, date);
    out.push(10);
    append_str(&mut out, "digest: ");
    append_bytes(&mut out, body_digest);
    out
}

/// The ASCII-lowercased form of a byte string.
pub open spec fn lower_seq(s: Seq<u8>) -> Seq<u8> {
    Seq::new(
        s.len(),
        |i: int|
            if 65 <= s[i] <= 90 {
                (s[i] + 32) as u8
            } else {
                s[i]
            },
    )
}

/// Lowercases the ASCII letters of a byte string.
pub fn ascii_lowercase(s: &[u8]) -> (r: Vec<u8>)
    ensures
        r@ == lower_seq(s@),
{
    let mut out: Vec<u8> = Vec::new();
    let mut i: usize = 0;
    while i < s.len()
        invariant
            i <= s@.len(),
            out@ == lower_seq(s@).take(i as int),
        decreases s@.len() - i,
    {
        let b = s[i];
        if 65 <= b && b <= 90 {
            out.push(b + 32);
        } else {
            out.push(b);
        }
        i += 1;
        proof {
            assert(out@ =~= lower_seq(s@).take(i as int));
        }
    }
    proof {
        assert(out@ =~= lower_seq(s@));
    }
    out
}

/// The value of the Signature header, given the base64-encoded RSA
/// signature.
pub open spec fn spec_signature_header(key_id: Seq<u8>, sig_b64: Seq<u8>) -> Seq<u8> {
    ascii_seq("keyId=\""@) + key_id + ascii_seq(
        "\",algorithm=\"rsa-sha256\",headers=\"(request-target) host date digest\",signature=\""@,
    ) + sig_b64 + seq![34u8]
}

/// Formats the Signature header around a raw RSA signature, encoding it
/// on the way.
pub fn signature_header_from_raw(key_id: &[u8], raw_signature: &[u8]) -> (r: Vec<u8>)
    ensures
        r@ == spec_signature_header(key_id@, base64_spec(raw_signature@)),
{
    let encoded = base64_encode(raw_signature);
    signature_header(key_id, encoded.as_slice())
}

/// Formats the Signature header around an encoded signature.
pub fn signature_header(key_id: &[u8], sig_b64: &[u8]) -> (r: Vec<u8>)
    ensures
        r@ == spec_signature_header(key_id@, sig_b64@),
{
    proof {
        reveal_strlit("keyId=\"");
        reveal_strlit(
            "\",algorithm=\"rsa-sha256\",headers=\"(request-target) host date digest\",signature=\"",
        );
    }
    let mut out: Vec<u8> = Vec::new();
    append_str(&mut out, "keyId=\"");
    append_bytes(&mut out, key_id);
    append_str(
        &mut out,
        "\",algorithm=\"rsa-sha256\",headers=\"(request-target) host date digest\",signature=\"",
    );
    append_bytes(&mut out, sig_b64);
    out.push(34);
    out
}

} // verus!
