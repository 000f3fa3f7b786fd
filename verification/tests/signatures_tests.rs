use activitymemes::base64::base64_encode;
use activitymemes::signatures::{
    ascii_lowercase, digest_header_value, signature_header, signature_header_from_raw,
    signing_string,
};

#[test]
fn base64_matches_known_vectors() {
    assert_eq!(base64_encode(b""), b"".to_vec());
    assert_eq!(base64_encode(b"f"), b"Zg==".to_vec());
    assert_eq!(base64_encode(b"fo"), b"Zm8=".to_vec());
    assert_eq!(base64_encode(b"foo"), b"Zm9v".to_vec());
    assert_eq!(base64_encode(b"foob"), b"Zm9vYg==".to_vec());
    assert_eq!(base64_encode(b"fooba"), b"Zm9vYmE=".to_vec());
    assert_eq!(base64_encode(b"foobar"), b"Zm9vYmFy".to_vec());
    assert_eq!(base64_encode(&[0xfb, 0xff, 0xfe]), b"+//+".to_vec());
}

#[test]
fn the_digest_header_wraps_the_hash() {
    // The SHA-256 hash of the empty string, precomputed.
    let empty_hash: [u8; 32] = [
        0xe3, 0xb0, 0xc4, 0x42, 0x98, 0xfc, 0x1c, 0x14, 0x9a, 0xfb, 0xf4, 0xc8, 0x99, 0x6f,
        0xb9, 0x24, 0x27, 0xae, 0x41, 0xe4, 0x64, 0x9b, 0x93, 0x4c, 0xa4, 0x95, 0x99, 0x1b,
        0x78, 0x52, 0xb8, 0x55,
    ];
    assert_eq!(
        digest_header_value(&empty_hash),
        b"SHA-256=47DEQpj8HBSa+/TImW+5JCeuQeRkm5NMpJWZG3hSuFU=".to_vec()
    );
}

#[test]
fn the_signing_string_joins_the_pseudo_headers() {
    let s = signing_string(
        b"post",
        b"/users/bob/inbox",
        b"remote.net",
        b"Sat, 01 Jan 2022 00:00:00 GMT",
        b"SHA-256=abc",
    );
    let expected = b"(request-target): post /users/bob/inbox\n\
host: remote.net\n\
date: Sat, 01 Jan 2022 00:00:00 GMT\n\
digest: SHA-256=abc"
        .to_vec();
    assert_eq!(s, expected);
}

#[test]
fn lowercasing_touches_only_ascii_letters() {
    assert_eq!(ascii_lowercase(b"POST"), b"post".to_vec());
    assert_eq!(ascii_lowercase(b"GeT-7"), b"get-7".to_vec());
}

#[test]
fn the_signature_header_has_the_fixed_shape() {
    let h = signature_header(b"https://instance/users/alice#main-key", b"c2ln");
    let expected = b"keyId=\"https://instance/users/alice#main-key\",algorithm=\"rsa-sha256\",headers=\"(request-target) host date digest\",signature=\"c2ln\"".to_vec();
    assert_eq!(h, expected);
    // Encoding the raw bytes on the way gives the same header.
    assert_eq!(
        signature_header_from_raw(b"https://instance/users/alice#main-key", b"sig"),
        expected
    );
}
