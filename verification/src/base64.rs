//! A verified base64 encoder over the standard alphabet with padding:
//! what the Digest and Signature header values wrap around their raw
//! hash and signature bytes.
use vstd::prelude::*;

verus! {

/// The standard-alphabet character for a six-bit value.
pub open spec fn b64_char(n: u8) -> u8 {
    if n < 26 {
        (65 + n) as u8
    } else if n < 52 {
        (97 + (n - 26)) as u8
    } else if n < 62 {
        (48 + (n - 52)) as u8
    } else if n == 62 {
        43u8
    } else {
        47u8
    }
}

/// The base64 encoding of a byte string: four characters for every
/// started group of three bytes, padded with `=` to a multiple of four.
pub open spec fn base64_spec(s: Seq<u8>) -> Seq<u8>
    decreases s.len(),
{
    if s.len() == 0 {
        Seq::empty()
    } else if s.len() == 1 {
        seq![
            b64_char(s[0] >> 2),
            b64_char((s[0] & 3) << 4),
            61u8,
            61u8,
        ]
    } else if s.len() == 2 {
        seq![
            b64_char(s[0] >> 2),
            b64_char(((s[0] & 3) << 4) | (s[1] >> 4)),
            b64_char((s[1] & 15) << 2),
            61u8,
        ]
    } else {
        seq![
            b64_char(s[0] >> 2),
            b64_char(((s[0] & 3) << 4) | (s[1] >> 4)),
            b64_char(((s[1] & 15) << 2) | (s[2] >> 6)),
            b64_char(s[2] & 63),
        ] + base64_spec(s.skip(3))
    }
}

/// The six-bit combinations fed to the alphabet stay below sixty-four.
proof fn lemma_six_bits(a: u8, b: u8)
    ensures
        a >> 2 < 64,
        (a & 3) << 4 < 64,
        ((a & 3) << 4) | (b >> 4) < 64,
        (a & 15) << 2 < 64,
        ((a & 15) << 2) | (b >> 6) < 64,
        a & 63 < 64,
{
    assert(a >> 2 < 64 && (a & 3) << 4 < 64 && ((a & 3) << 4) | (b >> 4) < 64 && (a & 15) << 2
        < 64 && ((a & 15) << 2) | (b >> 6) < 64 && a & 63 < 64) by (bit_vector);
}

/// Maps a six-bit value into the standard alphabet.
fn encode_char(n: u8) -> (r: u8)
    requires
        n < 64,
    ensures
        r == b64_char(n),
{
    if n < 26 {
        65 + n
    } else if n < 52 {
        97 + (n - 26)
    } else if n < 62 {
        48 + (n - 52)
    } else if n == 62 {
        43
    } else {
        47
    }
}

/// Encodes a byte string in base64, standard alphabet, with padding.
pub fn base64_encode(data: &[u8]) -> (r: Vec<u8>)
    ensures
        r@ == base64_spec(data@),
{
    let mut out: Vec<u8> = Vec::new();
    let mut i: usize = 0;
    let len = data.len();
    proof {
        assert(data@.skip(0int) =~= data@);
    }
    while len - i >= 3
        invariant
            i <= len,
            i % 3 == 0,
            len == data@.len(),
            base64_spec(data@) == out@ + base64_spec(data@.skip(i as int)),
        decreases len - i,
    {
        let b0 = data[i];
        let b1 = data[i + 1];
        let b2 = data[i + 2];
        proof {
            lemma_six_bits(b0, b1);
            lemma_six_bits(b1, b2);
            lemma_six_bits(b2, b0);
            assert(data@.skip(i as int)[0] == b0);
            assert(data@.skip(i as int)[1] == b1);
            assert(data@.skip(i as int)[2] == b2);
            assert(data@.skip(i as int).skip(3) =~= data@.skip(i + 3));
        }
        let ghost pre = out@;
        out.push(encode_char(b0 >> 2));
        out.push(encode_char(((b0 & 3) << 4) | (b1 >> 4)));
        out.push(encode_char(((b1 & 15) << 2) | (b2 >> 6)));
        out.push(encode_char(b2 & 63));
        proof {
            assert(out@ =~= pre + seq![
                b64_char(b0 >> 2),
                b64_char(((b0 & 3) << 4) | (b1 >> 4)),
                b64_char(((b1 & 15) << 2) | (b2 >> 6)),
                b64_char(b2 & 63),
            ]);
            assert(base64_spec(data@) =~= out@ + base64_spec(data@.skip(i + 3)));
        }
        i += 3;
    }
    let ghost rest = data@.skip(i as int);
    if len - i == 1 {
        let b0 = data[i];
        proof {
            lemma_six_bits(b0, b0);
            assert(rest[0] == b0);
            assert(rest.len() == 1);
        }
        let ghost pre = out@;
        out.push(encode_char(b0 >> 2));
        out.push(encode_char((b0 & 3) << 4));
        out.push(61);
        out.push(61);
        proof {
            assert(out@ =~= pre + base64_spec(rest));
            assert(out@ =~= base64_spec(data@));
        }
    } else if len - i == 2 {
        let b0 = data[i];
        let b1 = data[i + 1];
        proof {
            lemma_six_bits(b0, b1);
            lemma_six_bits(b1, b0);
            assert(rest[0] == b0);
            assert(rest[1] == b1);
            assert(rest.len() == 2);
        }
        let ghost pre = out@;
        out.push(encode_char(b0 >> 2));
        out.push(encode_char(((b0 & 3) << 4) | (b1 >> 4)));
        out.push(encode_char((b1 & 15) << 2));
        out.push(61);
        proof {
            assert(out@ =~= pre + base64_spec(rest));
            assert(out@ =~= base64_spec(data@));
        }
    } else {
        proof {
            assert(rest.len() == 0);
            assert(out@ =~= base64_spec(data@));
        }
    }
    out
}

} // verus!
