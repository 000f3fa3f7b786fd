//! Verified rendering of numbers into ASCII bytes: decimal integers for
//! pagination cursors, and the hyphenated lowercase hex form of a 128-bit
//! identifier.
use vstd::prelude::*;

verus! {

/// Decimal digits of `n`, most significant first.
pub open spec fn dec_nat(n: nat) -> Seq<u8>
    decreases n,
{
    if n < 10 {
        seq![(48 + n) as u8]
    } else {
        dec_nat(n / 10) + seq![(48 + (n % 10)) as u8]
    }
}

/// Decimal form of a signed number: a leading minus sign when negative.
pub open spec fn dec_int(n: int) -> Seq<u8> {
    if n < 0 {
        seq![45u8] + dec_nat((-n) as nat)
    } else {
        dec_nat(n as nat)
    }
}

/// Appends the decimal digits of `n` to `out`.
pub fn push_dec_u64(n: u64, out: &mut Vec<u8>)
    ensures
        final(out)@ == old(out)@ + dec_nat(n as nat),
    decreases n,
{
    if n < 10 {
        out.push(48 + n as u8);
        proof {
            assert(final(out)@ =~= old(out)@ + dec_nat(n as nat));
        }
    } else {
        push_dec_u64(n / 10, out);
        out.push(48 + (n % 10) as u8);
        proof {
            assert(final(out)@ =~= old(out)@ + dec_nat(n as nat));
        }
    }
}

/// The decimal form of an unsigned number as an owned byte vector.
pub fn u64_to_dec(n: u64) -> (r: Vec<u8>)
    ensures
        r@ == dec_nat(n as nat),
{
    let mut out: Vec<u8> = Vec::new();
    push_dec_u64(n, &mut out);
    out
}

/// Appends the decimal form of a signed number to `out`.
pub fn push_dec_i64(n: i64, out: &mut Vec<u8>)
    ensures
        final(out)@ == old(out)@ + dec_int(n as int),
{
    if n < 0 {
        out.push(45);
        let wide: i128 = n as i128;
        let m: u64 = (-wide) as u64;
        push_dec_u64(m, out);
        proof {
            assert(final(out)@ =~= old(out)@ + dec_int(n as int));
        }
    } else {
        push_dec_u64(n as u64, out);
    }
}

/// The decimal form of a signed number as an owned byte vector.
pub fn i64_to_dec(n: i64) -> (r: Vec<u8>)
    ensures
        r@ == dec_int(n as int),
{
    let mut out: Vec<u8> = Vec::new();
    push_dec_i64(n, &mut out);
    out
}

/// The lowercase hex digit for a value below sixteen.
pub open spec fn hex_digit(n: int) -> u8 {
    if n < 10 {
        (48 + n) as u8
    } else {
        (87 + n) as u8
    }
}

/// The `i`-th hex digit of `id`, most significant first, for `0 <= i < 32`.
pub open spec fn uuid_nibble(id: u128, i: int) -> u8 {
    hex_digit(((id >> ((124 - 4 * i) as u128)) & 0xf) as int)
}

/// How many hex digits stand before position `p` of the hyphenated form.
pub open spec fn uuid_digit_index(p: int) -> int {
    if p < 8 {
        p
    } else if p < 13 {
        p - 1
    } else if p < 18 {
        p - 2
    } else if p < 23 {
        p - 3
    } else {
        p - 4
    }
}

/// The 36-byte hyphenated lowercase hex form of a 128-bit identifier,
/// with hyphens after the 8th, 12th, 16th and 20th digits.
pub open spec fn uuid_hyphenated(id: u128) -> Seq<u8> {
    Seq::new(
        36,
        |p: int|
            if p == 8 || p == 13 || p == 18 || p == 23 {
                45u8
            } else {
                uuid_nibble(id, uuid_digit_index(p))
            },
    )
}

/// Renders a 128-bit identifier in its hyphenated lowercase hex form.
pub fn format_uuid(id: u128) -> (r: Vec<u8>)
    ensures
        r@ == uuid_hyphenated(id),
{
    let mut out: Vec<u8> = Vec::new();
    let mut p: usize = 0;
    while p < 36
        invariant
            p <= 36,
            out@.len() == p,
            forall|q: int| 0 <= q < p ==> out@[q] == uuid_hyphenated(id)[q],
        decreases 36 - p,
    {
        if p == 8 || p == 13 || p == 18 || p == 23 {
            out.push(45);
        } else {
            let i: usize = if p < 8 {
                p
            } else if p < 13 {
                p - 1
            } else if p < 18 {
                p - 2
            } else if p < 23 {
                p - 3
            } else {
                p - 4
            };
            let shift: u32 = (124 - 4 * i) as u32;
            let nibble: u128 = (id >> shift) & 0xf;
            assert((id >> ((124 - 4 * (i as int)) as u128)) & 0xf == (id >> (((124 - 4 * (
            i as int)) as u32) as u128)) & 0xf) by (bit_vector)
                requires
                    0 <= i < 32,
            ;
            assert((id >> (shift as u128)) & 0xf < 16) by (bit_vector);
            assert(nibble < 16);
            let digit: u8 = if nibble < 10 {
                48 + nibble as u8
            } else {
                87 + nibble as u8
            };
            out.push(digit);
        }
        p += 1;
    }
    proof {
        assert(out@ =~= uuid_hyphenated(id));
    }
    out
}

} // verus!
