//! Verified helpers over byte strings. URIs, usernames and serialized
//! documents are carried through the library as plain `Vec<u8>` values, and
//! contracts speak of them as `Seq<u8>`.
use vstd::prelude::*;
use vstd::string::is_ascii_spec_bytes;

verus! {

/// The bytes of an ASCII character sequence, character by character.
pub open spec fn ascii_seq(s: Seq<char>) -> Seq<u8> {
    Seq::new(s.len(), |i: int| s[i] as u8)
}

/// Copies an ASCII string literal into an owned byte vector.
pub fn str_to_bytes(s: &str) -> (r: Vec<u8>)
    requires
        s.is_ascii(),
    ensures
        r@ == ascii_seq(s@),
{
    proof {
        broadcast use is_ascii_spec_bytes;
    }
    let b = s.as_bytes();
    let mut v: Vec<u8> = Vec::new();
    let mut i: usize = 0;
    while i < b.len()
        invariant
            i <= b.len(),
            b@ == ascii_seq(s@),
            v@ == b@.subrange(0, i as int),
        decreases b.len() - i,
    {
        v.push(b[i]);
        i += 1;
        proof {
            assert(v@ =~= b@.subrange(0, i as int));
        }
    }
    proof {
        assert(v@ =~= ascii_seq(s@));
    }
    v
}

/// True when the two byte slices hold the same bytes.
pub fn bytes_eq(a: &[u8], b: &[u8]) -> (r: bool)
    ensures
        r == (a@ == b@),
{
    if a.len() != b.len() {
        assert(a@.len() != b@.len());
        return false;
    }
    let mut i: usize = 0;
    while i < a.len()
        invariant
            i <= a.len(),
            a.len() == b.len(),
            forall|j: int| 0 <= j < i ==> a@[j] == b@[j],
        decreases a.len() - i,
    {
        if a[i] != b[i] {
            return false;
        }
        i += 1;
    }
    assert(a@ =~= b@);
    true
}

/// Copies a byte vector.
pub fn clone_bytes(v: &Vec<u8>) -> (r: Vec<u8>)
    ensures
        r@ == v@,
{
    let mut out: Vec<u8> = Vec::new();
    let mut i: usize = 0;
    while i < v.len()
        invariant
            i <= v@.len(),
            out@ == v@.subrange(0, i as int),
        decreases v@.len() - i,
    {
        out.push(v[i]);
        i += 1;
        proof {
            assert(out@ =~= v@.subrange(0, i as int));
        }
    }
    proof {
        assert(out@ =~= v@);
    }
    out
}

/// Appends all bytes of `src` to `dst`.
pub fn append_bytes(dst: &mut Vec<u8>, src: &[u8])
    ensures
        final(dst)@ == old(dst)@ + src@,
{
    let mut i: usize = 0;
    while i < src.len()
        invariant
            i <= src.len(),
            dst@ == old(dst)@ + src@.subrange(0, i as int),
        decreases src.len() - i,
    {
        dst.push(src[i]);
        i += 1;
        proof {
            assert(dst@ =~= old(dst)@ + src@.subrange(0, i as int));
        }
    }
    proof {
        assert(dst@ =~= old(dst)@ + src@);
    }
}

/// Appends the bytes of an ASCII string literal to `dst`.
pub fn append_str(dst: &mut Vec<u8>, src: &str)
    requires
        src.is_ascii(),
    ensures
        final(dst)@ == old(dst)@ + ascii_seq(src@),
{
    let b = str_to_bytes(src);
    append_bytes(dst, b.as_slice());
}

/// True when `p` is a prefix of `a`.
pub open spec fn is_prefix_of(p: Seq<u8>, a: Seq<u8>) -> bool {
    p.len() <= a.len() && a.subrange(0, p.len() as int) == p
}

/// True when the slice starts with the given prefix.
pub fn starts_with(a: &[u8], p: &[u8]) -> (r: bool)
    ensures
        r == is_prefix_of(p@, a@),
{
    if p.len() > a.len() {
        return false;
    }
    let mut i: usize = 0;
    while i < p.len()
        invariant
            i <= p.len(),
            p.len() <= a.len(),
            forall|j: int| 0 <= j < i ==> a@[j] == p@[j],
        decreases p.len() - i,
    {
        if a[i] != p[i] {
            assert(a@.subrange(0, p@.len() as int)[i as int] != p@[i as int]);
            return false;
        }
        i += 1;
    }
    assert(a@.subrange(0, p@.len() as int) =~= p@);
    true
}

/// The deep view of a byte vector is its view.
pub proof fn lemma_bytes_deep_view(v: &Vec<u8>)
    ensures
        v.deep_view() == v@,
{
    assert(v.deep_view() =~= v@);
}

/// The deep view of an optional byte vector is the view of its contents.
pub proof fn lemma_opt_bytes_deep_view(o: &Option<Vec<u8>>)
    ensures
        o.deep_view() == (match o {
            Some(v) => Some(v@),
            None => None::<Seq<u8>>,
        }),
{
    match o {
        Some(v) => {
            assert(v.deep_view() =~= v@);
        },
        None => {},
    }
}

/// The deep view of a vector of byte vectors indexes to the inner views.
pub proof fn lemma_deep_view_index(v: &Vec<Vec<u8>>, i: int)
    requires
        0 <= i < v@.len(),
    ensures
        v.deep_view().len() == v@.len(),
        v.deep_view()[i] == v@[i]@,
{
    assert(v.deep_view()[i] =~= v@[i]@);
}

/// True when some element of `v` holds the same bytes as `x`.
pub fn contains_bytes(v: &Vec<Vec<u8>>, x: &[u8]) -> (r: bool)
    ensures
        r == v.deep_view().contains(x@),
{
    let mut i: usize = 0;
    while i < v.len()
        invariant
            i <= v.len(),
            forall|j: int| 0 <= j < i ==> v.deep_view()[j] != x@,
        decreases v.len() - i,
    {
        let hit = bytes_eq(v[i].as_slice(), x);
        proof {
            lemma_deep_view_index(v, i as int);
        }
        if hit {
            return true;
        }
        i += 1;
    }
    false
}

/// True of the ASCII whitespace bytes: space, tab, line feed, vertical
/// tab, form feed and carriage return.
pub open spec fn is_space(b: u8) -> bool {
    b == 32 || b == 9 || b == 10 || b == 11 || b == 12 || b == 13
}

/// The bytes with leading and trailing ASCII whitespace removed.
pub open spec fn trim_spec(s: Seq<u8>) -> Seq<u8>
    decreases s.len(),
{
    if s.len() > 0 && is_space(s.first()) {
        trim_spec(s.drop_first())
    } else if s.len() > 0 && is_space(s.last()) {
        trim_spec(s.drop_last())
    } else {
        s
    }
}

/// The trimmed bytes are the stretch between the first and last
/// non-whitespace positions.
pub proof fn lemma_trim_range(s: Seq<u8>, lo: int, hi: int)
    requires
        0 <= lo <= hi <= s.len(),
        forall|i: int| 0 <= i < lo ==> is_space(#[trigger] s[i]),
        forall|i: int| hi <= i < s.len() ==> is_space(#[trigger] s[i]),
        lo < hi ==> !is_space(s[lo]) && !is_space(s[hi - 1]),
    ensures
        trim_spec(s) == s.subrange(lo, hi),
    decreases s.len(),
{
    if s.len() == 0 {
        assert(trim_spec(s) =~= s.subrange(0, 0));
    } else if is_space(s.first()) {
        assert(lo > 0 || lo == hi) by {
            if lo == 0 && lo < hi {
                assert(!is_space(s[0]));
            }
        }
        if lo == hi {
            assert(forall|i: int| 0 <= i < s.len() ==> is_space(#[trigger] s[i]));
            let d = s.drop_first();
            assert(forall|i: int| 0 <= i < d.len() ==> is_space(#[trigger] d[i])) by {
                assert(forall|i: int| 0 <= i < d.len() ==> d[i] == s[i + 1]);
            }
            lemma_trim_range(d, 0, 0);
            assert(trim_spec(s) == trim_spec(d));
            assert(s.subrange(lo, hi) =~= d.subrange(0, 0));
        } else {
            let d = s.drop_first();
            assert(forall|i: int| 0 <= i < lo - 1 ==> is_space(#[trigger] d[i])) by {
                assert(forall|i: int| 0 <= i < d.len() ==> d[i] == s[i + 1]);
            }
            assert(forall|i: int| hi - 1 <= i < d.len() ==> is_space(#[trigger] d[i])) by {
                assert(forall|i: int| 0 <= i < d.len() ==> d[i] == s[i + 1]);
            }
            assert(d[lo - 1] == s[lo as int]);
            assert(d[hi - 2] == s[hi - 1]);
            lemma_trim_range(d, lo - 1, hi - 1);
            assert(s.subrange(lo, hi) =~= d.subrange(lo - 1, hi - 1));
        }
    } else if is_space(s.last()) {
        assert(hi < s.len() || lo == hi) by {
            if hi == s.len() && lo < hi {
                assert(!is_space(s[hi - 1]));
            }
        }
        let d = s.drop_last();
        assert(forall|i: int| 0 <= i < d.len() ==> d[i] == s[i]);
        if lo == hi {
            assert(forall|i: int| 0 <= i < d.len() ==> is_space(#[trigger] d[i])) by {
                assert(forall|i: int| 0 <= i < d.len() ==> d[i] == s[i]);
            }
            lemma_trim_range(d, 0, 0);
            assert(s.subrange(lo, hi) =~= d.subrange(0, 0));
        } else {
            assert(hi <= d.len());
            assert(forall|i: int| 0 <= i < lo ==> is_space(#[trigger] d[i]));
            assert(forall|i: int| hi <= i < d.len() ==> is_space(#[trigger] d[i]));
            lemma_trim_range(d, lo, hi);
            assert(s.subrange(lo, hi) =~= d.subrange(lo, hi));
        }
    } else {
        assert(lo == 0) by {
            if lo > 0 {
                assert(is_space(s[0]));
            }
        }
        assert(hi == s.len()) by {
            if hi < s.len() {
                assert(is_space(s[s.len() - 1]));
            }
        }
        assert(s.subrange(0, s.len() as int) =~= s);
    }
}

/// True when the byte is ASCII whitespace.
pub fn is_space_byte(b: u8) -> (r: bool)
    ensures
        r == is_space(b),
{
    b == 32 || b == 9 || b == 10 || b == 11 || b == 12 || b == 13
}

/// Removes leading and trailing ASCII whitespace.
pub fn trim_bytes(v: &[u8]) -> (r: Vec<u8>)
    ensures
        r@ == trim_spec(v@),
{
    let len = v.len();
    let mut lo: usize = 0;
    while lo < len && is_space_byte(v[lo])
        invariant
            lo <= len,
            len == v@.len(),
            forall|i: int| 0 <= i < lo ==> is_space(#[trigger] v@[i]),
        decreases len - lo,
    {
        lo += 1;
    }
    let mut hi: usize = len;
    while hi > lo && is_space_byte(v[hi - 1])
        invariant
            lo <= hi <= len,
            len == v@.len(),
            forall|i: int| hi <= i < len ==> is_space(#[trigger] v@[i]),
        decreases hi,
    {
        hi -= 1;
    }
    let mut out: Vec<u8> = Vec::new();
    let mut i: usize = lo;
    while i < hi
        invariant
            lo <= i <= hi <= len,
            len == v@.len(),
            out@ == v@.subrange(lo as int, i as int),
        decreases hi - i,
    {
        out.push(v[i]);
        i += 1;
        proof {
            assert(out@ =~= v@.subrange(lo as int, i as int));
        }
    }
    proof {
        lemma_trim_range(v@, lo as int, hi as int);
    }
    out
}

} // verus!
