//! Byte-string primitives: substring search and literal replace-all, the two
//! operations the rule engine needs on paths and file contents.

use vstd::prelude::*;

verus! {

/// `needle` occurs in `hay` starting at position `i`.
pub open spec fn is_match_at(hay: Seq<u8>, needle: Seq<u8>, i: int) -> bool {
    0 <= i && i + needle.len() <= hay.len() && hay.subrange(i, i + needle.len()) == needle
}

/// `needle` occurs somewhere in `hay`; an empty needle occurs everywhere.
pub open spec fn contains_sub(hay: Seq<u8>, needle: Seq<u8>) -> bool {
    exists|i: int| is_match_at(hay, needle, i)
}

/// Leftmost, non-overlapping replacement of every occurrence of `pat` in `s`
/// by `rep`. An empty pattern matches at every boundary, so `rep` lands
/// before every byte and once more at the end.
pub open spec fn replaced(s: Seq<u8>, pat: Seq<u8>, rep: Seq<u8>) -> Seq<u8>
    decreases s.len(),
{
    if pat.len() == 0 {
        if s.len() == 0 {
            rep
        } else {
            rep + seq![s[0]] + replaced(s.skip(1), pat, rep)
        }
    } else if s.len() < pat.len() {
        s
    } else if s.take(pat.len() as int) == pat {
        rep + replaced(s.skip(pat.len() as int), pat, rep)
    } else {
        seq![s[0]] + replaced(s.skip(1), pat, rep)
    }
}

/// Pushes a copy of every byte of `src` onto `out`.
pub fn append_bytes(out: &mut Vec<u8>, src: &Vec<u8>)
    ensures
        final(out)@ == old(out)@ + src@,
{
    let ghost out0 = old(out)@;
    let m = src.len();
    let mut j: usize = 0;
    proof {
        assert(out0 + src@.take(0) =~= out0);
    }
    while j < m
        invariant
            m == src@.len(),
            0 <= j <= m,
            out@ == out0 + src@.take(j as int),
        decreases m - j,
    {
        out.push(src[j]);
        proof {
            assert(out0 + src@.take(j + 1) =~= (out0 + src@.take(j as int)).push(src@[j as int]));
        }
        j += 1;
    }
    proof {
        assert(src@.take(m as int) =~= src@);
    }
}

/// A fresh vector with the same bytes as `src`.
pub fn copy_bytes(src: &Vec<u8>) -> (r: Vec<u8>)
    ensures
        r@ == src@,
{
    let mut out: Vec<u8> = Vec::new();
    append_bytes(&mut out, src);
    proof {
        assert(Seq::<u8>::empty() + src@ =~= src@);
    }
    out
}

/// Byte-for-byte equality of two vectors.
pub fn bytes_eq(a: &Vec<u8>, b: &Vec<u8>) -> (r: bool)
    ensures
        r == (a@ == b@),
{
    if a.len() != b.len() {
        return false;
    }
    let n = a.len();
    let mut j: usize = 0;
    while j < n
        invariant
            n == a@.len(),
            n == b@.len(),
            0 <= j <= n,
            forall|k: int| 0 <= k < j ==> a@[k] == b@[k],
        decreases n - j,
    {
        if a[j] != b[j] {
            return false;
        }
        j += 1;
    }
    proof {
        assert(a@ =~= b@);
    }
    true
}

/// Whether `needle` occurs in `hay` at position `i`, by byte comparison.
fn match_at(hay: &Vec<u8>, needle: &Vec<u8>, i: usize) -> (b: bool)
    requires
        i + needle@.len() <= hay@.len(),
    ensures
        b == (hay@.subrange(i as int, i + needle@.len()) == needle@),
{
    let n = needle.len();
    let h = hay.len();
    let mut j: usize = 0;
    while j < n
        invariant
            n == needle@.len(),
            h == hay@.len(),
            i + n <= h,
            0 <= j <= n,
            forall|k: int| 0 <= k < j ==> hay@[i + k] == needle@[k],
        decreases n - j,
    {
        if hay[i + j] != needle[j] {
            assert(hay@.subrange(i as int, i + needle@.len())[j as int] != needle@[j as int]);
            return false;
        }
        j += 1;
    }
    proof {
        assert(hay@.subrange(i as int, i + needle@.len()) =~= needle@);
    }
    true
}

/// Substring search, the scope test of the rule engine.
pub fn contains_substr(hay: &Vec<u8>, needle: &Vec<u8>) -> (b: bool)
    ensures
        b == contains_sub(hay@, needle@),
{
    let n = needle.len();
    let h = hay.len();
    if n == 0 {
        proof {
            assert(hay@.subrange(0, 0) =~= needle@);
            assert(is_match_at(hay@, needle@, 0));
        }
        return true;
    }
    if n > h {
        return false;
    }
    let last = h - n;
    let mut i: usize = 0;
    while i <= last
        invariant
            n == needle@.len(),
            h == hay@.len(),
            1 <= n <= h,
            last == h - n,
            0 <= i <= last + 1,
            forall|k: int| 0 <= k < i ==> !is_match_at(hay@, needle@, k),
        decreases last + 1 - i,
    {
        if match_at(hay, needle, i) {
            assert(is_match_at(hay@, needle@, i as int));
            return true;
        }
        i += 1;
    }
    assert forall|k: int| !is_match_at(hay@, needle@, k) by {
        if 0 <= k < i {
            assert(!is_match_at(hay@, needle@, k));
        }
    }
    false
}

/// Literal replace-all over bytes, proved against `replaced`.
pub fn replace_all(s: &Vec<u8>, pat: &Vec<u8>, rep: &Vec<u8>) -> (r: Vec<u8>)
    ensures
        r@ == replaced(s@, pat@, rep@),
{
    let mut out: Vec<u8> = Vec::new();
    let n = s.len();
    let plen = pat.len();
    let mut i: usize = 0;
    proof {
        assert(s@.skip(0) =~= s@);
        assert(Seq::<u8>::empty() + replaced(s@, pat@, rep@) =~= replaced(s@, pat@, rep@));
    }
    if plen == 0 {
        while i < n
            invariant
                n == s@.len(),
                pat@.len() == 0,
                0 <= i <= n,
                replaced(s@, pat@, rep@) == out@ + replaced(s@.skip(i as int), pat@, rep@),
            decreases n - i,
        {
            let ghost out0 = out@;
            append_bytes(&mut out, rep);
            out.push(s[i]);
            proof {
                let tail = s@.skip(i as int);
                assert(tail[0] == s@[i as int]);
                assert(tail.skip(1) =~= s@.skip(i + 1));
                assert(replaced(tail, pat@, rep@) == rep@ + seq![s@[i as int]] + replaced(
                    s@.skip(i + 1),
                    pat@,
                    rep@,
                ));
                assert(out@ + replaced(s@.skip(i + 1), pat@, rep@) =~= out0 + replaced(
                    tail,
                    pat@,
                    rep@,
                ));
            }
            i += 1;
        }
        append_bytes(&mut out, rep);
        proof {
            assert(s@.skip(n as int) =~= Seq::<u8>::empty());
        }
        return out;
    }
    while i < n
        invariant
            n == s@.len(),
            plen == pat@.len(),
            plen >= 1,
            0 <= i <= n,
            replaced(s@, pat@, rep@) == out@ + replaced(s@.skip(i as int), pat@, rep@),
        decreases n - i,
    {
        let ghost tail = s@.skip(i as int);
        let ghost out0 = out@;
        if plen <= n - i && match_at(s, pat, i) {
            append_bytes(&mut out, rep);
            proof {
                assert(tail.take(plen as int) =~= s@.subrange(i as int, i + plen));
                assert(tail.skip(plen as int) =~= s@.skip(i + plen));
                assert(replaced(tail, pat@, rep@) == rep@ + replaced(s@.skip(i + plen), pat@, rep@));
                assert(out@ + replaced(s@.skip(i + plen), pat@, rep@) =~= out0 + replaced(
                    tail,
                    pat@,
                    rep@,
                ));
            }
            i += plen;
        } else {
            out.push(s[i]);
            proof {
                if plen <= n - i {
                    assert(tail.take(plen as int) =~= s@.subrange(i as int, i + plen));
                    assert(tail.take(plen as int) != pat@);
                    assert(replaced(tail, pat@, rep@) == seq![tail[0]] + replaced(
                        tail.skip(1),
                        pat@,
                        rep@,
                    ));
                } else {
                    assert(tail.len() < pat@.len());
                    assert(replaced(tail, pat@, rep@) == tail);
                    assert(tail =~= seq![tail[0]] + tail.skip(1));
                    assert(replaced(tail.skip(1), pat@, rep@) == tail.skip(1));
                }
                assert(tail[0] == s@[i as int]);
                assert(tail.skip(1) =~= s@.skip(i + 1));
                assert(out@ + replaced(s@.skip(i + 1), pat@, rep@) =~= out0 + replaced(
                    tail,
                    pat@,
                    rep@,
                ));
            }
            i += 1;
        }
    }
    proof {
        assert(s@.skip(n as int) =~= Seq::<u8>::empty());
    }
    out
}

} // verus!
