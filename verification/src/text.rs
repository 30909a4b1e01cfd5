//! Character-level helpers over the views of strings: whitespace, digits,
//! substring search and splitting into words.

use vstd::prelude::*;

verus! {

/// The characters of `s`, in order.
pub fn chars_of(s: &str) -> (r: Vec<char>)
    ensures
        r@ == s@,
{
    let mut r: Vec<char> = Vec::new();
    for c in it: s.chars()
        invariant
            r@ == it.seq().take(it.index() as int),
    {
        r.push(c);
    }
    r
}

/// The Unicode `White_Space` property, which `char::is_whitespace`,
/// `str::trim` and `str::split_whitespace` of the standard library use.
pub open spec fn is_white(c: char) -> bool {
    let u = c as u32;
    ||| 0x09 <= u <= 0x0D
    ||| u == 0x20
    ||| u == 0x85
    ||| u == 0xA0
    ||| u == 0x1680
    ||| 0x2000 <= u <= 0x200A
    ||| u == 0x2028
    ||| u == 0x2029
    ||| u == 0x202F
    ||| u == 0x205F
    ||| u == 0x3000
}

/// Whether `c` has the Unicode `White_Space` property.
pub fn is_whitespace(c: char) -> (r: bool)
    ensures
        r == is_white(c),
{
    let u = c as u32;
    (0x09 <= u && u <= 0x0D) || u == 0x20 || u == 0x85 || u == 0xA0 || u == 0x1680 || (0x2000
        <= u && u <= 0x200A) || u == 0x2028 || u == 0x2029 || u == 0x202F || u == 0x205F || u
        == 0x3000
}

/// An ASCII decimal digit.
pub open spec fn is_digit(c: char) -> bool {
    48 <= (c as u32) <= 57
}

/// The value of the decimal numeral `d` (most significant digit first).
pub open spec fn digits_value(d: Seq<char>) -> int
    decreases d.len(),
{
    if d.len() == 0 {
        0
    } else {
        digits_value(d.drop_last()) * 10 + ((d.last() as u32) - 48)
    }
}

/// `p` occurs in `w` starting at index `k`.
pub open spec fn occurs_at(w: Seq<char>, p: Seq<char>, k: int) -> bool {
    0 <= k && k + p.len() <= w.len() && w.subrange(k, k + p.len()) == p
}

/// `p` occurs somewhere in `w` (what `str::find(p).is_some()` tests).
pub open spec fn contains(w: Seq<char>, p: Seq<char>) -> bool {
    exists|k: int| occurs_at(w, p, k)
}

/// Whether `p` occurs in `cs[lo..hi]`.
pub fn contains_in(cs: &Vec<char>, lo: usize, hi: usize, p: &Vec<char>) -> (r: bool)
    requires
        lo <= hi <= cs.len(),
    ensures
        r == contains(cs@.subrange(lo as int, hi as int), p@),
{
    let ghost w = cs@.subrange(lo as int, hi as int);
    let plen = p.len();
    if plen > hi - lo {
        assert forall|k: int| !occurs_at(w, p@, k) by {}
        return false;
    }
    if plen == 0 {
        assert(w.subrange(0, 0) =~= p@);
        assert(occurs_at(w, p@, 0));
        return true;
    }
    let last = hi - lo - plen;
    let mut k: usize = 0;
    while k <= last
        invariant
            w == cs@.subrange(lo as int, hi as int),
            lo <= hi <= cs.len(),
            plen == p@.len(),
            last + plen == hi - lo,
            plen > 0,
            k <= last + 1,
            forall|j: int| 0 <= j < k ==> !occurs_at(w, p@, j),
        decreases last + 1 - k,
    {
        let mut t: usize = 0;
        let mut same = true;
        while t < plen
            invariant
                w == cs@.subrange(lo as int, hi as int),
                lo <= hi <= cs.len(),
                plen == p@.len(),
                k <= last,
                last + plen == hi - lo,
                t <= plen,
                same ==> forall|u: int| 0 <= u < t ==> w[k + u] == p@[u],
                !same ==> !occurs_at(w, p@, k as int),
            decreases plen - t,
        {
            if cs[lo + k + t] != p[t] {
                same = false;
                assert(w.subrange(k as int, k + plen)[t as int] != p@[t as int]);
            }
            t = t + 1;
        }
        if same {
            assert(w.subrange(k as int, k + plen) =~= p@);
            assert(occurs_at(w, p@, k as int));
            return true;
        }
        k = k + 1;
    }
    assert forall|j: int| !occurs_at(w, p@, j) by {
        if occurs_at(w, p@, j) {
            assert(j <= last);
        }
    }
    false
}

/// Splitting `s` into words: the words completed so far and the word being
/// read (empty after whitespace).
pub open spec fn split_state(s: Seq<char>) -> (Seq<Seq<char>>, Seq<char>)
    decreases s.len(),
{
    if s.len() == 0 {
        (seq![], seq![])
    } else {
        let prev = split_state(s.drop_last());
        if is_white(s.last()) {
            if prev.1.len() > 0 {
                (prev.0.push(prev.1), seq![])
            } else {
                (prev.0, seq![])
            }
        } else {
            (prev.0, prev.1.push(s.last()))
        }
    }
}

/// The maximal runs of non-whitespace characters of `s`, in order (what
/// `str::split_whitespace` yields, with or without a `trim` before it).
pub open spec fn words(s: Seq<char>) -> Seq<Seq<char>> {
    let st = split_state(s);
    if st.1.len() > 0 {
        st.0.push(st.1)
    } else {
        st.0
    }
}

/// The words of `cs[lo..hi]`, as index ranges into `cs`.
pub fn split_words(cs: &Vec<char>, lo: usize, hi: usize) -> (r: Vec<(usize, usize)>)
    requires
        lo <= hi <= cs.len(),
    ensures
        r@.len() == words(cs@.subrange(lo as int, hi as int)).len(),
        forall|k: int|
            0 <= k < r@.len() ==> {
                &&& lo <= (#[trigger] r@[k]).0 <= r@[k].1 <= hi
                &&& cs@.subrange(r@[k].0 as int, r@[k].1 as int) == words(
                    cs@.subrange(lo as int, hi as int),
                )[k]
            },
{
    let mut done: Vec<(usize, usize)> = Vec::new();
    let mut start: usize = lo;
    let mut i: usize = lo;
    while i < hi
        invariant
            lo <= start <= i <= hi <= cs.len(),
            done@.len() == split_state(cs@.subrange(lo as int, i as int)).0.len(),
            forall|k: int|
                0 <= k < done@.len() ==> {
                    &&& lo <= (#[trigger] done@[k]).0 <= done@[k].1 <= i
                    &&& cs@.subrange(done@[k].0 as int, done@[k].1 as int) == split_state(
                        cs@.subrange(lo as int, i as int),
                    ).0[k]
                },
            cs@.subrange(start as int, i as int) == split_state(
                cs@.subrange(lo as int, i as int),
            ).1,
        decreases hi - i,
    {
        let ghost prev = split_state(cs@.subrange(lo as int, i as int));
        assert(cs@.subrange(lo as int, i + 1).drop_last() =~= cs@.subrange(lo as int, i as int));
        assert(cs@.subrange(lo as int, i + 1).last() == cs@[i as int]);
        if is_whitespace(cs[i]) {
            if start < i {
                done.push((start, i));
            }
            i = i + 1;
            start = i;
            assert(cs@.subrange(start as int, i as int) =~= seq![]);
        } else {
            assert(cs@.subrange(start as int, i + 1) =~= cs@.subrange(start as int, i as int).push(
                cs@[i as int],
            ));
            i = i + 1;
        }
    }
    let ghost st = split_state(cs@.subrange(lo as int, hi as int));
    if start < hi {
        done.push((start, hi));
    }
    done
}

/// Calls `std::str::from_utf8`: the bytes as a string slice when they are
/// valid UTF-8 (`None` otherwise), its characters being the decoding of the
/// bytes.
#[verifier::external_body]
pub(crate) fn utf8_str(v: &[u8]) -> (r: Option<&str>)
    ensures
        r is Some <==> vstd::utf8::valid_utf8(v@),
        r matches Some(s) ==> s@ == vstd::utf8::decode_utf8(v@),
{
    std::str::from_utf8(v).ok()
}

} // verus!
