//! Character-level helpers: white space, fields between separators, trimming.
//!
//! A string is read once into a vector of characters; fields and trimmed
//! pieces are then described by [`Span`]s into that vector, so that no piece
//! is copied before it is known to be needed.
use vstd::prelude::*;

verus! {

/// Whether `c` is one of the characters that Unicode classes as white space.
pub open spec fn is_space(c: char) -> bool {
    let n = c as u32;
    (0x09 <= n <= 0x0D) || n == 0x20 || n == 0x85 || n == 0xA0 || n == 0x1680 || (0x2000 <= n
        <= 0x200A) || n == 0x2028 || n == 0x2029 || n == 0x202F || n == 0x205F || n == 0x3000
}

/// Executable form of [`is_space`].
pub fn is_white_space(c: char) -> (r: bool)
    ensures
        r == is_space(c),
{
    let n: u32 = c as u32;
    (0x09 <= n && n <= 0x0D) || n == 0x20 || n == 0x85 || n == 0xA0 || n == 0x1680 || (0x2000 <= n
        && n <= 0x200A) || n == 0x2028 || n == 0x2029 || n == 0x202F || n == 0x205F || n == 0x3000
}

/// The characters of `s`, in order.
pub fn chars_of(s: &str) -> (v: Vec<char>)
    ensures
        v@ == s@,
{
    let mut v: Vec<char> = Vec::new();
    for c in it: s.chars()
        invariant
            it.seq() == s@,
            v@ == it.seq().take(it.index()),
    {
        v.push(c);
    }
    v
}

/// A half-open range of positions in a sequence of characters.
#[derive(Clone, Copy, Debug, PartialEq, Eq)]
pub struct Span {
    pub start: usize,
    pub end: usize,
}

impl Span {
    /// The span lies inside a sequence of `len` characters.
    pub open spec fn within(self, len: nat) -> bool {
        self.start <= self.end <= len
    }

    /// The characters of `s` that the span covers.
    pub open spec fn of(self, s: Seq<char>) -> Seq<char> {
        s.subrange(self.start as int, self.end as int)
    }
}

/// The pieces of `s` that `spans` cover, one for each span.
pub open spec fn pieces(spans: Seq<Span>, s: Seq<char>) -> Seq<Seq<char>> {
    Seq::new(spans.len(), |i: int| spans[i].of(s))
}

/// The position of the first character of `s` that occurs in `seps`, or the
/// length of `s` where there is none.
pub open spec fn first_sep(s: Seq<char>, seps: Seq<char>) -> int
    decreases s.len(),
{
    if s.len() == 0 || seps.contains(s[0]) {
        0
    } else {
        1 + first_sep(s.drop_first(), seps)
    }
}

/// The fields of `s` between separators: always at least one field, and one
/// more than there are separators in `s`. Empty fields are kept.
pub open spec fn split(s: Seq<char>, seps: Seq<char>) -> Seq<Seq<char>>
    decreases s.len(),
{
    let k = first_sep(s, seps);
    if 0 <= k < s.len() {
        seq![s.take(k)] + split(s.skip(k + 1), seps)
    } else {
        seq![s]
    }
}

/// `s` without the white space at its start.
pub open spec fn trim_start(s: Seq<char>) -> Seq<char>
    decreases s.len(),
{
    if s.len() > 0 && is_space(s[0]) {
        trim_start(s.drop_first())
    } else {
        s
    }
}

/// `s` without the white space at its end.
pub open spec fn trim_end(s: Seq<char>) -> Seq<char>
    decreases s.len(),
{
    if s.len() > 0 && is_space(s.last()) {
        trim_end(s.drop_last())
    } else {
        s
    }
}

/// `s` without the white space at either end.
pub open spec fn trim(s: Seq<char>) -> Seq<char> {
    trim_end(trim_start(s))
}

/// `first_sep` is the one position before which no separator stands and at
/// which one does, unless it is the end.
pub proof fn lemma_first_sep(s: Seq<char>, seps: Seq<char>, k: int)
    requires
        0 <= k <= s.len(),
        forall|j: int| 0 <= j < k ==> !seps.contains(#[trigger] s[j]),
        k < s.len() ==> seps.contains(s[k]),
    ensures
        first_sep(s, seps) == k,
    decreases s.len(),
{
    if k > 0 {
        let t = s.drop_first();
        assert(!seps.contains(s[0]));
        assert forall|j: int| 0 <= j < k - 1 implies !seps.contains(#[trigger] t[j]) by {
            assert(t[j] == s[j + 1]);
        }
        lemma_first_sep(t, seps, k - 1);
    }
}

/// Whether `c` occurs in `seps`.
pub fn is_one_of(c: char, seps: &Vec<char>) -> (r: bool)
    ensures
        r == seps@.contains(c),
{
    let mut i: usize = 0;
    while i < seps.len()
        invariant
            i <= seps.len(),
            forall|j: int| 0 <= j < i ==> seps@[j] != c,
        decreases seps.len() - i,
    {
        if seps[i] == c {
            return true;
        }
        i += 1;
    }
    false
}

/// The position of the first separator in `span`, or the span's end.
pub fn find_sep(v: &Vec<char>, span: Span, seps: &Vec<char>) -> (k: usize)
    requires
        span.within(v@.len()),
    ensures
        span.start <= k <= span.end,
        k - span.start == first_sep(span.of(v@), seps@),
{
    let mut k: usize = span.start;
    while k < span.end && !is_one_of(v[k], seps)
        invariant
            span.within(v@.len()),
            span.start <= k <= span.end,
            forall|j: int| span.start <= j < k ==> !seps@.contains(#[trigger] v@[j]),
        decreases span.end - k,
    {
        k += 1;
    }
    proof {
        let s = span.of(v@);
        if k < span.end {
            assert(s[k - span.start] == v@[k as int]);
        }
        assert forall|j: int| 0 <= j < k - span.start implies !seps@.contains(#[trigger] s[j]) by {
            assert(s[j] == v@[span.start + j]);
        }
        lemma_first_sep(s, seps@, k - span.start);
    }
    k
}

/// The fields of `span` between separators, as spans of the same vector.
pub fn split_spans(v: &Vec<char>, span: Span, seps: &Vec<char>) -> (r: Vec<Span>)
    requires
        span.within(v@.len()),
    ensures
        pieces(r@, v@) == split(span.of(v@), seps@),
        forall|i: int| 0 <= i < r@.len() ==> (#[trigger] r@[i]).within(v@.len()),
{
    let mut out: Vec<Span> = Vec::new();
    let mut pos: usize = span.start;
    let mut done = false;
    while !done
        invariant
            span.within(v@.len()),
            span.start <= pos <= span.end,
            forall|i: int| 0 <= i < out@.len() ==> (#[trigger] out@[i]).within(v@.len()),
            !done ==> split(span.of(v@), seps@) == pieces(out@, v@) + split(
                v@.subrange(pos as int, span.end as int),
                seps@,
            ),
            done ==> split(span.of(v@), seps@) == pieces(out@, v@),
        decreases span.end - pos + (if done { 0int } else { 1int }),
    {
        let rest = Span { start: pos, end: span.end };
        let k = find_sep(v, rest, seps);
        let field = Span { start: pos, end: k };
        proof {
            let r = rest.of(v@);
            let before = pieces(out@, v@);
            let after = pieces(out@.push(field), v@);
            assert(after =~= before + seq![field.of(v@)]);
            if k < span.end {
                assert(r.take(k - pos) =~= field.of(v@));
                assert(r.skip(k - pos + 1) =~= v@.subrange(k + 1, span.end as int));
                assert(before + (seq![field.of(v@)] + split(r.skip(k - pos + 1), seps@)) =~= (before
                    + seq![field.of(v@)]) + split(r.skip(k - pos + 1), seps@));
            } else {
                assert(r =~= field.of(v@));
            }
        }
        out.push(field);
        if k < span.end {
            pos = k + 1;
        } else {
            done = true;
        }
    }
    out
}

/// The part of `span` that is left when the white space at either end is
/// taken away.
pub fn trim_span(v: &Vec<char>, span: Span) -> (r: Span)
    requires
        span.within(v@.len()),
    ensures
        r.within(v@.len()),
        span.start <= r.start,
        r.end <= span.end,
        r.of(v@) == trim(span.of(v@)),
{
    let mut lo: usize = span.start;
    while lo < span.end && is_white_space(v[lo])
        invariant
            span.within(v@.len()),
            span.start <= lo <= span.end,
            trim_start(span.of(v@)) == trim_start(v@.subrange(lo as int, span.end as int)),
        decreases span.end - lo,
    {
        proof {
            let s = v@.subrange(lo as int, span.end as int);
            assert(s[0] == v@[lo as int]);
            assert(s.drop_first() =~= v@.subrange(lo + 1, span.end as int));
        }
        lo += 1;
    }
    proof {
        let s = v@.subrange(lo as int, span.end as int);
        if lo < span.end {
            assert(s[0] == v@[lo as int]);
        }
        assert(trim_start(s) == s);
    }
    let mut hi: usize = span.end;
    while lo < hi && is_white_space(v[hi - 1])
        invariant
            span.within(v@.len()),
            lo <= hi <= span.end,
            trim(span.of(v@)) == trim_end(v@.subrange(lo as int, hi as int)),
        decreases hi - lo,
    {
        proof {
            let s = v@.subrange(lo as int, hi as int);
            assert(s.last() == v@[hi - 1]);
            assert(s.drop_last() =~= v@.subrange(lo as int, hi - 1));
        }
        hi -= 1;
    }
    proof {
        let s = v@.subrange(lo as int, hi as int);
        if lo < hi {
            assert(s.last() == v@[hi - 1]);
        }
        assert(trim_end(s) == s);
    }
    Span { start: lo, end: hi }
}

} // verus!
