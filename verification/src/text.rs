//! Character-level text processing with exact specifications: the pieces of
//! `str` handling (trimming, splitting, decimal and hexadecimal numbers) that
//! the parsers of this crate are built from.
use vstd::prelude::*;

verus! {

/// The Unicode `White_Space` property, which `str::trim` and
/// `str::split_whitespace` use.
pub open spec fn is_ws(c: char) -> bool {
    ||| ('\u{9}' <= c && c <= '\u{d}')
    ||| c == ' '
    ||| c == '\u{85}'
    ||| c == '\u{a0}'
    ||| c == '\u{1680}'
    ||| ('\u{2000}' <= c && c <= '\u{200a}')
    ||| c == '\u{2028}'
    ||| c == '\u{2029}'
    ||| c == '\u{202f}'
    ||| c == '\u{205f}'
    ||| c == '\u{3000}'
}

/// Executable counterpart of [`is_ws`].
pub fn char_is_whitespace(c: char) -> (r: bool)
    ensures
        r == is_ws(c),
{
    ('\u{9}' <= c && c <= '\u{d}') || c == ' ' || c == '\u{85}' || c == '\u{a0}' || c
        == '\u{1680}' || ('\u{2000}' <= c && c <= '\u{200a}') || c == '\u{2028}' || c
        == '\u{2029}' || c == '\u{202f}' || c == '\u{205f}' || c == '\u{3000}'
}

/// The characters of a string slice, in order.
pub fn chars_of(s: &str) -> (v: Vec<char>)
    ensures
        v@ == s@,
{
    let mut v: Vec<char> = Vec::new();
    for c in it: s.chars()
        invariant
            v@ == it.seq().take(it.index() as int),
            it.seq() == s@,
    {
        v.push(c);
    }
    v
}


/// `str::trim_start`: the text without its leading white space.
pub open spec fn trim_start_seq(s: Seq<char>) -> Seq<char>
    decreases s.len(),
{
    if s.len() > 0 && is_ws(s[0]) {
        trim_start_seq(s.drop_first())
    } else {
        s
    }
}

/// `str::trim_end`: the text without its trailing white space.
pub open spec fn trim_end_seq(s: Seq<char>) -> Seq<char>
    decreases s.len(),
{
    if s.len() > 0 && is_ws(s.last()) {
        trim_end_seq(s.drop_last())
    } else {
        s
    }
}

/// `str::trim`: the text without leading and trailing white space.
pub open spec fn trim_seq(s: Seq<char>) -> Seq<char> {
    trim_end_seq(trim_start_seq(s))
}

/// A span `[lo, hi)` of a character vector is well formed.
pub open spec fn span_ok(v: Seq<char>, lo: int, hi: int) -> bool {
    0 <= lo <= hi <= v.len()
}

/// Start of the span that remains after trimming leading white space.
pub fn trim_start_span(v: &Vec<char>, lo: usize, hi: usize) -> (a: usize)
    requires
        span_ok(v@, lo as int, hi as int),
    ensures
        lo <= a <= hi,
        v@.subrange(a as int, hi as int) == trim_start_seq(v@.subrange(lo as int, hi as int)),
{
    let mut i = lo;
    while i < hi && char_is_whitespace(v[i])
        invariant
            lo <= i <= hi,
            hi <= v.len(),
            trim_start_seq(v@.subrange(lo as int, hi as int)) == trim_start_seq(
                v@.subrange(i as int, hi as int),
            ),
        decreases hi - i,
    {
        assert(v@.subrange(i as int, hi as int).drop_first() =~= v@.subrange(
            i as int + 1,
            hi as int,
        ));
        i = i + 1;
    }
    i
}

/// End of the span that remains after trimming trailing white space.
pub fn trim_end_span(v: &Vec<char>, lo: usize, hi: usize) -> (b: usize)
    requires
        span_ok(v@, lo as int, hi as int),
    ensures
        lo <= b <= hi,
        v@.subrange(lo as int, b as int) == trim_end_seq(v@.subrange(lo as int, hi as int)),
{
    let mut j = hi;
    while j > lo && char_is_whitespace(v[j - 1])
        invariant
            lo <= j <= hi,
            hi <= v.len(),
            trim_end_seq(v@.subrange(lo as int, hi as int)) == trim_end_seq(
                v@.subrange(lo as int, j as int),
            ),
        decreases j - lo,
    {
        assert(v@.subrange(lo as int, j as int).drop_last() =~= v@.subrange(
            lo as int,
            j as int - 1,
        ));
        j = j - 1;
    }
    j
}

/// The span that remains after `str::trim`.
pub fn trim_span(v: &Vec<char>, lo: usize, hi: usize) -> (r: (usize, usize))
    requires
        span_ok(v@, lo as int, hi as int),
    ensures
        lo <= r.0 <= r.1 <= hi,
        v@.subrange(r.0 as int, r.1 as int) == trim_seq(v@.subrange(lo as int, hi as int)),
{
    let a = trim_start_span(v, lo, hi);
    let b = trim_end_span(v, a, hi);
    (a, b)
}

/// Calls `String::push`. Claimed of it: afterwards the string holds the
/// characters it held before, followed by `c`.
#[verifier::external_body]
pub(crate) fn push_char(s: &mut String, c: char)
    ensures
        final(s)@ == old(s)@.push(c),
{
    s.push(c)
}

/// Appends the characters of a span to a string.
pub fn push_span(out: &mut String, v: &Vec<char>, lo: usize, hi: usize)
    requires
        span_ok(v@, lo as int, hi as int),
    ensures
        final(out)@ == old(out)@ + v@.subrange(lo as int, hi as int),
{
    let mut i = lo;
    while i < hi
        invariant
            lo <= i <= hi,
            hi <= v.len(),
            out@ == old(out)@ + v@.subrange(lo as int, i as int),
        decreases hi - i,
    {
        push_char(out, v[i]);
        assert(v@.subrange(lo as int, i as int + 1) =~= v@.subrange(lo as int, i as int).push(
            v@[i as int],
        ));
        i = i + 1;
    }
}

/// A new string holding the characters of a span.
pub fn span_to_string(v: &Vec<char>, lo: usize, hi: usize) -> (s: String)
    requires
        span_ok(v@, lo as int, hi as int),
    ensures
        s@ == v@.subrange(lo as int, hi as int),
{
    let mut s = String::new();
    push_span(&mut s, v, lo, hi);
    s
}



/// `p` is a prefix of `s`.
pub open spec fn starts_with_seq(s: Seq<char>, p: Seq<char>) -> bool {
    p.len() <= s.len() && s.subrange(0, p.len() as int) == p
}

/// `p` is a suffix of `s`.
pub open spec fn ends_with_seq(s: Seq<char>, p: Seq<char>) -> bool {
    p.len() <= s.len() && s.subrange(s.len() - p.len(), s.len() as int) == p
}

/// `p` occurs in `s` at position `i`.
pub open spec fn occurs_at(s: Seq<char>, p: Seq<char>, i: int) -> bool {
    0 <= i && i + p.len() <= s.len() && s.subrange(i, i + p.len()) == p
}

/// `str::contains` with a string pattern.
pub open spec fn contains_seq(s: Seq<char>, p: Seq<char>) -> bool {
    exists|i: int| occurs_at(s, p, i)
}

/// `str::trim_end_matches` with a string pattern: every repeated suffix `p` removed.
pub open spec fn trim_end_matches_seq(s: Seq<char>, p: Seq<char>) -> Seq<char>
    decreases s.len(),
{
    if p.len() > 0 && ends_with_seq(s, p) {
        trim_end_matches_seq(s.subrange(0, s.len() - p.len()), p)
    } else {
        s
    }
}

/// `str::trim_start_matches` with a string pattern: every repeated prefix `p` removed.
pub open spec fn trim_start_matches_seq(s: Seq<char>, p: Seq<char>) -> Seq<char>
    decreases s.len(),
{
    if p.len() > 0 && starts_with_seq(s, p) {
        trim_start_matches_seq(s.subrange(p.len() as int, s.len() as int), p)
    } else {
        s
    }
}

/// `str::strip_prefix`: the rest after `p`, when `s` starts with `p`.
pub open spec fn strip_prefix_seq(s: Seq<char>, p: Seq<char>) -> Option<Seq<char>> {
    if starts_with_seq(s, p) {
        Some(s.subrange(p.len() as int, s.len() as int))
    } else {
        None
    }
}

/// Whether the pattern `p` occurs in `v` at position `i`.
pub fn match_at(v: &Vec<char>, i: usize, hi: usize, p: &Vec<char>) -> (r: bool)
    requires
        i <= hi <= v.len(),
    ensures
        r == occurs_at(v@.subrange(0, hi as int), p@, i as int),
{
    if p.len() > hi - i {
        return false;
    }
    let mut k: usize = 0;
    while k < p.len()
        invariant
            i + p.len() <= hi <= v.len(),
            k <= p.len(),
            forall|j: int| 0 <= j < k ==> v@[i + j] == p@[j],
        decreases p.len() - k,
    {
        if v[i + k] != p[k] {
            assert(v@.subrange(0, hi as int).subrange(i as int, i + p.len())[k as int] != p@[k as int]);
            return false;
        }
        k = k + 1;
    }
    assert(v@.subrange(0, hi as int).subrange(i as int, i + p.len()) =~= p@);
    true
}

/// Whether a span equals a pattern.
pub fn span_eq(v: &Vec<char>, lo: usize, hi: usize, p: &Vec<char>) -> (r: bool)
    requires
        span_ok(v@, lo as int, hi as int),
    ensures
        r == (v@.subrange(lo as int, hi as int) == p@),
{
    if hi - lo != p.len() {
        return false;
    }
    let r = match_at(v, lo, hi, p);
    assert(v@.subrange(0, hi as int).subrange(lo as int, hi as int) =~= v@.subrange(
        lo as int,
        hi as int,
    ));
    r
}

/// Whether a span starts with a pattern.
pub fn span_starts_with(v: &Vec<char>, lo: usize, hi: usize, p: &Vec<char>) -> (r: bool)
    requires
        span_ok(v@, lo as int, hi as int),
    ensures
        r == starts_with_seq(v@.subrange(lo as int, hi as int), p@),
{
    if p.len() > hi - lo {
        return false;
    }
    let r = match_at(v, lo, hi, p);
    assert(v@.subrange(0, hi as int).subrange(lo as int, lo + p.len()) =~= v@.subrange(
        lo as int,
        hi as int,
    ).subrange(0, p.len() as int));
    r
}

/// Whether a span ends with a pattern.
pub fn span_ends_with(v: &Vec<char>, lo: usize, hi: usize, p: &Vec<char>) -> (r: bool)
    requires
        span_ok(v@, lo as int, hi as int),
    ensures
        r == ends_with_seq(v@.subrange(lo as int, hi as int), p@),
{
    if p.len() > hi - lo {
        return false;
    }
    let start = hi - p.len();
    let r = match_at(v, start, hi, p);
    assert(v@.subrange(0, hi as int).subrange(start as int, hi as int) =~= v@.subrange(
        lo as int,
        hi as int,
    ).subrange(start - lo, hi - lo));
    r
}

/// Position of the first occurrence of a pattern inside a span, if any.
pub fn span_find(v: &Vec<char>, lo: usize, hi: usize, p: &Vec<char>) -> (r: Option<usize>)
    requires
        span_ok(v@, lo as int, hi as int),
    ensures
        match r {
            Some(i) => lo <= i && i + p.len() <= hi && occurs_at(
                v@.subrange(lo as int, hi as int),
                p@,
                i - lo,
            ) && forall|j: int| 0 <= j < i - lo ==> !occurs_at(v@.subrange(lo as int, hi as int), p@, j),
            None => !contains_seq(v@.subrange(lo as int, hi as int), p@),
        },
{
    let ghost s = v@.subrange(lo as int, hi as int);
    if p.len() == 0 {
        assert(s.subrange(0, 0) =~= p@);
        return Some(lo);
    }
    let mut i = lo;
    while p.len() <= hi - i
        invariant
            lo <= i <= hi,
            hi <= v.len(),
            p.len() > 0,
            s == v@.subrange(lo as int, hi as int),
            forall|j: int| 0 <= j < i - lo ==> !occurs_at(s, p@, j),
        decreases hi - i,
    {
        let m = match_at(v, i, hi, p);
        assert(v@.subrange(0, hi as int).subrange(i as int, i + p.len()) =~= s.subrange(
            i - lo,
            i - lo + p.len(),
        ));
        if m {
            return Some(i);
        }
        i = i + 1;
    }
    None
}

/// Whether a span contains a pattern.
pub fn span_contains(v: &Vec<char>, lo: usize, hi: usize, p: &Vec<char>) -> (r: bool)
    requires
        span_ok(v@, lo as int, hi as int),
    ensures
        r == contains_seq(v@.subrange(lo as int, hi as int), p@),
{
    match span_find(v, lo, hi, p) {
        Some(i) => {
            assert(occurs_at(v@.subrange(lo as int, hi as int), p@, i - lo));
            true
        },
        None => false,
    }
}

/// End of the span that remains after `str::trim_end_matches` with a pattern.
pub fn trim_end_matches_span(v: &Vec<char>, lo: usize, hi: usize, p: &Vec<char>) -> (b: usize)
    requires
        span_ok(v@, lo as int, hi as int),
    ensures
        lo <= b <= hi,
        v@.subrange(lo as int, b as int) == trim_end_matches_seq(
            v@.subrange(lo as int, hi as int),
            p@,
        ),
{
    if p.len() == 0 {
        return hi;
    }
    let mut j = hi;
    while span_ends_with(v, lo, j, p)
        invariant
            lo <= j <= hi,
            hi <= v.len(),
            p.len() > 0,
            trim_end_matches_seq(v@.subrange(lo as int, hi as int), p@) == trim_end_matches_seq(
                v@.subrange(lo as int, j as int),
                p@,
            ),
        decreases j - lo,
    {
        assert(v@.subrange(lo as int, j as int).subrange(0, j - lo - p.len()) =~= v@.subrange(
            lo as int,
            j - p.len(),
        ));
        j = j - p.len();
    }
    j
}

/// Start of the span that remains after `str::trim_start_matches` with a pattern.
pub fn trim_start_matches_span(v: &Vec<char>, lo: usize, hi: usize, p: &Vec<char>) -> (a: usize)
    requires
        span_ok(v@, lo as int, hi as int),
    ensures
        lo <= a <= hi,
        v@.subrange(a as int, hi as int) == trim_start_matches_seq(
            v@.subrange(lo as int, hi as int),
            p@,
        ),
{
    if p.len() == 0 {
        return lo;
    }
    let mut i = lo;
    while span_starts_with(v, i, hi, p)
        invariant
            lo <= i <= hi,
            hi <= v.len(),
            p.len() > 0,
            trim_start_matches_seq(v@.subrange(lo as int, hi as int), p@)
                == trim_start_matches_seq(v@.subrange(i as int, hi as int), p@),
        decreases hi - i,
    {
        assert(v@.subrange(i as int, hi as int).subrange(p.len() as int, hi - i) =~= v@.subrange(
            i + p.len(),
            hi as int,
        ));
        i = i + p.len();
    }
    i
}


/// `str::split` on a character: the pieces between separators, always at least one.
pub open spec fn split_seq(s: Seq<char>, c: char) -> Seq<Seq<char>>
    decreases s.len(),
{
    if s.len() == 0 {
        seq![Seq::<char>::empty()]
    } else {
        let prev = split_seq(s.drop_last(), c);
        if s.last() == c {
            prev.push(Seq::<char>::empty())
        } else {
            prev.update(prev.len() - 1, prev.last().push(s.last()))
        }
    }
}

/// Splitting always yields at least one piece.
pub proof fn lemma_split_nonempty(s: Seq<char>, c: char)
    ensures
        split_seq(s, c).len() >= 1,
    decreases s.len(),
{
    if s.len() > 0 {
        lemma_split_nonempty(s.drop_last(), c);
    }
}

/// The texts that a list of spans of `v` denote.
pub open spec fn spans_view(v: Seq<char>, sp: Seq<(usize, usize)>) -> Seq<Seq<char>> {
    sp.map_values(|p: (usize, usize)| v.subrange(p.0 as int, p.1 as int))
}

/// Every span of the list lies within `[lo, hi)` of `v`.
pub open spec fn spans_within(sp: Seq<(usize, usize)>, lo: int, hi: int) -> bool {
    forall|k: int| #![trigger sp[k]] 0 <= k < sp.len() ==> lo <= sp[k].0 <= sp[k].1 <= hi
}

/// The pieces of a span separated by the character `c`, as spans.
pub fn split_spans(v: &Vec<char>, lo: usize, hi: usize, c: char) -> (r: Vec<(usize, usize)>)
    requires
        span_ok(v@, lo as int, hi as int),
    ensures
        spans_within(r@, lo as int, hi as int),
        spans_view(v@, r@) == split_seq(v@.subrange(lo as int, hi as int), c),
{
    let mut out: Vec<(usize, usize)> = Vec::new();
    let mut start = lo;
    let mut i = lo;
    assert(v@.subrange(lo as int, lo as int) =~= Seq::<char>::empty());
    assert(spans_view(v@, out@).push(v@.subrange(start as int, i as int)) =~= seq![
        Seq::<char>::empty(),
    ]);
    while i < hi
        invariant
            lo <= start <= i <= hi,
            hi <= v.len(),
            spans_within(out@, lo as int, hi as int),
            spans_view(v@, out@).push(v@.subrange(start as int, i as int)) == split_seq(
                v@.subrange(lo as int, i as int),
                c,
            ),
        decreases hi - i,
    {
        let ghost prev = split_seq(v@.subrange(lo as int, i as int), c);
        assert(v@.subrange(lo as int, i + 1).drop_last() =~= v@.subrange(lo as int, i as int));
        assert(v@.subrange(lo as int, i + 1).last() == v@[i as int]);
        if v[i] == c {
            let ghost old_out = out@;
            out.push((start, i));
            assert(spans_view(v@, out@) =~= spans_view(v@, old_out).push(
                v@.subrange(start as int, i as int),
            ));
            assert(v@.subrange(i + 1, i + 1) =~= Seq::<char>::empty());
            start = i + 1;
        } else {
            assert(v@.subrange(start as int, i + 1) =~= v@.subrange(start as int, i as int).push(
                v@[i as int],
            ));
            assert(spans_view(v@, out@).push(v@.subrange(start as int, i + 1)) =~= prev.update(
                prev.len() - 1,
                prev.last().push(v@[i as int]),
            ));
        }
        i = i + 1;
    }
    let ghost before = out@;
    out.push((start, hi));
    assert(spans_view(v@, out@) =~= spans_view(v@, before).push(
        v@.subrange(start as int, hi as int),
    ));
    out
}

/// State of the scan behind `str::split_whitespace`: the finished tokens and
/// the token being read.
pub open spec fn ws_fold(s: Seq<char>) -> (Seq<Seq<char>>, Seq<char>)
    decreases s.len(),
{
    if s.len() == 0 {
        (Seq::<Seq<char>>::empty(), Seq::<char>::empty())
    } else {
        let (t, cur) = ws_fold(s.drop_last());
        if is_ws(s.last()) {
            if cur.len() > 0 {
                (t.push(cur), Seq::<char>::empty())
            } else {
                (t, Seq::<char>::empty())
            }
        } else {
            (t, cur.push(s.last()))
        }
    }
}

/// `str::split_whitespace`: the maximal runs of non white space characters.
pub open spec fn split_ws_seq(s: Seq<char>) -> Seq<Seq<char>> {
    let (t, cur) = ws_fold(s);
    if cur.len() > 0 {
        t.push(cur)
    } else {
        t
    }
}

/// The white space separated tokens of a span, as spans.
pub fn ws_token_spans(v: &Vec<char>, lo: usize, hi: usize) -> (r: Vec<(usize, usize)>)
    requires
        span_ok(v@, lo as int, hi as int),
    ensures
        spans_within(r@, lo as int, hi as int),
        spans_view(v@, r@) == split_ws_seq(v@.subrange(lo as int, hi as int)),
{
    let mut out: Vec<(usize, usize)> = Vec::new();
    let mut start = lo;
    let mut i = lo;
    assert(v@.subrange(lo as int, lo as int) =~= Seq::<char>::empty());
    while i < hi
        invariant
            lo <= start <= i <= hi,
            hi <= v.len(),
            spans_within(out@, lo as int, hi as int),
            ws_fold(v@.subrange(lo as int, i as int)) == (
                spans_view(v@, out@),
                v@.subrange(start as int, i as int),
            ),
        decreases hi - i,
    {
        assert(v@.subrange(lo as int, i + 1).drop_last() =~= v@.subrange(lo as int, i as int));
        assert(v@.subrange(lo as int, i + 1).last() == v@[i as int]);
        if char_is_whitespace(v[i]) {
            if start < i {
                let ghost old_out = out@;
                out.push((start, i));
                assert(spans_view(v@, out@) =~= spans_view(v@, old_out).push(
                    v@.subrange(start as int, i as int),
                ));
            }
            assert(v@.subrange(i + 1, i + 1) =~= Seq::<char>::empty());
            start = i + 1;
        } else {
            assert(v@.subrange(start as int, i + 1) =~= v@.subrange(start as int, i as int).push(
                v@[i as int],
            ));
        }
        i = i + 1;
    }
    if start < hi {
        let ghost before = out@;
        out.push((start, hi));
        assert(spans_view(v@, out@) =~= spans_view(v@, before).push(
            v@.subrange(start as int, hi as int),
        ));
    }
    out
}

/// `str::lines`: split at `\n`, drop the empty piece after a final `\n`, and
/// remove one `\r` before each `\n`.
pub open spec fn lines_seq(s: Seq<char>) -> Seq<Seq<char>> {
    let p = split_seq(s, '\n');
    let body = p.drop_last().map_values(|l: Seq<char>| strip_cr(l));
    if p.last().len() > 0 {
        body.push(p.last())
    } else {
        body
    }
}

/// One trailing `\r` removed, if present.
pub open spec fn strip_cr(l: Seq<char>) -> Seq<char> {
    if l.len() > 0 && l.last() == '\r' {
        l.drop_last()
    } else {
        l
    }
}

/// The lines of a span, as spans (see [`lines_seq`]).
pub fn line_spans(v: &Vec<char>, lo: usize, hi: usize) -> (r: Vec<(usize, usize)>)
    requires
        span_ok(v@, lo as int, hi as int),
    ensures
        spans_within(r@, lo as int, hi as int),
        spans_view(v@, r@) == lines_seq(v@.subrange(lo as int, hi as int)),
{
    let pieces = split_spans(v, lo, hi, '\n');
    let ghost p = split_seq(v@.subrange(lo as int, hi as int), '\n');
    proof {
        lemma_split_nonempty(v@.subrange(lo as int, hi as int), '\n');
    }
    let n = pieces.len();
    let mut out: Vec<(usize, usize)> = Vec::new();
    let mut k: usize = 0;
    while k + 1 < n
        invariant
            n == pieces.len(),
            n >= 1,
            k < n,
            hi <= v.len(),
            spans_within(pieces@, lo as int, hi as int),
            spans_within(out@, lo as int, hi as int),
            spans_view(v@, pieces@) == p,
            spans_view(v@, out@) == p.take(k as int).map_values(|l: Seq<char>| strip_cr(l)),
        decreases n - k,
    {
        let (a, b) = pieces[k];
        assert(spans_view(v@, pieces@)[k as int] == v@.subrange(a as int, b as int));
        let ghost old_out = out@;
        if a < b && v[b - 1] == '\r' {
            out.push((a, b - 1));
            assert(v@.subrange(a as int, b - 1) =~= v@.subrange(a as int, b as int).drop_last());
        } else {
            out.push((a, b));
        }
        assert(p.take(k + 1).map_values(|l: Seq<char>| strip_cr(l)) =~= p.take(k as int).map_values(
            |l: Seq<char>| strip_cr(l),
        ).push(strip_cr(p[k as int])));
        assert(spans_view(v@, out@) =~= spans_view(v@, old_out).push(strip_cr(p[k as int])));
        k = k + 1;
    }
    assert(p.take(k as int) =~= p.drop_last());
    let (a, b) = pieces[n - 1];
    assert(spans_view(v@, pieces@)[n - 1] == v@.subrange(a as int, b as int));
    if a < b {
        let ghost before = out@;
        out.push((a, b));
        assert(spans_view(v@, out@) =~= spans_view(v@, before).push(p.last()));
    }
    out
}


/// Position of the first occurrence of `c` in `s`.
pub open spec fn first_index(s: Seq<char>, c: char) -> Option<int>
    decreases s.len(),
{
    if s.len() == 0 {
        None
    } else {
        match first_index(s.drop_last(), c) {
            Some(i) => Some(i),
            None => if s.last() == c {
                Some(s.len() - 1)
            } else {
                None
            },
        }
    }
}

/// Position of the first occurrence of a character in a span.
pub fn find_char(v: &Vec<char>, lo: usize, hi: usize, c: char) -> (r: Option<usize>)
    requires
        span_ok(v@, lo as int, hi as int),
    ensures
        match r {
            Some(i) => lo <= i < hi && v@[i as int] == c && first_index(
                v@.subrange(lo as int, hi as int),
                c,
            ) == Some(i - lo),
            None => first_index(v@.subrange(lo as int, hi as int), c) is None,
        },
{
    let mut i = lo;
    assert(v@.subrange(lo as int, lo as int) =~= Seq::<char>::empty());
    while i < hi
        invariant
            lo <= i <= hi,
            hi <= v.len(),
            first_index(v@.subrange(lo as int, i as int), c) is None,
        decreases hi - i,
    {
        assert(v@.subrange(lo as int, i + 1).drop_last() =~= v@.subrange(lo as int, i as int));
        if v[i] == c {
            proof {
                assert(v@.subrange(lo as int, i + 1) =~= v@.subrange(lo as int, hi as int).take(i + 1 - lo));
                lemma_first_index_extend(v@.subrange(lo as int, i + 1), v@.subrange(lo as int, hi as int), c);
            }
            return Some(i);
        }
        i = i + 1;
    }
    None
}

/// The first occurrence in a prefix is the first occurrence in the whole.
pub proof fn lemma_first_index_extend(p: Seq<char>, s: Seq<char>, c: char)
    requires
        p.len() <= s.len(),
        p == s.take(p.len() as int),
        first_index(p, c) is Some,
    ensures
        first_index(s, c) == first_index(p, c),
    decreases s.len(),
{
    if s.len() > p.len() {
        assert(s.drop_last().take(p.len() as int) =~= p);
        lemma_first_index_extend(p, s.drop_last(), c);
    } else {
        assert(p =~= s);
    }
}

/// Characters equal in a literal: `a` and `b` hold the same text.
pub fn str_eq(a: &str, b: &str) -> (r: bool)
    ensures
        r == (a@ == b@),
{
    let av = chars_of(a);
    let bv = chars_of(b);
    let n = av.len();
    let r = span_eq(&av, 0, n, &bv);
    assert(av@.subrange(0, n as int) =~= a@);
    r
}

/// The text after the first `:`, trimmed.
pub open spec fn after_colon_seq(s: Seq<char>) -> Option<Seq<char>> {
    match first_index(s, ':') {
        Some(i) => Some(trim_seq(s.subrange(i + 1, s.len() as int))),
        None => None,
    }
}

/// The span after the first `:` of a span, trimmed.
pub fn after_colon_span(v: &Vec<char>, lo: usize, hi: usize) -> (r: Option<(usize, usize)>)
    requires
        span_ok(v@, lo as int, hi as int),
    ensures
        match r {
            Some(p) => lo <= p.0 <= p.1 <= hi && after_colon_seq(v@.subrange(lo as int, hi as int))
                == Some(v@.subrange(p.0 as int, p.1 as int)),
            None => after_colon_seq(v@.subrange(lo as int, hi as int)) is None,
        },
{
    match find_char(v, lo, hi, ':') {
        Some(i) => {
            let r = trim_span(v, i + 1, hi);
            assert(v@.subrange(lo as int, hi as int).subrange(i + 1 - lo, hi - lo) =~= v@.subrange(
                i + 1,
                hi as int,
            ));
            Some(r)
        },
        None => None,
    }
}


/// An owned copy of a string slice.
pub fn string_of(s: &str) -> (r: String)
    ensures
        r@ == s@,
{
    let v = chars_of(s);
    let n = v.len();
    assert(v@.subrange(0, n as int) =~= s@);
    span_to_string(&v, 0, n)
}


/// `str::replace` with a nonempty pattern: each occurrence of `p`, taken
/// from the left without overlap, replaced by `r`.
pub open spec fn replace_seq(s: Seq<char>, p: Seq<char>, r: Seq<char>) -> Seq<char>
    decreases s.len(),
{
    if p.len() == 0 || s.len() == 0 {
        s
    } else if starts_with_seq(s, p) {
        r + replace_seq(s.subrange(p.len() as int, s.len() as int), p, r)
    } else {
        seq![s[0]] + replace_seq(s.drop_first(), p, r)
    }
}

/// The number of times `c` occurs in `s`.
pub open spec fn count_char(s: Seq<char>, c: char) -> nat
    decreases s.len(),
{
    if s.len() == 0 {
        0
    } else {
        count_char(s.drop_last(), c) + if s.last() == c { 1nat } else { 0nat }
    }
}

/// `c` does not occur in `s`.
pub open spec fn lacks_char(s: Seq<char>, c: char) -> bool {
    forall|i: int| 0 <= i < s.len() ==> s[i] != c
}

/// Occurrences in a concatenation add up.
pub proof fn lemma_count_concat(a: Seq<char>, b: Seq<char>, c: char)
    ensures
        count_char(a + b, c) == count_char(a, c) + count_char(b, c),
    decreases b.len(),
{
    if b.len() == 0 {
        assert(a + b =~= a);
    } else {
        assert((a + b).drop_last() =~= a + b.drop_last());
        assert((a + b).last() == b.last());
        lemma_count_concat(a, b.drop_last(), c);
    }
}

/// A character that a text lacks occurs in it no time.
pub proof fn lemma_lacks_count(s: Seq<char>, c: char)
    requires
        lacks_char(s, c),
    ensures
        count_char(s, c) == 0,
    decreases s.len(),
{
    if s.len() > 0 {
        lemma_lacks_count(s.drop_last(), c);
    }
}

/// Replacing a pattern by a text, neither of which holds `c`, keeps the
/// number of `c` in the text replaced in.
pub proof fn lemma_replace_keeps_count(s: Seq<char>, p: Seq<char>, r: Seq<char>, c: char)
    requires
        lacks_char(p, c),
        lacks_char(r, c),
    ensures
        count_char(replace_seq(s, p, r), c) == count_char(s, c),
    decreases s.len(),
{
    if p.len() == 0 || s.len() == 0 {
    } else if starts_with_seq(s, p) {
        let rest = s.subrange(p.len() as int, s.len() as int);
        lemma_replace_keeps_count(rest, p, r, c);
        assert(s =~= p + rest);
        lemma_count_concat(p, rest, c);
        lemma_count_concat(r, replace_seq(rest, p, r), c);
        lemma_lacks_count(p, c);
        lemma_lacks_count(r, c);
    } else {
        lemma_replace_keeps_count(s.drop_first(), p, r, c);
        assert(s =~= seq![s[0]] + s.drop_first());
        lemma_count_concat(seq![s[0]], s.drop_first(), c);
        lemma_count_concat(seq![s[0]], replace_seq(s.drop_first(), p, r), c);
    }
}

/// A pattern that does not occur in a text is never replaced in it.
pub proof fn lemma_replace_not_found(s: Seq<char>, p: Seq<char>, r: Seq<char>)
    requires
        !contains_seq(s, p),
    ensures
        replace_seq(s, p, r) == s,
    decreases s.len(),
{
    if p.len() > 0 && s.len() > 0 {
        assert(!starts_with_seq(s, p)) by {
            if starts_with_seq(s, p) {
                assert(occurs_at(s, p, 0));
            }
        }
        let t = s.drop_first();
        assert(!contains_seq(t, p)) by {
            if contains_seq(t, p) {
                let i = choose|i: int| occurs_at(t, p, i);
                assert(s.subrange(i + 1, i + 1 + p.len()) =~= t.subrange(i, i + p.len()));
                assert(occurs_at(s, p, i + 1));
            }
        }
        lemma_replace_not_found(t, p, r);
        assert(s =~= seq![s[0]] + t);
    }
}

/// A copy of `s` with each occurrence of `p` replaced by `r`.
pub fn replace_all(s: &str, p: &str, r: &str) -> (out: String)
    requires
        p@.len() > 0,
    ensures
        out@ == replace_seq(s@, p@, r@),
{
    let v = chars_of(s);
    let pv = chars_of(p);
    let n = v.len();
    assert(v@.subrange(0, n as int) =~= v@);
    let mut out = String::new();
    let mut i: usize = 0;
    while i < n
        invariant
            i <= n,
            n == v@.len(),
            v@ == s@,
            pv@ == p@,
            pv@.len() > 0,
            out@ + replace_seq(v@.subrange(i as int, n as int), pv@, r@) == replace_seq(s@, p@, r@),
        decreases n - i,
    {
        let ghost t = v@.subrange(i as int, n as int);
        assert(v@.subrange(0, n as int) =~= v@);
        if match_at(&v, i, n, &pv) {
            assert(t.subrange(0, pv@.len() as int) =~= v@.subrange(i as int, i + pv@.len()));
            assert(starts_with_seq(t, pv@));
            assert(t.subrange(pv@.len() as int, t.len() as int) =~= v@.subrange(i + pv@.len(), n as int));
            let ghost before = out@;
            out.append(r);
            assert(before + (r@ + replace_seq(v@.subrange(i + pv@.len(), n as int), pv@, r@)) =~= out@
                + replace_seq(v@.subrange(i + pv@.len(), n as int), pv@, r@));
            i = i + pv.len();
        } else {
            assert(!starts_with_seq(t, pv@)) by {
                if starts_with_seq(t, pv@) {
                    assert(t.subrange(0, pv@.len() as int) =~= v@.subrange(i as int, i + pv@.len()));
                }
            }
            assert(t.drop_first() =~= v@.subrange(i + 1, n as int));
            let ghost before = out@;
            push_char(&mut out, v[i]);
            assert(before + (seq![v@[i as int]] + replace_seq(v@.subrange(i + 1, n as int), pv@, r@))
                =~= out@ + replace_seq(v@.subrange(i + 1, n as int), pv@, r@));
            i = i + 1;
        }
    }
    assert(v@.subrange(n as int, n as int) =~= Seq::<char>::empty());
    out
}


/// Before the first occurrence of `c` there is no `c`.
pub proof fn lemma_first_index_prefix(s: Seq<char>, c: char, e: int)
    requires
        first_index(s, c) == Some(e),
    ensures
        0 <= e < s.len(),
        s[e] == c,
        forall|i: int| 0 <= i < e ==> s[i] != c,
    decreases s.len(),
{
    if s.len() > 0 {
        match first_index(s.drop_last(), c) {
            Some(i) => {
                lemma_first_index_prefix(s.drop_last(), c, i);
                assert forall|k: int| 0 <= k < e implies s[k] != c by {
                    assert(s[k] == s.drop_last()[k]);
                }
                assert(s[e] == s.drop_last()[e]);
            },
            None => {
                lemma_first_index_none(s.drop_last(), c);
                assert forall|k: int| 0 <= k < e implies s[k] != c by {
                    assert(s[k] == s.drop_last()[k]);
                }
            },
        }
    }
}

/// Without an occurrence of `c`, no character is `c`.
pub proof fn lemma_first_index_none(s: Seq<char>, c: char)
    requires
        first_index(s, c) is None,
    ensures
        forall|i: int| 0 <= i < s.len() ==> s[i] != c,
    decreases s.len(),
{
    if s.len() > 0 {
        lemma_first_index_none(s.drop_last(), c);
        assert forall|k: int| 0 <= k < s.len() implies s[k] != c by {
            if k < s.len() - 1 {
                assert(s[k] == s.drop_last()[k]);
            }
        }
    }
}


/// The value of a `key : value` line: the trimmed text between the first
/// and the second `:`.
pub open spec fn field_value(line: Seq<char>) -> Option<Seq<char>> {
    let p = split_seq(line, ':');
    if p.len() > 1 {
        Some(trim_seq(p[1]))
    } else {
        None
    }
}

/// The span of the value of a `key : value` line (see [`field_value`]).
pub fn field_span(v: &Vec<char>, lo: usize, hi: usize) -> (r: Option<(usize, usize)>)
    requires
        lo <= hi <= v@.len(),
    ensures
        match r {
            Some(p) => lo <= p.0 <= p.1 <= hi && field_value(v@.subrange(lo as int, hi as int))
                == Some(v@.subrange(p.0 as int, p.1 as int)),
            None => field_value(v@.subrange(lo as int, hi as int)) is None,
        },
{
    let parts = split_spans(v, lo, hi, ':');
    if parts.len() > 1 {
        let (a, b) = parts[1];
        assert(spans_view(v@, parts@)[1] == v@.subrange(a as int, b as int));
        let r = trim_span(v, a, b);
        Some(r)
    } else {
        None
    }
}


/// Without a `c` in `s`, `c` has no first occurrence.
pub proof fn lemma_first_index_absent(s: Seq<char>, c: char)
    requires
        forall|i: int| 0 <= i < s.len() ==> s[i] != c,
    ensures
        first_index(s, c) is None,
    decreases s.len(),
{
    if s.len() > 0 {
        lemma_first_index_absent(s.drop_last(), c);
    }
}

/// A `c` at `e` with none before it is the first occurrence.
pub proof fn lemma_first_index_at(s: Seq<char>, c: char, e: int)
    requires
        0 <= e < s.len(),
        s[e] == c,
        forall|i: int| 0 <= i < e ==> s[i] != c,
    ensures
        first_index(s, c) == Some(e),
{
    let p = s.take(e + 1);
    assert(p.drop_last() =~= s.take(e));
    lemma_first_index_absent(s.take(e), c);
    assert(first_index(p, c) == Some(e));
    lemma_first_index_extend(p, s, c);
}


/// Whether a text, trimmed, is `word`.
pub fn trimmed_eq(text: &str, word: &str) -> (r: bool)
    ensures
        r == (trim_seq(text@) == word@),
{
    let v = chars_of(text);
    let w = chars_of(word);
    let n = v.len();
    assert(v@.subrange(0, n as int) =~= v@);
    let (a, b) = trim_span(&v, 0, n);
    if b - a != w.len() {
        return false;
    }
    let mut k: usize = 0;
    while k < w.len()
        invariant
            b - a == w.len(),
            a <= b <= v.len(),
            v@.subrange(a as int, b as int) == trim_seq(text@),
            w@ == word@,
            k <= w.len(),
            forall|q: int| 0 <= q < k ==> v@[a + q] == w@[q],
        decreases w.len() - k,
    {
        if v[a + k] != w[k] {
            assert(v@.subrange(a as int, b as int)[k as int] == v@[a + k]);
            return false;
        }
        k = k + 1;
    }
    assert(v@.subrange(a as int, b as int) =~= w@);
    true
}

} // verus!
