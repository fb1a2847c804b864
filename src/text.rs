//! Text model of the bridge tool's output: lines, whitespace-separated
//! words and substring search, over sequences of characters.
use vstd::prelude::*;

verus! {

/// Whitespace as `char::is_whitespace` defines it (Unicode `White_Space`).
pub open spec fn is_ws(c: char) -> bool {
    c == '\t' || c == '\n' || c == '\u{0B}' || c == '\u{0C}' || c == '\r' || c == ' '
        || c == '\u{85}' || c == '\u{A0}' || c == '\u{1680}'
        || ('\u{2000}' <= c && c <= '\u{200A}')
        || c == '\u{2028}' || c == '\u{2029}' || c == '\u{202F}' || c == '\u{205F}'
        || c == '\u{3000}'
}

pub fn is_whitespace(c: char) -> (r: bool)
    ensures
        r == is_ws(c),
{
    c == '\t' || c == '\n' || c == '\u{0B}' || c == '\u{0C}' || c == '\r' || c == ' '
        || c == '\u{85}' || c == '\u{A0}' || c == '\u{1680}'
        || ('\u{2000}' <= c && c <= '\u{200A}')
        || c == '\u{2028}' || c == '\u{2029}' || c == '\u{202F}' || c == '\u{205F}'
        || c == '\u{3000}'
}

/// A line without the `'\r'` of a `"\r\n"` ending.
pub open spec fn strip_cr(l: Seq<char>) -> Seq<char> {
    if l.len() > 0 && l.last() == '\r' {
        l.drop_last()
    } else {
        l
    }
}

/// The lines of `s` as `str::lines` yields them, where `cur` is the part of
/// the current line already read: a line ends at `'\n'` (with a `'\r'`
/// before it dropped), and an empty piece after the last `'\n'` is no line.
pub open spec fn split_lines(s: Seq<char>, cur: Seq<char>) -> Seq<Seq<char>>
    decreases s.len(),
{
    if s.len() == 0 {
        if cur.len() == 0 {
            Seq::empty()
        } else {
            seq![cur]
        }
    } else if s[0] == '\n' {
        seq![strip_cr(cur)] + split_lines(s.drop_first(), Seq::empty())
    } else {
        split_lines(s.drop_first(), cur.push(s[0]))
    }
}

pub open spec fn lines_of(s: Seq<char>) -> Seq<Seq<char>> {
    split_lines(s, Seq::empty())
}

/// The words of `s` as `str::split_whitespace` yields them: the maximal
/// non-empty runs of non-whitespace characters, where `cur` is the part of
/// the current word already read.
pub open spec fn split_words(s: Seq<char>, cur: Seq<char>) -> Seq<Seq<char>>
    decreases s.len(),
{
    if s.len() == 0 {
        if cur.len() == 0 {
            Seq::empty()
        } else {
            seq![cur]
        }
    } else if is_ws(s[0]) {
        if cur.len() == 0 {
            split_words(s.drop_first(), Seq::empty())
        } else {
            seq![cur] + split_words(s.drop_first(), Seq::empty())
        }
    } else {
        split_words(s.drop_first(), cur.push(s[0]))
    }
}

pub open spec fn words_of(s: Seq<char>) -> Seq<Seq<char>> {
    split_words(s, Seq::empty())
}

/// `p` occurs in `s` as a contiguous part.
pub open spec fn contains(s: Seq<char>, p: Seq<char>) -> bool {
    exists|k: int| 0 <= k && k + p.len() <= s.len() && #[trigger] s.subrange(k, k + p.len()) == p
}

/// The pieces of `cs` that `spans` marks, each as `(start, end)`.
pub open spec fn spans_view(cs: Seq<char>, spans: Seq<(usize, usize)>) -> Seq<Seq<char>> {
    spans.map_values(|p: (usize, usize)| cs.subrange(p.0 as int, p.1 as int))
}

pub open spec fn spans_within(spans: Seq<(usize, usize)>, lo: int, hi: int) -> bool {
    forall|k: int| 0 <= k < spans.len() ==> lo <= #[trigger] spans[k].0 <= spans[k].1 <= hi
}

proof fn lemma_spans_push(cs: Seq<char>, spans: Seq<(usize, usize)>, p: (usize, usize))
    ensures
        spans_view(cs, spans.push(p)) == spans_view(cs, spans).push(
            cs.subrange(p.0 as int, p.1 as int),
        ),
{
    assert(spans_view(cs, spans.push(p)) =~= spans_view(cs, spans).push(
        cs.subrange(p.0 as int, p.1 as int),
    ));
}

/// The characters of `s`, one by one.
pub fn chars_of(s: &str) -> (r: Vec<char>)
    ensures
        r@ == s@,
{
    let mut r: Vec<char> = Vec::new();
    for c in it: s.chars()
        invariant
            r@ == it.seq().take(it.index() as int),
    {
        r.push(c);
    }
    r
}

/// The lines of `cs` (see `lines_of`), as spans into `cs`.
pub fn line_spans(cs: &Vec<char>) -> (r: Vec<(usize, usize)>)
    ensures
        spans_within(r@, 0, cs@.len() as int),
        spans_view(cs@, r@) == lines_of(cs@),
{
    let mut r: Vec<(usize, usize)> = Vec::new();
    let mut start: usize = 0;
    let mut i: usize = 0;
    assert(cs@.skip(0) =~= cs@);
    assert(cs@.subrange(0, 0) =~= Seq::<char>::empty());
    while i < cs.len()
        invariant
            start <= i <= cs.len(),
            spans_within(r@, 0, cs@.len() as int),
            spans_view(cs@, r@) + split_lines(cs@.skip(i as int), cs@.subrange(start as int, i as int))
                == lines_of(cs@),
        decreases cs.len() - i,
    {
        let ghost t = cs@.skip(i as int);
        assert(t.drop_first() =~= cs@.skip(i + 1));
        assert(t[0] == cs@[i as int]);
        if cs[i] == '\n' {
            let end: usize = if i > start && cs[i - 1] == '\r' {
                i - 1
            } else {
                i
            };
            proof {
                let cur = cs@.subrange(start as int, i as int);
                assert(strip_cr(cur) =~= cs@.subrange(start as int, end as int));
                lemma_spans_push(cs@, r@, (start, end));
                assert(cs@.subrange((i + 1) as int, (i + 1) as int) =~= Seq::<char>::empty());
            }
            r.push((start, end));
            start = i + 1;
        } else {
            assert(cs@.subrange(start as int, i as int).push(cs@[i as int]) =~= cs@.subrange(
                start as int,
                i + 1,
            ));
        }
        i = i + 1;
    }
    proof {
        assert(cs@.skip(i as int).len() == 0);
    }
    if start < i {
        proof {
            lemma_spans_push(cs@, r@, (start, i));
        }
        r.push((start, i));
    }
    r
}

/// The words of `cs[lo..hi]` (see `words_of`), as spans into `cs`.
pub fn word_spans(cs: &Vec<char>, lo: usize, hi: usize) -> (r: Vec<(usize, usize)>)
    requires
        lo <= hi <= cs@.len(),
    ensures
        spans_within(r@, lo as int, hi as int),
        spans_view(cs@, r@) == words_of(cs@.subrange(lo as int, hi as int)),
        forall|k: int| 0 <= k < r@.len() ==> (#[trigger] r@[k]).0 < r@[k].1,
{
    let mut r: Vec<(usize, usize)> = Vec::new();
    let mut start: usize = lo;
    let mut i: usize = lo;
    assert(cs@.subrange(lo as int, lo as int) =~= Seq::<char>::empty());
    while i < hi
        invariant
            lo <= start <= i <= hi <= cs@.len(),
            spans_within(r@, lo as int, hi as int),
            forall|k: int| 0 <= k < r@.len() ==> (#[trigger] r@[k]).0 < r@[k].1,
            spans_view(cs@, r@) + split_words(
                cs@.subrange(i as int, hi as int),
                cs@.subrange(start as int, i as int),
            ) == words_of(cs@.subrange(lo as int, hi as int)),
        decreases hi - i,
    {
        let ghost t = cs@.subrange(i as int, hi as int);
        assert(t.drop_first() =~= cs@.subrange(i + 1, hi as int));
        assert(t[0] == cs@[i as int]);
        assert(cs@.subrange((i + 1) as int, (i + 1) as int) =~= Seq::<char>::empty());
        if is_whitespace(cs[i]) {
            if start < i {
                proof {
                    lemma_spans_push(cs@, r@, (start, i));
                }
                r.push((start, i));
            }
            start = i + 1;
        } else {
            assert(cs@.subrange(start as int, i as int).push(cs@[i as int]) =~= cs@.subrange(
                start as int,
                i + 1,
            ));
        }
        i = i + 1;
    }
    proof {
        assert(cs@.subrange(i as int, hi as int).len() == 0);
    }
    if start < i {
        proof {
            lemma_spans_push(cs@, r@, (start, i));
        }
        r.push((start, i));
    }
    r
}

/// Whether `cs[lo..hi]` holds exactly the characters of `p`.
pub fn span_equals(cs: &Vec<char>, lo: usize, hi: usize, p: &Vec<char>) -> (r: bool)
    requires
        lo <= hi <= cs@.len(),
    ensures
        r == (cs@.subrange(lo as int, hi as int) == p@),
{
    if hi - lo != p.len() {
        return false;
    }
    let mut k: usize = 0;
    while k < p.len()
        invariant
            hi - lo == p@.len(),
            lo <= hi <= cs@.len(),
            k <= p@.len(),
            forall|j: int| 0 <= j < k ==> cs@[lo + j] == p@[j],
        decreases p.len() - k,
    {
        if cs[lo + k] != p[k] {
            assert(cs@.subrange(lo as int, hi as int)[k as int] != p@[k as int]);
            return false;
        }
        k = k + 1;
    }
    assert(cs@.subrange(lo as int, hi as int) =~= p@);
    true
}

/// Whether `p` occurs in `cs[lo..hi]`.
pub fn span_contains(cs: &Vec<char>, lo: usize, hi: usize, p: &Vec<char>) -> (r: bool)
    requires
        lo <= hi <= cs@.len(),
    ensures
        r == contains(cs@.subrange(lo as int, hi as int), p@),
{
    let ghost s = cs@.subrange(lo as int, hi as int);
    if p.len() > hi - lo {
        return false;
    }
    if p.len() == 0 {
        assert(s.subrange(0int, 0int + p@.len()) =~= p@);
        return true;
    }
    let last: usize = hi - p.len();
    let mut k: usize = lo;
    while k <= last
        invariant
            lo <= k <= last + 1,
            last + p@.len() == hi,
            p@.len() > 0,
            lo <= hi <= cs@.len(),
            s == cs@.subrange(lo as int, hi as int),
            forall|j: int| 0 <= j < k - lo ==> #[trigger] s.subrange(j, j + p@.len()) != p@,
        decreases last + 1 - k,
    {
        assert(s.subrange(k - lo, k - lo + p@.len()) =~= cs@.subrange(k as int, k + p@.len()));
        if span_equals(cs, k, k + p.len(), p) {
            return true;
        }
        k = k + 1;
    }
    false
}

} // verus!
