//! Character-level text handling: the model of `str::lines`, `str::trim`,
//! `trim_matches`, `trim_start_matches`, `trim_end_matches`, `starts_with`,
//! `ends_with` and `split(..).nth(1)` over `Seq<char>`, and executable
//! counterparts that work on index ranges of a `Vec<char>`.
use vstd::prelude::*;

verus! {

broadcast use vstd::seq_lib::group_seq_properties;

// ---------------------------------------------------------------------------
// Specification
// ---------------------------------------------------------------------------

/// Unicode `White_Space`, the property that `char::is_whitespace` tests.
pub open spec fn is_whitespace(c: char) -> bool {
    ||| ('\u{9}' <= c && c <= '\u{d}')
    ||| c == ' '
    ||| c == '\u{85}'
    ||| c == '\u{a0}'
    ||| c == '\u{1680}'
    ||| ('\u{2000}' <= c && c <= '\u{200a}')
    ||| c == '\u{2028}'
    ||| c == '\u{2029}'
    ||| c == '\u{202f}'
    ||| c == '\u{205f}'
    ||| c == '\u{3000}'
}

/// A set of characters that a trimming operation removes.
#[derive(Clone, Copy, Debug, PartialEq, Eq, Structural)]
pub enum CharPattern {
    /// Every character for which `char::is_whitespace` holds.
    Whitespace,
    /// Exactly this character.
    Exactly(char),
}

impl CharPattern {
    pub open spec fn accepts(self, c: char) -> bool {
        match self {
            CharPattern::Whitespace => is_whitespace(c),
            CharPattern::Exactly(d) => c == d,
        }
    }
}

/// `s` with every leading character that `pat` accepts removed.
pub open spec fn trim_start_by(s: Seq<char>, pat: CharPattern) -> Seq<char>
    decreases s.len(),
{
    if s.len() > 0 && pat.accepts(s[0]) {
        trim_start_by(s.drop_first(), pat)
    } else {
        s
    }
}

/// `s` with every trailing character that `pat` accepts removed.
pub open spec fn trim_end_by(s: Seq<char>, pat: CharPattern) -> Seq<char>
    decreases s.len(),
{
    if s.len() > 0 && pat.accepts(s.last()) {
        trim_end_by(s.drop_last(), pat)
    } else {
        s
    }
}

/// `s` with the characters that `pat` accepts removed from both ends
/// (`str::trim_matches` with a character pattern).
pub open spec fn trim_by(s: Seq<char>, pat: CharPattern) -> Seq<char> {
    trim_end_by(trim_start_by(s, pat), pat)
}

/// `str::trim`.
pub open spec fn trim(s: Seq<char>) -> Seq<char> {
    trim_by(s, CharPattern::Whitespace)
}

/// `str::trim_matches(c)` for a single character `c`.
pub open spec fn trim_char(s: Seq<char>, c: char) -> Seq<char> {
    trim_by(s, CharPattern::Exactly(c))
}

/// `s` begins with `p`.
pub open spec fn has_prefix(s: Seq<char>, p: Seq<char>) -> bool {
    p.len() <= s.len() && s.subrange(0, p.len() as int) == p
}

/// `s` ends with `p`.
pub open spec fn has_suffix(s: Seq<char>, p: Seq<char>) -> bool {
    p.len() <= s.len() && s.subrange(s.len() - p.len(), s.len() as int) == p
}

/// `str::trim_start_matches(p)` for a string pattern `p`: the prefix `p`
/// removed as long as `s` still begins with it.
pub open spec fn strip_prefix_all(s: Seq<char>, p: Seq<char>) -> Seq<char>
    decreases s.len(),
{
    if p.len() > 0 && has_prefix(s, p) {
        strip_prefix_all(s.skip(p.len() as int), p)
    } else {
        s
    }
}

/// `str::trim_end_matches(p)` for a string pattern `p`.
pub open spec fn strip_suffix_all(s: Seq<char>, p: Seq<char>) -> Seq<char>
    decreases s.len(),
{
    if p.len() > 0 && has_suffix(s, p) {
        strip_suffix_all(s.take(s.len() - p.len()), p)
    } else {
        s
    }
}

/// The characters of `s` before the first `c` (all of `s` if there is none).
pub open spec fn take_until(s: Seq<char>, c: char) -> Seq<char>
    decreases s.len(),
{
    if s.len() == 0 {
        s
    } else if s[0] == c {
        Seq::empty()
    } else {
        seq![s[0]] + take_until(s.drop_first(), c)
    }
}

/// `s.split(c).nth(1)`: the piece between the first and the second `c`
/// (or the end of `s`), or `None` where `s` holds no `c`.
pub open spec fn split_second(s: Seq<char>, c: char) -> Option<Seq<char>>
    decreases s.len(),
{
    if s.len() == 0 {
        None
    } else if s[0] == c {
        Some(take_until(s.drop_first(), c))
    } else {
        split_second(s.drop_first(), c)
    }
}

/// A line without its final `'\r'`, if it has one.
pub open spec fn strip_cr(line: Seq<char>) -> Seq<char> {
    if line.len() > 0 && line.last() == '\r' {
        line.drop_last()
    } else {
        line
    }
}

/// `str::lines`: pieces separated by `'\n'`; a `'\r'` right before a `'\n'`
/// belongs to the line ending; a final empty piece after a last `'\n'` is no
/// line.
pub open spec fn lines(s: Seq<char>) -> Seq<Seq<char>>
    decreases s.len(),
{
    if s.len() == 0 {
        Seq::empty()
    } else {
        let line = take_until(s, '\n');
        proof {
            lemma_take_until_len(s, '\n');
        }
        if line.len() == s.len() {
            seq![line]
        } else {
            seq![strip_cr(line)] + lines(s.skip(line.len() + 1int))
        }
    }
}

// ---------------------------------------------------------------------------
// Lemmas
// ---------------------------------------------------------------------------

pub proof fn lemma_take_until_len(s: Seq<char>, c: char)
    ensures
        take_until(s, c).len() <= s.len(),
    decreases s.len(),
{
    if s.len() > 0 && s[0] != c {
        lemma_take_until_len(s.drop_first(), c);
    }
}

/// Where `k` is the position of the first `c` (or the length), the piece
/// before the first `c` is `s.take(k)`.
pub proof fn lemma_take_until_at(s: Seq<char>, c: char, k: int)
    requires
        0 <= k <= s.len(),
        forall|i: int| 0 <= i < k ==> s[i] != c,
        k == s.len() || s[k] == c,
    ensures
        take_until(s, c) == s.take(k),
    decreases k,
{
    if k == 0 {
        assert(s.take(0) =~= Seq::<char>::empty());
        if s.len() > 0 {
            assert(s[0] == c);
        }
    } else {
        lemma_take_until_at(s.drop_first(), c, k - 1);
        assert(s.take(k) =~= seq![s[0]] + s.drop_first().take(k - 1));
    }
}

/// Where `k` is the position of the first `c`, the second piece of the split
/// starts right after it.
pub proof fn lemma_split_second_at(s: Seq<char>, c: char, k: int)
    requires
        0 <= k < s.len(),
        forall|i: int| 0 <= i < k ==> s[i] != c,
        s[k] == c,
    ensures
        split_second(s, c) == Some(take_until(s.skip(k + 1), c)),
    decreases k,
{
    if k > 0 {
        lemma_split_second_at(s.drop_first(), c, k - 1);
        assert(s.drop_first().skip(k) =~= s.skip(k + 1));
    } else {
        assert(s.drop_first() =~= s.skip(1));
    }
}

/// The second piece of `s[lo..hi]` split at `c`, where the first `c` stands
/// at `i` and the next one (or the end) at `v`, is `s[i + 1..v]`.
pub proof fn lemma_split_second_in_range(s: Seq<char>, lo: int, hi: int, i: int, v: int, c: char)
    requires
        0 <= lo <= i,
        i + 1 <= v <= hi <= s.len(),
        forall|j: int| lo <= j < i ==> s[j] != c,
        s[i] == c,
        forall|j: int| i + 1 <= j < v ==> s[j] != c,
        v == hi || s[v] == c,
    ensures
        split_second(s.subrange(lo, hi), c) == Some(s.subrange(i + 1, v)),
{
    let t = s.subrange(lo, hi);
    assert forall|j: int| 0 <= j < i - lo implies t[j] != c by {
        assert(s[lo + j] != c);
    }
    lemma_split_second_at(t, c, i - lo);
    let rest = t.skip(i - lo + 1);
    assert(rest =~= s.subrange(i + 1, hi));
    lemma_take_until_at(rest, c, v - (i + 1));
    assert(rest.take(v - (i + 1)) =~= s.subrange(i + 1, v));
}

/// Text cut right after a line break splits into the lines of its two parts.
pub proof fn lemma_lines_append(a: Seq<char>, b: Seq<char>)
    requires
        a.len() > 0,
        a.last() == '\n',
    ensures
        lines(a + b) == lines(a) + lines(b),
    decreases a.len(),
{
    let ab = a + b;
    let k: int = take_until(a, '\n').len() as int;
    lemma_first_index(a, '\n');
    lemma_take_until_len(a, '\n');
    assert(k < a.len());
    assert forall|i: int| 0 <= i < k implies ab[i] != '\n' by {
        assert(a.take(k)[i] == a[i]);
    }
    lemma_take_until_at(ab, '\n', k);
    lemma_take_until_at(a, '\n', k);
    assert(ab.take(k) =~= a.take(k));
    let rest_a = a.skip(k + 1);
    assert(ab.skip(k + 1) =~= rest_a + b);
    if rest_a.len() == 0 {
        assert(rest_a + b =~= b);
        assert(lines(rest_a) =~= Seq::<Seq<char>>::empty());
        assert(lines(a) =~= seq![strip_cr(a.take(k))]);
        assert(lines(ab) =~= lines(a) + lines(b));
    } else {
        assert(rest_a.last() == a.last());
        lemma_lines_append(rest_a, b);
        assert(lines(ab) =~= lines(a) + lines(b));
    }
}

/// Where `c` occurs in `s`, the piece before the first `c` stops at a `c`.
pub proof fn lemma_first_index(s: Seq<char>, c: char)
    requires
        s.contains(c),
    ensures
        take_until(s, c).len() < s.len(),
        s[take_until(s, c).len() as int] == c,
        take_until(s, c) == s.take(take_until(s, c).len() as int),
        forall|i: int| 0 <= i < take_until(s, c).len() ==> s[i] != c,
    decreases s.len(),
{
    if s[0] != c {
        let i = choose|i: int| 0 <= i < s.len() && s[i] == c;
        assert(s.drop_first()[i - 1] == c);
        lemma_first_index(s.drop_first(), c);
        assert forall|j: int| 0 <= j < take_until(s, c).len() implies s[j] != c by {
            if j > 0 {
                assert(s[j] == s.drop_first()[j - 1]);
            }
        }
        assert(s.take(take_until(s, c).len() as int) =~= seq![s[0]] + s.drop_first().take(
            take_until(s.drop_first(), c).len() as int,
        ));
    } else {
        assert(s.take(0) =~= Seq::<char>::empty());
    }
}

/// Trimming leaves text alone whose first and last characters it keeps.
pub proof fn lemma_trim_keeps(s: Seq<char>, pat: CharPattern)
    requires
        s.len() > 0,
        !pat.accepts(s[0]),
        !pat.accepts(s.last()),
    ensures
        trim_by(s, pat) == s,
{
}

/// Leading characters that the pattern accepts do not matter to the start
/// trim.
pub proof fn lemma_trim_start_skips(w: Seq<char>, s: Seq<char>, pat: CharPattern)
    requires
        forall|i: int| 0 <= i < w.len() ==> pat.accepts(#[trigger] w[i]),
    ensures
        trim_start_by(w + s, pat) == trim_start_by(s, pat),
    decreases w.len(),
{
    if w.len() > 0 {
        assert((w + s)[0] == w[0]);
        assert((w + s).drop_first() =~= w.drop_first() + s);
        lemma_trim_start_skips(w.drop_first(), s, pat);
    } else {
        assert(w + s =~= s);
    }
}

/// Trailing characters that the pattern accepts do not matter to the end
/// trim.
pub proof fn lemma_trim_end_skips(s: Seq<char>, w: Seq<char>, pat: CharPattern)
    requires
        forall|i: int| 0 <= i < w.len() ==> pat.accepts(#[trigger] w[i]),
    ensures
        trim_end_by(s + w, pat) == trim_end_by(s, pat),
    decreases w.len(),
{
    if w.len() > 0 {
        assert((s + w).last() == w.last());
        assert((s + w).drop_last() =~= s + w.drop_last());
        lemma_trim_end_skips(s, w.drop_last(), pat);
    } else {
        assert(s + w =~= s);
    }
}

/// Without a `c` in `s`, the piece before the first `c` is all of `s`.
pub proof fn lemma_take_until_none(s: Seq<char>, c: char)
    requires
        forall|i: int| 0 <= i < s.len() ==> s[i] != c,
    ensures
        take_until(s, c) == s,
{
    lemma_take_until_at(s, c, s.len() as int);
    assert(s.take(s.len() as int) =~= s);
}

/// A line without line breaks, ended by `'\n'`, is one line.
pub proof fn lemma_lines_one(l: Seq<char>)
    requires
        forall|i: int| 0 <= i < l.len() ==> l[i] != '\n',
        l.len() == 0 || l.last() != '\r',
    ensures
        lines(l + seq!['\n']) == seq![l],
{
    let s = l + seq!['\n'];
    assert forall|i: int| 0 <= i < l.len() implies s[i] != '\n' by {
        assert(s[i] == l[i]);
    }
    lemma_take_until_at(s, '\n', l.len() as int);
    assert(s.take(l.len() as int) =~= l);
    assert(s.skip(l.len() + 1int) =~= Seq::<char>::empty());
    assert(lines(s.skip(l.len() + 1int)) =~= Seq::<Seq<char>>::empty());
    assert(take_until(s, '\n').len() < s.len());
    assert(strip_cr(l) == l);
    assert(lines(s) == seq![strip_cr(l)] + lines(s.skip(l.len() + 1int)));
    assert(seq![l] + Seq::<Seq<char>>::empty() =~= seq![l]);
}

/// Two lines without line breaks, each ended by `'\n'`, then more text.
pub proof fn lemma_lines_two(h: Seq<char>, l: Seq<char>, rest: Seq<char>)
    requires
        forall|i: int| 0 <= i < h.len() ==> h[i] != '\n',
        h.len() == 0 || h.last() != '\r',
        forall|i: int| 0 <= i < l.len() ==> l[i] != '\n',
        l.len() == 0 || l.last() != '\r',
    ensures
        lines(h + seq!['\n'] + (l + seq!['\n'] + rest)) == seq![h, l] + lines(rest),
{
    let nl = seq!['\n'];
    lemma_lines_one(h);
    lemma_lines_one(l);
    lemma_lines_append(l + nl, rest);
    lemma_lines_append(h + nl, l + nl + rest);
    assert(seq![h] + (seq![l] + lines(rest)) =~= seq![h, l] + lines(rest));
}

/// Without a `c` in `s` there is no second piece.
pub proof fn lemma_split_second_none(s: Seq<char>, c: char)
    requires
        forall|i: int| 0 <= i < s.len() ==> s[i] != c,
    ensures
        split_second(s, c) is None,
    decreases s.len(),
{
    if s.len() > 0 {
        lemma_split_second_none(s.drop_first(), c);
    }
}

// ---------------------------------------------------------------------------
// Executable operations on ranges of a character vector
// ---------------------------------------------------------------------------

/// The characters of `t`, in order.
pub fn chars_of(t: &str) -> (v: Vec<char>)
    ensures
        v@ == t@,
{
    let mut v: Vec<char> = Vec::new();
    for c in it: t.chars()
        invariant
            v@ == it.seq().take(it.index() as int),
    {
        v.push(c);
    }
    v
}


/// Whether `pat` accepts `c`.
pub fn pattern_accepts(pat: CharPattern, c: char) -> (b: bool)
    ensures
        b == pat.accepts(c),
{
    match pat {
        CharPattern::Whitespace => {
            ('\u{9}' <= c && c <= '\u{d}') || c == ' ' || c == '\u{85}' || c == '\u{a0}'
                || c == '\u{1680}' || ('\u{2000}' <= c && c <= '\u{200a}') || c == '\u{2028}'
                || c == '\u{2029}' || c == '\u{202f}' || c == '\u{205f}' || c == '\u{3000}'
        },
        CharPattern::Exactly(d) => c == d,
    }
}

/// The range `(a, b)` of `s` that holds `s[lo..hi]` with the characters that
/// `pat` accepts removed from both ends.
pub fn trim_range(s: &Vec<char>, lo: usize, hi: usize, pat: CharPattern) -> (r: (usize, usize))
    requires
        lo <= hi <= s.len(),
    ensures
        lo <= r.0 <= r.1 <= hi,
        s@.subrange(r.0 as int, r.1 as int) == trim_by(s@.subrange(lo as int, hi as int), pat),
{
    let mut a = lo;
    while a < hi && pattern_accepts(pat, s[a])
        invariant
            lo <= a <= hi <= s.len(),
            trim_start_by(s@.subrange(lo as int, hi as int), pat) == trim_start_by(
                s@.subrange(a as int, hi as int),
                pat,
            ),
        decreases hi - a,
    {
        assert(s@.subrange(a as int, hi as int).drop_first() =~= s@.subrange(
            a + 1,
            hi as int,
        ));
        a = a + 1;
    }
    assert(trim_start_by(s@.subrange(a as int, hi as int), pat) == s@.subrange(
        a as int,
        hi as int,
    ));
    let mut b = hi;
    while b > a && pattern_accepts(pat, s[b - 1])
        invariant
            lo <= a <= b <= hi <= s.len(),
            trim_end_by(s@.subrange(a as int, hi as int), pat) == trim_end_by(
                s@.subrange(a as int, b as int),
                pat,
            ),
        decreases b - a,
    {
        assert(s@.subrange(a as int, b as int).drop_last() =~= s@.subrange(
            a as int,
            b - 1,
        ));
        b = b - 1;
    }
    (a, b)
}

/// Whether `s[lo..hi]` begins with `p`.
pub fn starts_with_range(s: &Vec<char>, lo: usize, hi: usize, p: &Vec<char>) -> (b: bool)
    requires
        lo <= hi <= s.len(),
    ensures
        b == has_prefix(s@.subrange(lo as int, hi as int), p@),
{
    if p.len() > hi - lo {
        return false;
    }
    let mut k: usize = 0;
    while k < p.len()
        invariant
            lo <= hi <= s.len(),
            p.len() <= hi - lo,
            k <= p.len(),
            forall|j: int| 0 <= j < k ==> s@[lo + j] == p@[j],
        decreases p.len() - k,
    {
        if s[lo + k] != p[k] {
            assert(s@.subrange(lo as int, hi as int).subrange(0, p.len() as int)[k as int]
                != p@[k as int]);
            return false;
        }
        k = k + 1;
    }
    assert(s@.subrange(lo as int, hi as int).subrange(0, p.len() as int) =~= p@);
    true
}

/// Whether `s[lo..hi]` ends with `p`.
pub fn ends_with_range(s: &Vec<char>, lo: usize, hi: usize, p: &Vec<char>) -> (b: bool)
    requires
        lo <= hi <= s.len(),
    ensures
        b == has_suffix(s@.subrange(lo as int, hi as int), p@),
{
    if p.len() > hi - lo {
        return false;
    }
    let start = hi - p.len();
    let mut k: usize = 0;
    while k < p.len()
        invariant
            lo <= start <= hi <= s.len(),
            start + p.len() == hi,
            k <= p.len(),
            forall|j: int| 0 <= j < k ==> s@[start + j] == p@[j],
        decreases p.len() - k,
    {
        if s[start + k] != p[k] {
            let ghost t = s@.subrange(lo as int, hi as int);
            assert(t.subrange(t.len() - p.len(), t.len() as int)[k as int] != p@[k as int]);
            return false;
        }
        k = k + 1;
    }
    let ghost t = s@.subrange(lo as int, hi as int);
    assert(t.subrange(t.len() - p.len(), t.len() as int) =~= p@);
    true
}

/// Whether `s[lo..hi]` is exactly `p`.
pub fn equals_range(s: &Vec<char>, lo: usize, hi: usize, p: &Vec<char>) -> (b: bool)
    requires
        lo <= hi <= s.len(),
    ensures
        b == (s@.subrange(lo as int, hi as int) == p@),
{
    if hi - lo != p.len() {
        return false;
    }
    let r = starts_with_range(s, lo, hi, p);
    assert(s@.subrange(lo as int, hi as int).subrange(0, p.len() as int) =~= s@.subrange(
        lo as int,
        hi as int,
    ));
    r
}

/// Whether `s[lo..hi]` holds `c`.
pub fn contains_range(s: &Vec<char>, lo: usize, hi: usize, c: char) -> (b: bool)
    requires
        lo <= hi <= s.len(),
    ensures
        b == s@.subrange(lo as int, hi as int).contains(c),
{
    let mut i = lo;
    while i < hi
        invariant
            lo <= i <= hi <= s.len(),
            forall|j: int| lo <= j < i ==> s@[j] != c,
        decreases hi - i,
    {
        if s[i] == c {
            assert(s@.subrange(lo as int, hi as int)[i - lo] == c);
            return true;
        }
        i = i + 1;
    }
    assert forall|j: int| 0 <= j < hi - lo implies s@.subrange(lo as int, hi as int)[j] != c by {
        assert(s@[lo + j] != c);
    }
    false
}

/// The range of `s` that holds `s[lo..hi].split(c).nth(1)`, or `None` where
/// `s[lo..hi]` holds no `c`.
pub fn split_second_range(s: &Vec<char>, lo: usize, hi: usize, c: char) -> (r: Option<
    (usize, usize),
>)
    requires
        lo <= hi <= s.len(),
    ensures
        match r {
            None => split_second(s@.subrange(lo as int, hi as int), c) is None,
            Some((u, v)) => {
                &&& lo <= u <= v <= hi
                &&& split_second(s@.subrange(lo as int, hi as int), c) == Some(
                    s@.subrange(u as int, v as int),
                )
            },
        },
{
    let ghost t = s@.subrange(lo as int, hi as int);
    let mut i = lo;
    while i < hi && s[i] != c
        invariant
            lo <= i <= hi <= s.len(),
            t == s@.subrange(lo as int, hi as int),
            forall|j: int| lo <= j < i ==> s@[j] != c,
        decreases hi - i,
    {
        i = i + 1;
    }
    if i == hi {
        proof {
            assert forall|j: int| 0 <= j < t.len() implies t[j] != c by {
                assert(s@[lo + j] != c);
            }
            lemma_split_second_none(t, c);
        }
        return None;
    }
    let u = i + 1;
    let mut v = u;
    while v < hi && s[v] != c
        invariant
            u <= v <= hi <= s.len(),
            forall|j: int| u <= j < v ==> s@[j] != c,
        decreases hi - v,
    {
        v = v + 1;
    }
    proof {
        lemma_split_second_in_range(s@, lo as int, hi as int, i as int, v as int, c);
    }
    Some((u, v))
}

/// The start of the range that holds `s[lo..hi].trim_start_matches(p)`.
pub fn strip_prefix_all_range(s: &Vec<char>, lo: usize, hi: usize, p: &Vec<char>) -> (a: usize)
    requires
        lo <= hi <= s.len(),
    ensures
        lo <= a <= hi,
        s@.subrange(a as int, hi as int) == strip_prefix_all(s@.subrange(lo as int, hi as int), p@),
{
    let mut a = lo;
    while p.len() > 0 && starts_with_range(s, a, hi, p)
        invariant
            lo <= a <= hi <= s.len(),
            strip_prefix_all(s@.subrange(lo as int, hi as int), p@) == strip_prefix_all(
                s@.subrange(a as int, hi as int),
                p@,
            ),
        decreases hi - a,
    {
        assert(s@.subrange(a as int, hi as int).skip(p.len() as int) =~= s@.subrange(
            a + p.len(),
            hi as int,
        ));
        a = a + p.len();
    }
    a
}

/// The end of the range that holds `s[lo..hi].trim_end_matches(p)`.
pub fn strip_suffix_all_range(s: &Vec<char>, lo: usize, hi: usize, p: &Vec<char>) -> (b: usize)
    requires
        lo <= hi <= s.len(),
    ensures
        lo <= b <= hi,
        s@.subrange(lo as int, b as int) == strip_suffix_all(s@.subrange(lo as int, hi as int), p@),
{
    let mut b = hi;
    while p.len() > 0 && ends_with_range(s, lo, b, p)
        invariant
            lo <= b <= hi <= s.len(),
            strip_suffix_all(s@.subrange(lo as int, hi as int), p@) == strip_suffix_all(
                s@.subrange(lo as int, b as int),
                p@,
            ),
        decreases b - lo,
    {
        assert(s@.subrange(lo as int, b as int).take(b - lo - p.len()) =~= s@.subrange(
            lo as int,
            b - p.len(),
        ));
        b = b - p.len();
    }
    b
}

/// The first line of `s[pos..]`: it is `s[pos..r.0]`, and the rest of the
/// lines begins at `r.1`.
pub fn next_line(s: &Vec<char>, pos: usize) -> (r: (usize, usize))
    requires
        pos < s.len(),
    ensures
        pos <= r.0 <= r.1 <= s.len(),
        pos < r.1,
        lines(s@.skip(pos as int)) == seq![s@.subrange(pos as int, r.0 as int)] + lines(
            s@.skip(r.1 as int),
        ),
{
    let n = s.len();
    let mut e = pos;
    while e < n && s[e] != '\n'
        invariant
            pos <= e <= n == s.len(),
            forall|j: int| pos <= j < e ==> s@[j] != '\n',
        decreases n - e,
    {
        e = e + 1;
    }
    let ghost t = s@.skip(pos as int);
    proof {
        assert forall|j: int| 0 <= j < e - pos implies t[j] != '\n' by {
            assert(s@[pos + j] != '\n');
        }
        lemma_take_until_at(t, '\n', e - pos);
        assert(t.take(e - pos) =~= s@.subrange(pos as int, e as int));
    }
    if e == n {
        proof {
            assert(s@.skip(n as int) =~= Seq::<char>::empty());
            assert(seq![s@.subrange(pos as int, e as int)] + Seq::<Seq<char>>::empty() =~= seq![
                s@.subrange(pos as int, e as int),
            ]);
        }
        (e, n)
    } else {
        let mut hi = e;
        if e > pos && s[e - 1] == '\r' {
            hi = e - 1;
            assert(s@.subrange(pos as int, e as int).drop_last() =~= s@.subrange(
                pos as int,
                hi as int,
            ));
        }
        assert(t.skip(e - pos + 1) =~= s@.skip(e + 1));
        (hi, e + 1)
    }
}

} // verus!
