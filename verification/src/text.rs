//! Text primitives over character sequences: whitespace classes, line and
//! word splitting, and trimming.

use vstd::prelude::*;

verus! {

broadcast use vstd::string::group_string_axioms;

/// ASCII whitespace as `u8::is_ascii_whitespace` defines it: space, tab,
/// line feed, form feed and carriage return (not the vertical tab).
pub open spec fn is_ascii_ws(c: char) -> bool {
    c == ' ' || c == '\t' || c == '\n' || c == '\x0C' || c == '\r'
}

/// Unicode whitespace (the `White_Space` property), as `char::is_whitespace`
/// defines it.
pub open spec fn is_ws(c: char) -> bool {
    let u = c as u32;
    ||| 0x09 <= u <= 0x0D
    ||| u == 0x20
    ||| u == 0x85
    ||| u == 0xA0
    ||| u == 0x1680
    ||| 0x2000 <= u <= 0x200A
    ||| u == 0x2028
    ||| u == 0x2029
    ||| u == 0x202F
    ||| u == 0x205F
    ||| u == 0x3000
}

pub fn is_ascii_whitespace(c: char) -> (b: bool)
    ensures
        b == is_ascii_ws(c),
{
    c == ' ' || c == '\t' || c == '\n' || c == '\x0C' || c == '\r'
}

pub fn is_whitespace(c: char) -> (b: bool)
    ensures
        b == is_ws(c),
{
    let u = c as u32;
    (0x09 <= u && u <= 0x0D) || u == 0x20 || u == 0x85 || u == 0xA0 || u == 0x1680 || (0x2000
        <= u && u <= 0x200A) || u == 0x2028 || u == 0x2029 || u == 0x202F || u == 0x205F || u
        == 0x3000
}

/// The characters of a string, in order.
pub fn chars_of(s: &str) -> (v: Vec<char>)
    ensures
        v@ == s@,
{
    let mut v: Vec<char> = Vec::new();
    for c in it: s.chars()
        invariant
            v@ == it.seq().take(it.index()),
    {
        v.push(c);
    }
    v
}

/// The pieces of `s` that the spans cut out, in order.
pub open spec fn spans_view(s: Seq<char>, spans: Seq<(usize, usize)>) -> Seq<Seq<char>> {
    spans.map_values(|p: (usize, usize)| s.subrange(p.0 as int, p.1 as int))
}

/// Every span lies inside `s[lo..hi]` and is well ordered.
pub open spec fn spans_within(spans: Seq<(usize, usize)>, lo: int, hi: int) -> bool {
    forall|k: int| 0 <= k < spans.len() ==> lo <= #[trigger] spans[k].0 <= spans[k].1 <= hi
}

// ---------------------------------------------------------------------------
// Lines
// ---------------------------------------------------------------------------

/// A line without the carriage return that precedes its line feed.
pub open spec fn strip_cr(l: Seq<char>) -> Seq<char> {
    if l.len() > 0 && l.last() == '\r' {
        l.drop_last()
    } else {
        l
    }
}

/// Reading one character while splitting into lines: the finished lines and
/// the line being read.
pub open spec fn line_step(st: (Seq<Seq<char>>, Seq<char>), c: char) -> (Seq<Seq<char>>, Seq<char>) {
    if c == '\n' {
        (st.0.push(strip_cr(st.1)), Seq::empty())
    } else {
        (st.0, st.1.push(c))
    }
}

pub open spec fn line_scan(s: Seq<char>) -> (Seq<Seq<char>>, Seq<char>)
    decreases s.len(),
{
    if s.len() == 0 {
        (Seq::empty(), Seq::empty())
    } else {
        line_step(line_scan(s.drop_last()), s.last())
    }
}

/// The lines of `s`, as `str::lines` yields them: split at `\n` or `\r\n`;
/// the final line ending is optional, and a last line without an ending keeps
/// a trailing `\r`.
pub open spec fn lines(s: Seq<char>) -> Seq<Seq<char>> {
    let st = line_scan(s);
    if st.1.len() > 0 {
        st.0.push(st.1)
    } else {
        st.0
    }
}

/// The spans of the lines of `cs`.
pub fn line_spans(cs: &Vec<char>) -> (r: Vec<(usize, usize)>)
    ensures
        spans_view(cs@, r@) == lines(cs@),
        spans_within(r@, 0, cs@.len() as int),
{
    let mut done: Vec<(usize, usize)> = Vec::new();
    let mut start: usize = 0;
    let n = cs.len();
    for i in 0..n
        invariant
            n == cs@.len(),
            start <= i,
            spans_within(done@, 0, i as int),
            line_scan(cs@.take(i as int)) == (spans_view(cs@, done@), cs@.subrange(
                start as int,
                i as int,
            )),
    {
        let ghost prev = done@;
        assert(cs@.take(i + 1).drop_last() =~= cs@.take(i as int));
        if cs[i] == '\n' {
            let end: usize = if i > start && cs[i - 1] == '\r' {
                i - 1
            } else {
                i
            };
            assert(strip_cr(cs@.subrange(start as int, i as int)) =~= cs@.subrange(
                start as int,
                end as int,
            ));
            done.push((start, end));
            assert(spans_view(cs@, done@) =~= spans_view(cs@, prev).push(
                cs@.subrange(start as int, end as int),
            ));
            start = i + 1;
            assert(cs@.subrange(start as int, (i + 1) as int) =~= Seq::<char>::empty());
        } else {
            assert(cs@.subrange(start as int, (i + 1) as int) =~= cs@.subrange(
                start as int,
                i as int,
            ).push(cs@[i as int]));
        }
    }
    assert(cs@.take(n as int) =~= cs@);
    if start < n {
        let ghost prev = done@;
        done.push((start, n));
        assert(spans_view(cs@, done@) =~= spans_view(cs@, prev).push(
            cs@.subrange(start as int, n as int),
        ));
    }
    done
}

// ---------------------------------------------------------------------------
// Words
// ---------------------------------------------------------------------------

/// Reading one character while splitting at ASCII whitespace: the finished
/// words and the word being read.
pub open spec fn word_step(st: (Seq<Seq<char>>, Seq<char>), c: char) -> (Seq<Seq<char>>, Seq<char>) {
    if is_ascii_ws(c) {
        if st.1.len() > 0 {
            (st.0.push(st.1), Seq::empty())
        } else {
            (st.0, Seq::empty())
        }
    } else {
        (st.0, st.1.push(c))
    }
}

pub open spec fn word_scan(s: Seq<char>) -> (Seq<Seq<char>>, Seq<char>)
    decreases s.len(),
{
    if s.len() == 0 {
        (Seq::empty(), Seq::empty())
    } else {
        word_step(word_scan(s.drop_last()), s.last())
    }
}

/// The words of `s`, as `str::split_ascii_whitespace` yields them: the
/// non-empty runs of characters that are not ASCII whitespace.
pub open spec fn ascii_words(s: Seq<char>) -> Seq<Seq<char>> {
    let st = word_scan(s);
    if st.1.len() > 0 {
        st.0.push(st.1)
    } else {
        st.0
    }
}

/// The spans of the words of `cs[lo..hi]`, as positions in `cs`.
pub fn word_spans(cs: &Vec<char>, lo: usize, hi: usize) -> (r: Vec<(usize, usize)>)
    requires
        lo <= hi <= cs@.len(),
    ensures
        spans_view(cs@, r@) == ascii_words(cs@.subrange(lo as int, hi as int)),
        spans_within(r@, lo as int, hi as int),
{
    let mut done: Vec<(usize, usize)> = Vec::new();
    let mut start: usize = lo;
    for i in lo..hi
        invariant
            lo <= start <= i <= hi <= cs@.len(),
            spans_within(done@, lo as int, i as int),
            word_scan(cs@.subrange(lo as int, i as int)) == (spans_view(cs@, done@), cs@.subrange(
                start as int,
                i as int,
            )),
    {
        let ghost prev = done@;
        assert(cs@.subrange(lo as int, i + 1).drop_last() =~= cs@.subrange(lo as int, i as int));
        if is_ascii_whitespace(cs[i]) {
            if start < i {
                done.push((start, i));
                assert(spans_view(cs@, done@) =~= spans_view(cs@, prev).push(
                    cs@.subrange(start as int, i as int),
                ));
            }
            start = i + 1;
            assert(cs@.subrange(start as int, (i + 1) as int) =~= Seq::<char>::empty());
        } else {
            assert(cs@.subrange(start as int, (i + 1) as int) =~= cs@.subrange(
                start as int,
                i as int,
            ).push(cs@[i as int]));
        }
    }
    if start < hi {
        let ghost prev = done@;
        done.push((start, hi));
        assert(spans_view(cs@, done@) =~= spans_view(cs@, prev).push(
            cs@.subrange(start as int, hi as int),
        ));
        assert forall|k: int| 0 <= k < done@.len() implies lo <= #[trigger] done@[k].0
            <= done@[k].1 <= hi by {
            if k < prev.len() {
                assert(done@[k] == prev[k]);
            }
        }
    }
    done
}

// ---------------------------------------------------------------------------
// Trimming
// ---------------------------------------------------------------------------

/// `s` without its leading whitespace, as `str::trim_start` gives it.
pub open spec fn trim_start(s: Seq<char>) -> Seq<char>
    decreases s.len(),
{
    if s.len() > 0 && is_ws(s[0]) {
        trim_start(s.drop_first())
    } else {
        s
    }
}

/// `s` without its trailing whitespace, as `str::trim_end` gives it.
pub open spec fn trim_end(s: Seq<char>) -> Seq<char>
    decreases s.len(),
{
    if s.len() > 0 && is_ws(s.last()) {
        trim_end(s.drop_last())
    } else {
        s
    }
}

/// `s` without leading and trailing whitespace, as `str::trim` gives it.
pub open spec fn trim(s: Seq<char>) -> Seq<char> {
    trim_end(trim_start(s))
}

/// The span of `cs[lo..hi]` without its trailing whitespace.
pub fn trim_end_span(cs: &Vec<char>, lo: usize, hi: usize) -> (r: usize)
    requires
        lo <= hi <= cs@.len(),
    ensures
        lo <= r <= hi,
        cs@.subrange(lo as int, r as int) == trim_end(cs@.subrange(lo as int, hi as int)),
{
    let mut b = hi;
    while b > lo && is_whitespace(cs[b - 1])
        invariant
            lo <= b <= hi <= cs@.len(),
            trim_end(cs@.subrange(lo as int, hi as int)) == trim_end(
                cs@.subrange(lo as int, b as int),
            ),
        decreases b,
    {
        assert(cs@.subrange(lo as int, b as int).drop_last() =~= cs@.subrange(
            lo as int,
            b - 1,
        ));
        b = b - 1;
    }
    b
}

/// The span of `cs[lo..hi]` without its leading and trailing whitespace.
pub fn trim_span(cs: &Vec<char>, lo: usize, hi: usize) -> (r: (usize, usize))
    requires
        lo <= hi <= cs@.len(),
    ensures
        lo <= r.0 <= r.1 <= hi,
        cs@.subrange(r.0 as int, r.1 as int) == trim(cs@.subrange(lo as int, hi as int)),
{
    let mut a = lo;
    while a < hi && is_whitespace(cs[a])
        invariant
            lo <= a <= hi <= cs@.len(),
            trim_start(cs@.subrange(lo as int, hi as int)) == trim_start(
                cs@.subrange(a as int, hi as int),
            ),
        decreases hi - a,
    {
        assert(cs@.subrange(a as int, hi as int).drop_first() =~= cs@.subrange(
            a + 1,
            hi as int,
        ));
        a = a + 1;
    }
    let b = trim_end_span(cs, a, hi);
    (a, b)
}

/// Whether `cs[lo..hi]` is exactly `target`.
pub fn span_equals(cs: &Vec<char>, lo: usize, hi: usize, target: &Vec<char>) -> (r: bool)
    requires
        lo <= hi <= cs@.len(),
    ensures
        r == (cs@.subrange(lo as int, hi as int) == target@),
{
    if hi - lo != target.len() {
        return false;
    }
    let mut k: usize = 0;
    while k < target.len()
        invariant
            hi - lo == target@.len(),
            lo <= hi <= cs@.len(),
            k <= target@.len(),
            forall|j: int| 0 <= j < k ==> cs@[lo + j] == target@[j],
        decreases target@.len() - k,
    {
        if cs[lo + k] != target[k] {
            assert(cs@.subrange(lo as int, hi as int)[k as int] != target@[k as int]);
            return false;
        }
        k = k + 1;
    }
    assert(cs@.subrange(lo as int, hi as int) =~= target@);
    true
}

// ---------------------------------------------------------------------------
// Laws
// ---------------------------------------------------------------------------

/// A piece that holds no character with the property `p`.
pub open spec fn free_of(piece: Seq<char>, p: spec_fn(char) -> bool) -> bool {
    forall|j: int| 0 <= j < piece.len() ==> !p(#[trigger] piece[j])
}

proof fn lemma_word_scan_clean(s: Seq<char>)
    ensures
        forall|k: int|
            0 <= k < word_scan(s).0.len() ==> #[trigger] word_scan(s).0[k].len() > 0 && free_of(
                word_scan(s).0[k],
                |c: char| is_ascii_ws(c),
            ),
        free_of(word_scan(s).1, |c: char| is_ascii_ws(c)),
    decreases s.len(),
{
    if s.len() > 0 {
        lemma_word_scan_clean(s.drop_last());
        let st = word_scan(s.drop_last());
        let c = s.last();
        if !is_ascii_ws(c) {
            assert forall|j: int| 0 <= j < st.1.push(c).len() implies !is_ascii_ws(
                #[trigger] st.1.push(c)[j],
            ) by {
                if j < st.1.len() {
                    assert(st.1.push(c)[j] == st.1[j]);
                }
            }
        }
    }
}

/// The words are never empty and hold no ASCII whitespace.
pub proof fn lemma_words_are_clean(s: Seq<char>)
    ensures
        forall|k: int|
            0 <= k < ascii_words(s).len() ==> #[trigger] ascii_words(s)[k].len() > 0 && free_of(
                ascii_words(s)[k],
                |c: char| is_ascii_ws(c),
            ),
{
    lemma_word_scan_clean(s);
}

proof fn lemma_line_scan_clean(s: Seq<char>)
    ensures
        forall|k: int|
            0 <= k < line_scan(s).0.len() ==> free_of(
                #[trigger] line_scan(s).0[k],
                |c: char| c == '\n',
            ),
        free_of(line_scan(s).1, |c: char| c == '\n'),
    decreases s.len(),
{
    if s.len() > 0 {
        lemma_line_scan_clean(s.drop_last());
        let st = line_scan(s.drop_last());
        let c = s.last();
        if c == '\n' {
            let l = strip_cr(st.1);
            assert forall|j: int| 0 <= j < l.len() implies #[trigger] l[j] != '\n' by {
                assert(l[j] == st.1[j]);
            }
        } else {
            assert forall|j: int| 0 <= j < st.1.push(c).len() implies #[trigger] st.1.push(c)[j]
                != '\n' by {
                if j < st.1.len() {
                    assert(st.1.push(c)[j] == st.1[j]);
                }
            }
        }
    }
}

/// No line holds a line feed.
pub proof fn lemma_lines_hold_no_newline(s: Seq<char>)
    ensures
        forall|k: int|
            0 <= k < lines(s).len() ==> free_of(#[trigger] lines(s)[k], |c: char| c == '\n'),
{
    lemma_line_scan_clean(s);
}

/// A trimmed text neither starts nor ends with whitespace, and trimming it
/// again changes nothing.
pub proof fn lemma_trim_is_trimmed(s: Seq<char>)
    ensures
        trim(s).len() > 0 ==> !is_ws(trim(s)[0]) && !is_ws(trim(s).last()),
        trim(trim(s)) == trim(s),
{
    lemma_trim_start_clean(s);
    lemma_trim_end_keeps_start(trim_start(s));
    lemma_trim_end_clean(trim_start(s));
    let t = trim(s);
    lemma_trim_start_of_clean(t);
    lemma_trim_end_clean(t);
    lemma_trim_end_fixed(t);
}

proof fn lemma_trim_start_clean(s: Seq<char>)
    ensures
        trim_start(s).len() > 0 ==> !is_ws(trim_start(s)[0]),
    decreases s.len(),
{
    if s.len() > 0 && is_ws(s[0]) {
        lemma_trim_start_clean(s.drop_first());
    }
}

proof fn lemma_trim_end_clean(s: Seq<char>)
    ensures
        trim_end(s).len() > 0 ==> !is_ws(trim_end(s).last()),
    decreases s.len(),
{
    if s.len() > 0 && is_ws(s.last()) {
        lemma_trim_end_clean(s.drop_last());
    }
}

/// Trimming the end keeps a prefix, so a clean start stays clean.
proof fn lemma_trim_end_keeps_start(s: Seq<char>)
    ensures
        trim_end(s).len() <= s.len(),
        trim_end(s) == s.take(trim_end(s).len() as int),
    decreases s.len(),
{
    if s.len() > 0 && is_ws(s.last()) {
        lemma_trim_end_keeps_start(s.drop_last());
        assert(s.drop_last().take(trim_end(s).len() as int) =~= s.take(trim_end(s).len() as int));
    } else {
        assert(s.take(s.len() as int) =~= s);
    }
}

proof fn lemma_trim_start_of_clean(t: Seq<char>)
    requires
        t.len() > 0 ==> !is_ws(t[0]),
    ensures
        trim_start(t) == t,
{
}

proof fn lemma_trim_end_fixed(t: Seq<char>)
    requires
        t.len() > 0 ==> !is_ws(t.last()),
    ensures
        trim_end(t) == t,
{
}

/// Splitting a text whose first part ends a line: the lines of the whole are
/// those of the first part, then those of the rest.
pub proof fn lemma_line_scan_append(x: Seq<char>, y: Seq<char>)
    requires
        line_scan(x).1.len() == 0,
    ensures
        line_scan(x + y) == (line_scan(x).0 + line_scan(y).0, line_scan(y).1),
    decreases y.len(),
{
    if y.len() == 0 {
        assert(x + y =~= x);
        assert(line_scan(x).0 + Seq::<Seq<char>>::empty() =~= line_scan(x).0);
    } else {
        lemma_line_scan_append(x, y.drop_last());
        assert((x + y).drop_last() =~= x + y.drop_last());
        assert((x + y).last() == y.last());
        let a = line_scan(x).0;
        let b = line_scan(y.drop_last()).0;
        let c = line_scan(y.drop_last()).1;
        if y.last() == '\n' {
            assert((a + b).push(strip_cr(c)) =~= a + b.push(strip_cr(c)));
        }
    }
}

/// A text without line feeds is read as one unfinished line.
pub proof fn lemma_line_scan_of_one_line(l: Seq<char>)
    requires
        forall|j: int| 0 <= j < l.len() ==> l[j] != '\n',
    ensures
        line_scan(l) == (Seq::<Seq<char>>::empty(), l),
    decreases l.len(),
{
    if l.len() > 0 {
        lemma_line_scan_of_one_line(l.drop_last());
        assert(l.drop_last().push(l.last()) =~= l);
    }
}

/// An ASCII whitespace character at the end changes no word.
pub proof fn lemma_words_ignore_trailing_ascii_ws(x: Seq<char>, c: char)
    requires
        is_ascii_ws(c),
    ensures
        ascii_words(x.push(c)) == ascii_words(x),
{
    assert(x.push(c).drop_last() =~= x);
}

/// Splitting a text whose first part ends a word: the words of the whole are
/// those of the first part, then those of the rest.
pub proof fn lemma_word_scan_append(x: Seq<char>, y: Seq<char>)
    requires
        word_scan(x).1.len() == 0,
    ensures
        word_scan(x + y) == (word_scan(x).0 + word_scan(y).0, word_scan(y).1),
    decreases y.len(),
{
    if y.len() == 0 {
        assert(x + y =~= x);
        assert(word_scan(x).0 + Seq::<Seq<char>>::empty() =~= word_scan(x).0);
    } else {
        lemma_word_scan_append(x, y.drop_last());
        assert((x + y).drop_last() =~= x + y.drop_last());
        assert((x + y).last() == y.last());
        let a = word_scan(x).0;
        let b = word_scan(y.drop_last()).0;
        let c = word_scan(y.drop_last()).1;
        if is_ascii_ws(y.last()) && c.len() > 0 {
            assert((a + b).push(c) =~= a + b.push(c));
        }
    }
}

/// A run of characters without ASCII whitespace is read as one unfinished
/// word.
pub proof fn lemma_word_scan_of_one_word(w: Seq<char>)
    requires
        forall|j: int| 0 <= j < w.len() ==> !is_ascii_ws(#[trigger] w[j]),
    ensures
        word_scan(w) == (Seq::<Seq<char>>::empty(), w),
    decreases w.len(),
{
    if w.len() > 0 {
        lemma_word_scan_of_one_word(w.drop_last());
        assert(w.drop_last().push(w.last()) =~= w);
    }
}

/// A word followed by a space: one finished word.
pub proof fn lemma_word_scan_word_space(w: Seq<char>)
    requires
        w.len() > 0,
        forall|j: int| 0 <= j < w.len() ==> !is_ascii_ws(#[trigger] w[j]),
    ensures
        word_scan(w + seq![' ']) == (seq![w], Seq::<char>::empty()),
{
    lemma_word_scan_of_one_word(w);
    assert((w + seq![' ']).drop_last() =~= w);
}

} // verus!
