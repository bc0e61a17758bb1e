//! The package manifest (`Cargo.toml`) and the lookup of its fields.

use vstd::prelude::*;
use vstd::string::*;

use crate::error::XtaskError;
use crate::text::{
    ascii_words, chars_of, line_scan, line_spans, lines, span_equals, spans_view, spans_within,
    is_ascii_ws, strip_cr, trim, trim_span, word_spans,
};

verus! {

/// The value that a line gives `field`: the line's words are `name`, `=`,
/// `value` and possibly more, where `name` without surrounding whitespace is
/// `field`.
pub open spec fn line_field_value(line: Seq<char>, field: Seq<char>) -> Option<Seq<char>> {
    let w = ascii_words(line);
    if w.len() >= 3 && trim(w[0]) == field && w[1] == seq!['='] {
        Some(w[2])
    } else {
        None
    }
}

/// The value that the first line naming `field` gives it.
pub open spec fn first_field_value(ls: Seq<Seq<char>>, field: Seq<char>) -> Option<Seq<char>>
    decreases ls.len(),
{
    if ls.len() == 0 {
        None
    } else if line_field_value(ls[0], field) is Some {
        line_field_value(ls[0], field)
    } else {
        first_field_value(ls.drop_first(), field)
    }
}

/// The raw value (quotes included) that the manifest text gives `field`.
pub open spec fn raw_field_value(contents: Seq<char>, field: Seq<char>) -> Option<Seq<char>> {
    first_field_value(lines(contents), field)
}

/// A value that starts and ends with a double quote, each its own character.
pub open spec fn is_quoted(v: Seq<char>) -> bool {
    v.len() >= 2 && v[0] == '"' && v.last() == '"'
}

/// A quoted value without its quotes.
pub open spec fn unquote(v: Seq<char>) -> Seq<char> {
    v.subrange(1, v.len() - 1)
}

/// Whether a lookup of `field` can be answered: the field is missing, or its
/// value is quoted.
pub open spec fn field_readable(contents: Seq<char>, field: Seq<char>) -> bool {
    match raw_field_value(contents, field) {
        Some(v) => is_quoted(v),
        None => true,
    }
}

/// What a lookup of `field` in the manifest `m` (its path and its text) gives:
/// the unquoted value of the first line naming it, or the error that names
/// the field and the manifest's path.
pub open spec fn lookup_outcome(
    m: (Seq<char>, Seq<char>),
    field: Seq<char>,
    r: Result<&str, XtaskError>,
) -> bool {
    match raw_field_value(m.1, field) {
        Some(v) => r matches Ok(s) && s@ == unquote(v),
        None => r matches Err(XtaskError::FieldNotFound { field: f, path: p }) && f@ == field
            && p@ == m.0,
    }
}

/// The span, in `cs`, of the raw value that `cs` gives `field`.
fn find_raw_value(cs: &Vec<char>, field: &Vec<char>) -> (r: Option<(usize, usize)>)
    ensures
        match r {
            Some(sp) => sp.0 <= sp.1 <= cs@.len() && raw_field_value(cs@, field@) == Some(
                cs@.subrange(sp.0 as int, sp.1 as int),
            ),
            None => raw_field_value(cs@, field@) is None,
        },
{
    let ls = line_spans(cs);
    let ghost all = lines(cs@);
    let eq: Vec<char> = vec!['='];
    let n = ls.len();
    assert(all.skip(0) =~= all);
    for i in 0..n
        invariant
            n == ls@.len(),
            all == lines(cs@),
            all == spans_view(cs@, ls@),
            spans_within(ls@, 0, cs@.len() as int),
            eq@ == seq!['='],
            first_field_value(all, field@) == first_field_value(all.skip(i as int), field@),
    {
        let (lo, hi) = ls[i];
        let ghost line = all[i as int];
        assert(line == cs@.subrange(lo as int, hi as int));
        assert(all.skip(i as int).drop_first() =~= all.skip(i + 1));
        assert(all.skip(i as int)[0] == line);
        let w = word_spans(cs, lo, hi);
        let ghost ws = ascii_words(line);
        if w.len() >= 3 {
            let (a0, b0) = w[0];
            let (a1, b1) = w[1];
            let (a2, b2) = w[2];
            assert(ws[0] == cs@.subrange(a0 as int, b0 as int));
            assert(ws[1] == cs@.subrange(a1 as int, b1 as int));
            assert(ws[2] == cs@.subrange(a2 as int, b2 as int));
            let (t0, t1) = trim_span(cs, a0, b0);
            if span_equals(cs, t0, t1, field) && span_equals(cs, a1, b1, &eq) {
                assert(line_field_value(line, field@) == Some(ws[2]));
                return Some((a2, b2));
            }
        }
    }
    assert(all.skip(n as int) =~= Seq::<Seq<char>>::empty());
    None
}

/// A package manifest: where it was read from, and its text.
#[derive(Debug)]
pub struct CargoToml {
    path: String,
    contents: String,
}

impl View for CargoToml {
    /// The manifest's path and its text.
    type V = (Seq<char>, Seq<char>);

    closed spec fn view(&self) -> (Seq<char>, Seq<char>) {
        (self.path@, self.contents@)
    }
}

impl CargoToml {
    /// A manifest read from `path` with the text `contents`.
    pub fn new(path: String, contents: String) -> (r: CargoToml)
        ensures
            r@ == (path@, contents@),
    {
        CargoToml { path, contents }
    }

    /// The package version: the value of the field `version`.
    pub fn version(&self) -> (r: Result<&str, XtaskError>)
        requires
            field_readable(self@.1, "version"@),
        ensures
            lookup_outcome(self@, "version"@, r),
    {
        self.get("version")
    }

    /// Whether `get(field)` can answer: the field is missing from the
    /// manifest, or the value of its first line is quoted.
    pub fn can_get(&self, field: &str) -> (b: bool)
        ensures
            b == field_readable(self@.1, field@),
    {
        let cs = chars_of(self.contents.as_str());
        let f = chars_of(field);
        match find_raw_value(&cs, &f) {
            Some((a, b)) => b - a >= 2 && cs[a] == '"' && cs[b - 1] == '"',
            None => true,
        }
    }

    /// The value of `field`: on the first line whose words are `field`, `=`
    /// and a quoted value, that value without its quotes.
    pub fn get(&self, field: &str) -> (r: Result<&str, XtaskError>)
        requires
            field_readable(self@.1, field@),
        ensures
            lookup_outcome(self@, field@, r),
    {
        let text = self.contents.as_str();
        let cs = chars_of(text);
        let f = chars_of(field);
        match find_raw_value(&cs, &f) {
            Some((a, b)) => {
                let v = text.substring_char(a + 1, b - 1);
                assert(v@ =~= unquote(cs@.subrange(a as int, b as int)));
                Ok(v)
            },
            None => Err(
                XtaskError::FieldNotFound {
                    field: String::from_str(field),
                    path: self.path.clone(),
                },
            ),
        }
    }
}

/// Whether some line of `text` names `field`.
pub open spec fn names_field(text: Seq<char>, field: Seq<char>) -> bool {
    exists|k: int| 0 <= k < lines(text).len() && (#[trigger] line_field_value(lines(text)[k], field)) is Some
}

proof fn lemma_first_field_value_skips(a: Seq<Seq<char>>, b: Seq<Seq<char>>, field: Seq<char>)
    requires
        forall|k: int| 0 <= k < a.len() ==> (#[trigger] line_field_value(a[k], field)) is None,
    ensures
        first_field_value(a + b, field) == first_field_value(b, field),
    decreases a.len(),
{
    if a.len() == 0 {
        assert(a + b =~= b);
    } else {
        assert((a + b)[0] == a[0]);
        assert((a + b).drop_first() =~= a.drop_first() + b);
        assert forall|k: int| 0 <= k < a.drop_first().len() implies (#[trigger] line_field_value(
            a.drop_first()[k],
            field,
        )) is None by {
            assert(a.drop_first()[k] == a[k + 1]);
        }
        lemma_first_field_value_skips(a.drop_first(), b, field);
    }
}

/// The search for a field reads the whole text: when no line of `prefix`
/// names the field, whatever those lines are (blank, comments, other
/// fields), the value found in `prefix`, a line feed and the line `line` is
/// the value that `line` gives.
pub proof fn lemma_search_passes_other_lines(prefix: Seq<char>, line: Seq<char>, field: Seq<char>)
    requires
        !names_field(prefix, field),
        forall|j: int| 0 <= j < line.len() ==> line[j] != '\n',
    ensures
        raw_field_value(prefix + seq!['\n'] + line, field) == line_field_value(line, field),
{
    let st = line_scan(prefix);
    let head = prefix + seq!['\n'];
    assert(head.drop_last() =~= prefix);
    assert(line_scan(head) == (st.0.push(strip_cr(st.1)), Seq::<char>::empty()));
    crate::text::lemma_line_scan_append(head, line);
    crate::text::lemma_line_scan_of_one_line(line);
    assert(st.0.push(strip_cr(st.1)) + Seq::<Seq<char>>::empty() =~= st.0.push(strip_cr(st.1)));
    let a = st.0.push(strip_cr(st.1));
    let b: Seq<Seq<char>> = if line.len() > 0 {
        seq![line]
    } else {
        Seq::empty()
    };
    if line.len() > 0 {
        assert(a.push(line) =~= a + b);
    } else {
        assert(a =~= a + b);
    }
    assert(lines(head + line) == a + b);
    let lp = lines(prefix);
    assert(forall|k: int| 0 <= k < lp.len() ==> (#[trigger] line_field_value(lp[k], field)) is None);
    assert forall|k: int| 0 <= k < a.len() implies (#[trigger] line_field_value(a[k], field))
        is None by {
        if k < st.0.len() {
            assert(a[k] == st.0[k]);
            assert(lp[k] == st.0[k]);
            assert(line_field_value(lp[k], field) is None);
        } else {
            assert(a[k] == strip_cr(st.1));
            if st.1.len() > 0 {
                assert(lp[k] == st.1);
                assert(line_field_value(lp[k], field) is None);
                if st.1.last() == '\r' {
                    assert(st.1.drop_last().push('\r') =~= st.1);
                    crate::text::lemma_words_ignore_trailing_ascii_ws(st.1.drop_last(), '\r');
                }
            } else {
                assert(strip_cr(st.1) =~= Seq::<char>::empty());
                assert(ascii_words(Seq::<char>::empty()) =~= Seq::<Seq<char>>::empty());
            }
        }
    }
    lemma_first_field_value_skips(a, b, field);
    if line.len() == 0 {
        assert(ascii_words(line) =~= Seq::<Seq<char>>::empty());
        assert(b.len() == 0);
    } else {
        assert(b[0] == line);
        assert(b.drop_first() =~= Seq::<Seq<char>>::empty());
        assert(first_field_value(b.drop_first(), field) is None);
    }
}

/// A line `name = value`, with single spaces, gives `value` to the field
/// `name`: for every name that is its own trimmed form and every value,
/// neither holding ASCII whitespace.
pub proof fn lemma_assignment_line_gives_value(name: Seq<char>, value: Seq<char>)
    requires
        name.len() > 0,
        value.len() > 0,
        forall|j: int| 0 <= j < name.len() ==> !is_ascii_ws(#[trigger] name[j]),
        forall|j: int| 0 <= j < value.len() ==> !is_ascii_ws(#[trigger] value[j]),
        trim(name) == name,
    ensures
        line_field_value(name + " = "@ + value, name) == Some(value),
{
    broadcast use vstd::string::group_string_axioms;

    reveal_strlit(" = ");
    let eq: Seq<char> = seq!['='];
    let first = name + seq![' '];
    let second = eq + seq![' '];
    assert(name + " = "@ + value =~= first + second + value);
    crate::text::lemma_word_scan_word_space(name);
    assert forall|j: int| 0 <= j < eq.len() implies !is_ascii_ws(#[trigger] eq[j]) by {}
    crate::text::lemma_word_scan_word_space(eq);
    crate::text::lemma_word_scan_append(first, second);
    assert(seq![name] + seq![eq] =~= seq![name, eq]);
    crate::text::lemma_word_scan_append(first + second, value);
    crate::text::lemma_word_scan_of_one_word(value);
    assert(seq![name, eq] + Seq::<Seq<char>>::empty() =~= seq![name, eq]);
    assert(seq![name, eq].push(value) =~= seq![name, eq, value]);
    assert(ascii_words(name + " = "@ + value) == seq![name, eq, value]);
}

/// A manifest whose lines name no field before a line `name = value` gives
/// that value, whatever came before.
pub proof fn lemma_field_after_other_lines(prefix: Seq<char>, name: Seq<char>, value: Seq<char>)
    requires
        !names_field(prefix, name),
        name.len() > 0,
        value.len() > 0,
        forall|j: int| 0 <= j < name.len() ==> !is_ascii_ws(#[trigger] name[j]),
        forall|j: int| 0 <= j < value.len() ==> !is_ascii_ws(#[trigger] value[j]),
        trim(name) == name,
    ensures
        raw_field_value(prefix + seq!['\n'] + (name + " = "@ + value), name) == Some(value),
{
    broadcast use vstd::string::group_string_axioms;

    reveal_strlit(" = ");
    let line = name + " = "@ + value;
    assert forall|j: int| 0 <= j < line.len() implies line[j] != '\n' by {
        if j < name.len() {
            assert(line[j] == name[j]);
        } else if j >= name.len() + 3 {
            assert(line[j] == value[j - name.len() - 3]);
        }
    }
    lemma_search_passes_other_lines(prefix, line, name);
    lemma_assignment_line_gives_value(name, value);
}

/// After any lines that name no version, a line `version = "X"` is what a
/// lookup of the version reads: its value is quoted, so the lookup can be
/// made, and the answer is `X`.
pub proof fn lemma_version_line_is_read(prefix: Seq<char>, x: Seq<char>)
    requires
        !names_field(prefix, "version"@),
        forall|j: int| 0 <= j < x.len() ==> !is_ascii_ws(#[trigger] x[j]),
    ensures
        ({
            let text = prefix + seq!['\n'] + ("version"@ + " = "@ + (seq!['"'] + x + seq!['"']));
            &&& field_readable(text, "version"@)
            &&& raw_field_value(text, "version"@) matches Some(v) && unquote(v) == x
        }),
{
    broadcast use vstd::string::group_string_axioms;

    reveal_strlit("version");
    let name = "version"@;
    let value = seq!['"'] + x + seq!['"'];
    assert forall|j: int| 0 <= j < name.len() implies !is_ascii_ws(#[trigger] name[j]) by {}
    assert forall|j: int| 0 <= j < value.len() implies !is_ascii_ws(#[trigger] value[j]) by {
        if 0 < j < value.len() - 1 {
            assert(value[j] == x[j - 1]);
        }
    }
    assert(trim(name) == name) by {
        assert(!crate::text::is_ws(name[0]));
        assert(crate::text::trim_start(name) == name);
        assert(!crate::text::is_ws(name.last()));
    }
    lemma_field_after_other_lines(prefix, name, value);
    assert(unquote(value) =~= x);
}

} // verus!
