//! Strings as sequences of characters: conversions between `str`, `String`
//! and `Vec<char>`, on which the rest of the library computes.

use vstd::prelude::*;

verus! {

/// `String::push` appends the given character to the end of the string and
/// leaves what was there before in place.
pub assume_specification[ String::push ](s: &mut String, ch: char)
    ensures
        final(s)@ == old(s)@.push(ch),
;

/// The characters of `s`, in order.
pub(crate) fn to_chars(s: &str) -> (v: Vec<char>)
    ensures
        v@ == s@,
{
    let mut v: Vec<char> = Vec::new();
    for c in it: s.chars()
        invariant
            v@ == it.seq().take(it.index() as int),
            it.seq() == s@,
    {
        v.push(c);
    }
    v
}

/// The string made of the characters `v[from..to]`.
pub(crate) fn substring(v: &Vec<char>, from: usize, to: usize) -> (s: String)
    requires
        from <= to <= v.len(),
    ensures
        s@ == v@.subrange(from as int, to as int),
{
    let mut s = String::new();
    let mut i: usize = from;
    while i < to
        invariant
            from <= i <= to <= v.len(),
            s@ == v@.subrange(from as int, i as int),
        decreases to - i,
    {
        s.push(v[i]);
        i += 1;
    }
    s
}

/// The string made of the characters of `v`.
pub(crate) fn from_chars(v: &Vec<char>) -> (s: String)
    ensures
        s@ == v@,
{
    let s = substring(v, 0, v.len());
    assert(v@.subrange(0, v.len() as int) == v@);
    s
}

/// Whether `v[at..]` starts with `pat`.
pub open spec fn has_at(v: Seq<char>, at: int, pat: Seq<char>) -> bool {
    &&& 0 <= at
    &&& at + pat.len() <= v.len()
    &&& v.subrange(at, at + pat.len()) == pat
}

/// Tests whether `pat` stands in `v` at index `at`.
pub(crate) fn matches_at(v: &Vec<char>, at: usize, pat: &Vec<char>) -> (b: bool)
    ensures
        b == has_at(v@, at as int, pat@),
{
    if at > v.len() || pat.len() > v.len() - at {
        return false;
    }
    let mut i: usize = 0;
    while i < pat.len()
        invariant
            i <= pat.len(),
            at + pat.len() <= v.len(),
            v@.subrange(at as int, at + i) == pat@.take(i as int),
        decreases pat.len() - i,
    {
        if v[at + i] != pat[i] {
            assert(v@.subrange(at as int, at + pat.len())[i as int] != pat@[i as int]);
            return false;
        }
        assert(v@.subrange(at as int, at + i + 1) == v@.subrange(at as int, at + i).push(
            v@[at + i],
        ));
        assert(pat@.take(i + 1) == pat@.take(i as int).push(pat@[i as int]));
        i += 1;
    }
    assert(pat@.take(pat.len() as int) == pat@);
    true
}

/// Tests whether `v` starts with `prefix`.
pub(crate) fn starts_with(v: &Vec<char>, prefix: &Vec<char>) -> (b: bool)
    ensures
        b == prefix@.is_prefix_of(v@),
{
    let b = matches_at(v, 0, prefix);
    proof {
        if b {
            assert(v@.subrange(0, 0 + prefix@.len() as int) == prefix@);
        }
        if prefix@.is_prefix_of(v@) {
            assert(v@.subrange(0, 0 + prefix@.len() as int) == prefix@);
        }
    }
    b
}

/// The lines of `s` that a line feed has closed, without the line feeds.
pub open spec fn closed_lines(s: Seq<char>) -> Seq<Seq<char>>
    decreases s.len(),
{
    if s.len() == 0 {
        Seq::empty()
    } else if s.last() == '\n' {
        closed_lines(s.drop_last()).push(open_line(s.drop_last()))
    } else {
        closed_lines(s.drop_last())
    }
}

/// What follows the last line feed of `s`: the line that is still open.
pub open spec fn open_line(s: Seq<char>) -> Seq<char>
    decreases s.len(),
{
    if s.len() == 0 {
        Seq::empty()
    } else if s.last() == '\n' {
        Seq::empty()
    } else {
        open_line(s.drop_last()).push(s.last())
    }
}

/// The lines one after the other, each closed by a line feed.
pub open spec fn closed(lines: Seq<Seq<char>>) -> Seq<char>
    decreases lines.len(),
{
    if lines.len() == 0 {
        Seq::empty()
    } else {
        closed(lines.drop_last()) + lines.last() + seq!['\n']
    }
}

/// A text is its closed lines, each with its line feed, and then its open
/// line; and no line holds a line feed. So the lines of a text are the
/// pieces between its line feeds and nothing else.
pub proof fn lemma_lines_rebuild(s: Seq<char>)
    ensures
        closed(closed_lines(s)) + open_line(s) == s,
        !open_line(s).contains('\n'),
        forall|i: int|
            0 <= i < closed_lines(s).len() ==> !(#[trigger] closed_lines(s)[i]).contains('\n'),
    decreases s.len(),
{
    if s.len() > 0 {
        let t = s.drop_last();
        lemma_lines_rebuild(t);
        assert(s == t.push(s.last()));
        if s.last() == '\n' {
            let done = closed_lines(t).push(open_line(t));
            assert(done.drop_last() == closed_lines(t));
            assert(closed(done) == closed(closed_lines(t)) + open_line(t) + seq!['\n']);
            assert(closed(done) + Seq::<char>::empty() == t.push('\n'));
            assert forall|i: int| 0 <= i < done.len() implies !(#[trigger] done[i]).contains(
                '\n',
            ) by {
                if i < closed_lines(t).len() {
                    assert(done[i] == closed_lines(t)[i]);
                }
            }
        } else {
            let line = open_line(t).push(s.last());
            assert(closed(closed_lines(t)) + line == (closed(closed_lines(t)) + open_line(
                t,
            )).push(s.last()));
            if line.contains('\n') {
                let k = choose|k: int| 0 <= k < line.len() && line[k] == '\n';
                assert(open_line(t)[k] == '\n');
                assert(open_line(t).contains('\n'));
            }
        }
    } else {
        assert(closed(closed_lines(s)) + open_line(s) =~= s);
    }
}

/// A closed line without the carriage return that may end it.
pub open spec fn strip_cr(line: Seq<char>) -> Seq<char> {
    if line.len() > 0 && line.last() == '\r' {
        line.drop_last()
    } else {
        line
    }
}

/// The lines of a text. A line ends at a line feed, or at a carriage return
/// followed by one; neither belongs to the line. What follows the last line
/// feed is a line too unless it is empty.
pub open spec fn text_lines(s: Seq<char>) -> Seq<Seq<char>> {
    let closed = closed_lines(s).map_values(|line: Seq<char>| strip_cr(line));
    if open_line(s).len() > 0 {
        closed.push(open_line(s))
    } else {
        closed
    }
}

/// Splits a text into its lines.
pub fn lines(text: &str) -> (result: Vec<String>)
    ensures
        result.deep_view() == text_lines(text@),
{
    let v = to_chars(text);
    let mut result: Vec<String> = Vec::new();
    let mut start: usize = 0;
    let mut i: usize = 0;
    assert(v@.take(0) == Seq::<char>::empty());
    assert(result.deep_view() == closed_lines(v@.take(0)).map_values(
        |line: Seq<char>| strip_cr(line),
    ));
    while i < v.len()
        invariant
            start <= i <= v.len(),
            v@ == text@,
            open_line(v@.take(i as int)) == v@.subrange(start as int, i as int),
            result.deep_view() == closed_lines(v@.take(i as int)).map_values(
                |line: Seq<char>| strip_cr(line),
            ),
        decreases v.len() - i,
    {
        let ghost before = v@.take(i as int);
        let ghost after = v@.take(i + 1);
        assert(after.drop_last() == before);
        assert(after.last() == v@[i as int]);
        if v[i] == '\n' {
            let end: usize = if start < i && v[i - 1] == '\r' {
                i - 1
            } else {
                i
            };
            let line = substring(&v, start, end);
            let ghost raw = v@.subrange(start as int, i as int);
            assert(line@ == strip_cr(raw)) by {
                if start < i && v@[i - 1] == '\r' {
                    assert(raw.last() == '\r');
                    assert(raw.drop_last() == v@.subrange(start as int, i - 1));
                } else if start < i {
                    assert(raw.last() == v@[i - 1]);
                }
            }
            let ghost old_lines = result.deep_view();
            result.push(line);
            assert(result.deep_view() == old_lines.push(strip_cr(raw)));
            assert(closed_lines(after) == closed_lines(before).push(raw));
            assert(closed_lines(after).map_values(|l: Seq<char>| strip_cr(l)) == old_lines.push(
                strip_cr(raw),
            ));
            start = i + 1;
            assert(open_line(after) == v@.subrange(start as int, i + 1));
        } else {
            assert(open_line(after) == open_line(before).push(v@[i as int]));
            assert(v@.subrange(start as int, i + 1) == v@.subrange(start as int, i as int).push(
                v@[i as int],
            ));
        }
        i += 1;
    }
    assert(v@.take(v.len() as int) == v@);
    if start < v.len() {
        let line = substring(&v, start, v.len());
        let ghost old_lines = result.deep_view();
        result.push(line);
        assert(result.deep_view() == old_lines.push(open_line(v@)));
    }
    result
}

/// The white space of Unicode: what `char::is_whitespace` accepts.
pub open spec fn is_space(c: char) -> bool {
    ||| '\u{9}' <= c <= '\u{d}'
    ||| c == ' '
    ||| c == '\u{85}'
    ||| c == '\u{a0}'
    ||| c == '\u{1680}'
    ||| '\u{2000}' <= c <= '\u{200a}'
    ||| c == '\u{2028}'
    ||| c == '\u{2029}'
    ||| c == '\u{202f}'
    ||| c == '\u{205f}'
    ||| c == '\u{3000}'
}

/// Tests whether a character is white space.
pub(crate) fn is_whitespace(c: char) -> (b: bool)
    ensures
        b == is_space(c),
{
    ('\u{9}' <= c && c <= '\u{d}') || c == ' ' || c == '\u{85}' || c == '\u{a0}' || c
        == '\u{1680}' || ('\u{2000}' <= c && c <= '\u{200a}') || c == '\u{2028}' || c
        == '\u{2029}' || c == '\u{202f}' || c == '\u{205f}' || c == '\u{3000}'
}

/// `s` without the white space at its start.
pub open spec fn trim_start(s: Seq<char>) -> Seq<char>
    decreases s.len(),
{
    if s.len() > 0 && is_space(s.first()) {
        trim_start(s.drop_first())
    } else {
        s
    }
}

/// `s` without the white space at its end.
pub open spec fn trim_end(s: Seq<char>) -> Seq<char>
    decreases s.len(),
{
    if s.len() > 0 && is_space(s.last()) {
        trim_end(s.drop_last())
    } else {
        s
    }
}

/// `s` without the white space at its start and at its end.
pub open spec fn trimmed(s: Seq<char>) -> Seq<char> {
    trim_end(trim_start(s))
}

/// The bounds of what is left of `v` when the white space at both ends is
/// taken off.
pub(crate) fn trim_bounds(v: &Vec<char>) -> (bounds: (usize, usize))
    ensures
        bounds.0 <= bounds.1 <= v.len(),
        v@.subrange(bounds.0 as int, bounds.1 as int) == trimmed(v@),
{
    let mut from: usize = 0;
    assert(v@.skip(0) == v@);
    while from < v.len() && is_whitespace(v[from])
        invariant
            from <= v.len(),
            trim_start(v@) == trim_start(v@.skip(from as int)),
        decreases v.len() - from,
    {
        assert(v@.skip(from as int).drop_first() == v@.skip(from + 1));
        from += 1;
    }
    let ghost rest = v@.skip(from as int);
    assert(trim_start(v@) == rest);
    let mut to: usize = v.len();
    assert(rest.take(rest.len() as int) == rest);
    while to > from && is_whitespace(v[to - 1])
        invariant
            from <= to <= v.len(),
            rest == v@.skip(from as int),
            trim_end(rest) == trim_end(rest.take(to - from)),
        decreases to,
    {
        assert(rest.take(to - from).last() == v@[to - 1]);
        assert(rest.take(to - from).drop_last() == rest.take(to - from - 1));
        to -= 1;
    }
    proof {
        let kept = rest.take(to - from);
        if to > from {
            assert(kept.last() == v@[to - 1]);
        }
        assert(trim_end(kept) == kept);
        assert(kept == v@.subrange(from as int, to as int));
    }
    (from, to)
}

/// `s` without the occurrences of `pat`, found from the left, none
/// overlapping another. `pat` is not empty.
pub open spec fn without(s: Seq<char>, pat: Seq<char>) -> Seq<char>
    decreases s.len(),
{
    if pat.len() == 0 || s.len() < pat.len() {
        s
    } else if has_at(s, 0, pat) {
        without(s.skip(pat.len() as int), pat)
    } else {
        seq![s[0]] + without(s.skip(1), pat)
    }
}

/// Removes every occurrence of `pat` from `v`.
pub(crate) fn remove_all(v: &Vec<char>, pat: &Vec<char>) -> (out: Vec<char>)
    requires
        pat.len() > 0,
    ensures
        out@ == without(v@, pat@),
{
    let mut out: Vec<char> = Vec::new();
    let mut i: usize = 0;
    assert(v@.skip(0) == v@);
    while i < v.len()
        invariant
            i <= v.len(),
            pat.len() > 0,
            out@ + without(v@.skip(i as int), pat@) == without(v@, pat@),
        decreases v.len() - i,
    {
        let ghost rest = v@.skip(i as int);
        if matches_at(v, i, pat) {
            assert(has_at(rest, 0, pat@)) by {
                assert(rest.subrange(0, 0 + pat@.len() as int) == v@.subrange(
                    i as int,
                    i + pat@.len() as int,
                ));
            }
            assert(rest.skip(pat@.len() as int) == v@.skip(i + pat@.len() as int));
            i += pat.len();
        } else {
            assert(!has_at(rest, 0, pat@)) by {
                if has_at(rest, 0, pat@) {
                    assert(rest.subrange(0, 0 + pat@.len() as int) == v@.subrange(
                        i as int,
                        i + pat@.len() as int,
                    ));
                }
            }
            assert(rest.skip(1) == v@.skip(i + 1));
            if v.len() - i >= pat.len() {
                assert(out@.push(v@[i as int]) + without(rest.skip(1), pat@) == out@ + (seq![
                    rest[0],
                ] + without(rest.skip(1), pat@)));
                out.push(v[i]);
                i += 1;
            } else {
                // too short to hold the pattern: the rest stays as it is
                let ghost done = out@;
                let mut k: usize = i;
                while k < v.len()
                    invariant
                        i <= k <= v.len(),
                        out@ == done + v@.subrange(i as int, k as int),
                    decreases v.len() - k,
                {
                    out.push(v[k]);
                    k += 1;
                }
                assert(v@.subrange(i as int, v.len() as int) == rest);
                assert(v@.skip(v.len() as int).len() == 0);
                assert(out@ + without(v@.skip(v.len() as int), pat@) == out@);
                i = v.len();
            }
        }
    }
    assert(v@.skip(v.len() as int).len() == 0);
    assert(out@ + Seq::<char>::empty() == out@);
    out
}

/// An ASCII capital as its small letter; any other character as itself.
pub open spec fn lower(c: char) -> char {
    if 'A' <= c <= 'Z' {
        ((c as u8) + 32) as char
    } else {
        c
    }
}

/// Whether `s` is `word` but for the case of ASCII letters. `word` is
/// written in small letters.
pub open spec fn is_word(s: Seq<char>, word: Seq<char>) -> bool {
    &&& s.len() == word.len()
    &&& forall|i: int| 0 <= i < s.len() ==> lower(s[i]) == word[i]
}

/// The small letter of an ASCII capital.
pub(crate) fn to_lower(c: char) -> (l: char)
    ensures
        l == lower(c),
{
    if 'A' <= c && c <= 'Z' {
        ((c as u8) + 32) as char
    } else {
        c
    }
}

/// Tests whether `v[from..to]` is `word` but for the case of ASCII letters.
pub(crate) fn is_word_at(v: &Vec<char>, from: usize, to: usize, word: &str) -> (b: bool)
    requires
        from <= to <= v.len(),
    ensures
        b == is_word(v@.subrange(from as int, to as int), word@),
{
    let w = to_chars(word);
    if to - from != w.len() {
        return false;
    }
    let ghost s = v@.subrange(from as int, to as int);
    let mut i: usize = 0;
    while i < w.len()
        invariant
            i <= w.len(),
            from <= to <= v.len(),
            to - from == w.len(),
            w@ == word@,
            s == v@.subrange(from as int, to as int),
            forall|j: int| 0 <= j < i ==> lower(s[j]) == w@[j],
        decreases w.len() - i,
    {
        if to_lower(v[from + i]) != w[i] {
            assert(lower(s[i as int]) != w@[i as int]);
            return false;
        }
        i += 1;
    }
    true
}

} // verus!
