//! The text operations on strings, each proved against the model.

use crate::text::lemmas::{lemma_first_newline, lemma_join_push, lemma_trim_is_subrange};
use crate::text::model::{
    contains, is_whitespace, join, lines, occurs_at, string_views, strip_cr, trim,
};
use vstd::prelude::*;
use vstd::string::*;

verus! {

/// Tests a character for membership in the Unicode `White_Space` set.
pub fn char_is_whitespace(c: char) -> (b: bool)
    ensures
        b == is_whitespace(c),
{
    let n: u32 = c as u32;
    (0x09 <= n && n <= 0x0D) || n == 0x20 || n == 0x85 || n == 0xA0 || n == 0x1680 || (0x2000 <= n
        && n <= 0x200A) || n == 0x2028 || n == 0x2029 || n == 0x202F || n == 0x205F || n == 0x3000
}

/// Copies the characters of a string slice into a buffer.
pub fn to_chars(s: &str) -> (v: Vec<char>)
    ensures
        v@ == s@,
{
    let mut v: Vec<char> = Vec::new();
    for c in it: s.chars()
        invariant
            v@ == it.seq().take(it.index() as int),
            it.seq() == s@,
    {
        v.push(c);
    }
    v
}

/// Appends `c` to `s` by `String::push`. The contract is taken on trust from
/// the documentation of `push`: afterwards the string is what it was, with
/// `c` as one more character at its end.
#[verifier::external_body]
fn push_char(s: &mut String, c: char)
    ensures
        final(s)@ == old(s)@.push(c),
{
    s.push(c)
}

/// Builds a string from the characters `v[from..to]`.
fn string_of_range(v: &Vec<char>, from: usize, to: usize) -> (s: String)
    requires
        from <= to <= v.len(),
    ensures
        s@ == v@.subrange(from as int, to as int),
{
    let mut s = String::new();
    let mut i: usize = from;
    while i < to
        invariant
            from <= i <= to <= v.len(),
            s@ == v@.subrange(from as int, i as int),
        decreases to - i,
    {
        push_char(&mut s, v[i]);
        assert(v@.subrange(from as int, i as int).push(v@[i as int]) =~= v@.subrange(
            from as int,
            i + 1,
        ));
        i += 1;
    }
    s
}

/// Builds a string from the characters of a buffer.
pub fn to_string(v: &Vec<char>) -> (s: String)
    ensures
        s@ == v@,
{
    let s = string_of_range(v, 0, v.len());
    assert(v@.subrange(0, v.len() as int) =~= v@);
    s
}

/// Whether `pat` stands in `text` at offset `at`.
fn matches_at(text: &Vec<char>, pat: &Vec<char>, at: usize) -> (b: bool)
    requires
        at + pat.len() <= text.len(),
    ensures
        b == occurs_at(text@, pat@, at as int),
{
    let mut i: usize = 0;
    while i < pat.len()
        invariant
            i <= pat.len(),
            at + pat.len() <= text.len(),
            forall|j: int| 0 <= j < i ==> text@[at + j] == pat@[j],
        decreases pat.len() - i,
    {
        if text[at + i] != pat[i] {
            assert(text@.subrange(at as int, at + pat.len())[i as int] != pat@[i as int]);
            return false;
        }
        i += 1;
    }
    assert(text@.subrange(at as int, at + pat.len()) =~= pat@);
    true
}

/// Whether the buffer begins with the characters of `prefix`.
pub fn chars_start_with(text: &Vec<char>, prefix: &str) -> (b: bool)
    ensures
        b == prefix@.is_prefix_of(text@),
{
    let pat = to_chars(prefix);
    if pat.len() > text.len() {
        false
    } else {
        matches_at(text, &pat, 0)
    }
}

/// Whether `s` begins with `prefix`.
pub fn str_starts_with(s: &str, prefix: &str) -> (b: bool)
    ensures
        b == prefix@.is_prefix_of(s@),
{
    let text = to_chars(s);
    chars_start_with(&text, prefix)
}

/// Whether the two strings hold the same text.
pub fn str_equals(a: &str, b: &str) -> (same: bool)
    ensures
        same == (a@ == b@),
{
    let x = to_chars(a);
    let y = to_chars(b);
    if x.len() != y.len() {
        false
    } else {
        let same = matches_at(&x, &y, 0);
        assert(x@.subrange(0, x@.len() as int) =~= x@);
        same
    }
}

/// Whether `needle` stands somewhere in `s`.
pub fn str_contains(s: &str, needle: &str) -> (b: bool)
    ensures
        b == contains(s@, needle@),
{
    let text = to_chars(s);
    let pat = to_chars(needle);
    if pat.len() > text.len() {
        return false;
    }
    let last: usize = text.len() - pat.len();
    let mut i: usize = 0;
    while i < last
        invariant
            i <= last,
            last == text.len() - pat.len(),
            text@ == s@,
            pat@ == needle@,
            forall|j: int| 0 <= j < i ==> !occurs_at(text@, pat@, j),
        decreases last - i,
    {
        if matches_at(&text, &pat, i) {
            return true;
        }
        i += 1;
    }
    matches_at(&text, &pat, last)
}

/// The string without its leading and trailing whitespace.
pub fn trim_str(s: &str) -> (out: String)
    ensures
        out@ == trim(s@),
{
    let v = to_chars(s);
    let mut a: usize = 0;
    while a < v.len() && char_is_whitespace(v[a])
        invariant
            a <= v.len(),
            forall|j: int| 0 <= j < a ==> is_whitespace(#[trigger] v@[j]),
        decreases v.len() - a,
    {
        a += 1;
    }
    let mut b: usize = v.len();
    while b > a && char_is_whitespace(v[b - 1])
        invariant
            a <= b <= v.len(),
            forall|j: int| b <= j < v.len() ==> is_whitespace(#[trigger] v@[j]),
        decreases b,
    {
        b -= 1;
    }
    proof {
        lemma_trim_is_subrange(v@, a as int, b as int);
    }
    string_of_range(&v, a, b)
}

/// The lines of the string, in order.
pub fn split_lines(s: &str) -> (out: Vec<String>)
    ensures
        string_views(out@) == lines(s@),
{
    let v = to_chars(s);
    let mut out: Vec<String> = Vec::new();
    let mut start: usize = 0;
    let mut i: usize = 0;
    assert(v@.skip(0) =~= v@);
    assert(string_views(out@) + lines(v@) =~= lines(v@));
    while i < v.len()
        invariant
            start <= i <= v.len(),
            forall|j: int| start <= j < i ==> #[trigger] v@[j] != '\n',
            lines(v@) == string_views(out@) + lines(v@.skip(start as int)),
        decreases v.len() - i,
    {
        if v[i] == '\n' {
            let ghost rest = v@.skip(start as int);
            let ghost before = string_views(out@);
            let end: usize = if i > start && v[i - 1] == '\r' {
                i - 1
            } else {
                i
            };
            let line = string_of_range(&v, start, end);
            proof {
                assert forall|j: int| 0 <= j < i - start implies #[trigger] rest[j] != '\n' by {
                    assert(rest[j] == v@[start + j]);
                }
                lemma_first_newline(rest, i - start);
                assert(rest.take(i - start) =~= v@.subrange(start as int, i as int));
                assert(strip_cr(rest.take(i - start)) =~= line@);
                assert(rest.skip(i - start + 1) =~= v@.skip(i + 1));
            }
            out.push(line);
            proof {
                assert(string_views(out@) =~= before.push(line@));
                assert(before + (seq![line@] + lines(v@.skip(i + 1))) =~= before.push(line@)
                    + lines(v@.skip(i + 1)));
            }
            start = i + 1;
        }
        i += 1;
    }
    if start < v.len() {
        let ghost rest = v@.skip(start as int);
        let ghost before = string_views(out@);
        let line = string_of_range(&v, start, v.len());
        proof {
            assert forall|j: int| 0 <= j < rest.len() implies #[trigger] rest[j] != '\n' by {
                assert(rest[j] == v@[start + j]);
            }
            lemma_first_newline(rest, rest.len() as int);
            assert(rest =~= line@);
        }
        out.push(line);
        proof {
            assert(string_views(out@) =~= before + seq![line@]);
        }
    } else {
        assert(string_views(out@) + lines(v@.skip(start as int)) =~= string_views(out@));
    }
    out
}

/// The parts written one after the other with `sep` between neighbours.
pub fn join_strings(parts: &Vec<String>, sep: &str) -> (out: String)
    ensures
        out@ == join(string_views(parts@), sep@),
{
    let mut out = String::new();
    let mut i: usize = 0;
    while i < parts.len()
        invariant
            i <= parts.len(),
            out@ == join(string_views(parts@).take(i as int), sep@),
        decreases parts.len() - i,
    {
        if i > 0 {
            out.append(sep);
        }
        out.append(parts[i].as_str());
        proof {
            let views = string_views(parts@);
            lemma_join_push(views.take(i as int), views[i as int], sep@);
            assert(views.take(i as int).push(views[i as int]) =~= views.take(i + 1));
            assert(Seq::<char>::empty() + views[i as int] =~= views[i as int]);
        }
        i += 1;
    }
    assert(string_views(parts@).take(parts.len() as int) =~= string_views(parts@));
    out
}

} // verus!
