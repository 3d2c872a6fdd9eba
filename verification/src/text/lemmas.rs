//! Facts about the text model.

use crate::text::model::{
    contains, ends_with_cr, first_newline, is_whitespace, join, join_offset, lines, occurs_at,
    segments,
    strip_all, strip_cr, trim, trim_end, trim_start,
};
use vstd::prelude::*;

verus! {

/// Trimming at the front removes exactly the leading run of whitespace.
pub proof fn lemma_trim_start_is_skip(s: Seq<char>, a: int)
    requires
        0 <= a <= s.len(),
        forall|j: int| 0 <= j < a ==> is_whitespace(#[trigger] s[j]),
        a == s.len() || !is_whitespace(s[a]),
    ensures
        trim_start(s) == s.skip(a),
    decreases a,
{
    if a == 0 {
        assert(s.skip(0) =~= s);
    } else {
        let rest = s.drop_first();
        assert forall|j: int| 0 <= j < a - 1 implies is_whitespace(#[trigger] rest[j]) by {
            assert(rest[j] == s[j + 1]);
        }
        lemma_trim_start_is_skip(rest, a - 1);
        assert(rest.skip(a - 1) =~= s.skip(a));
    }
}

/// Trimming at the back removes exactly the trailing run of whitespace.
pub proof fn lemma_trim_end_is_take(s: Seq<char>, b: int)
    requires
        0 <= b <= s.len(),
        forall|j: int| b <= j < s.len() ==> is_whitespace(#[trigger] s[j]),
        b == 0 || !is_whitespace(s[b - 1]),
    ensures
        trim_end(s) == s.take(b),
    decreases s.len() - b,
{
    if b == s.len() {
        assert(s.take(b) =~= s);
    } else {
        let rest = s.drop_last();
        lemma_trim_end_is_take(rest, b);
        assert(rest.take(b) =~= s.take(b));
    }
}

/// The trimmed text is the stretch between the leading and the trailing run
/// of whitespace.
pub proof fn lemma_trim_is_subrange(s: Seq<char>, a: int, b: int)
    requires
        0 <= a <= b <= s.len(),
        forall|j: int| 0 <= j < a ==> is_whitespace(#[trigger] s[j]),
        forall|j: int| b <= j < s.len() ==> is_whitespace(#[trigger] s[j]),
        a < b ==> !is_whitespace(s[a]) && !is_whitespace(s[b - 1]),
        a == b ==> a == s.len(),
    ensures
        trim(s) == s.subrange(a, b),
{
    lemma_trim_start_is_skip(s, a);
    let t = s.skip(a);
    assert forall|j: int| b - a <= j < t.len() implies is_whitespace(#[trigger] t[j]) by {
        assert(t[j] == s[j + a]);
    }
    lemma_trim_end_is_take(t, b - a);
    assert(t.take(b - a) =~= s.subrange(a, b));
}

/// The first line feed is where the first line feed is.
pub proof fn lemma_first_newline(s: Seq<char>, k: int)
    requires
        0 <= k <= s.len(),
        forall|j: int| 0 <= j < k ==> #[trigger] s[j] != '\n',
        k == s.len() || s[k] == '\n',
    ensures
        first_newline(s) == k,
    decreases k,
{
    if k > 0 {
        let rest = s.drop_first();
        assert forall|j: int| 0 <= j < k - 1 implies #[trigger] rest[j] != '\n' by {
            assert(rest[j] == s[j + 1]);
        }
        lemma_first_newline(rest, k - 1);
    }
}

/// Joining one more part appends the separator and the part, unless it is the
/// first.
pub proof fn lemma_join_push(parts: Seq<Seq<char>>, last: Seq<char>, sep: Seq<char>)
    ensures
        join(parts.push(last), sep) == if parts.len() == 0 {
            last
        } else {
            join(parts, sep) + sep + last
        },
{
    assert(parts.push(last).drop_last() =~= parts);
}

/// The first line feed lies within the text or at its end; before it there
/// is none, and if it lies within, a line feed stands there.
pub proof fn lemma_first_newline_bounds(s: Seq<char>)
    ensures
        0 <= first_newline(s) <= s.len(),
        forall|j: int| 0 <= j < first_newline(s) ==> #[trigger] s[j] != '\n',
        first_newline(s) < s.len() ==> s[first_newline(s)] == '\n',
    decreases s.len(),
{
    if s.len() > 0 && s[0] != '\n' {
        let rest = s.drop_first();
        lemma_first_newline_bounds(rest);
        assert forall|j: int| 0 <= j < first_newline(s) implies #[trigger] s[j] != '\n' by {
            if j > 0 {
                assert(s[j] == rest[j - 1]);
            }
        }
        if first_newline(s) < s.len() {
            assert(s[first_newline(s)] == rest[first_newline(rest)]);
        }
    }
}

/// A text and another with a line feed between them fall into the segments
/// of the first followed by those of the second.
pub proof fn lemma_segments_concat(a: Seq<char>, c: Seq<char>)
    ensures
        segments(a + "\n"@ + c) == segments(a) + segments(c),
    decreases a.len(),
{
    reveal_strlit("\n");
    let whole = a + "\n"@ + c;
    let k = first_newline(a);
    lemma_first_newline_bounds(a);
    assert forall|j: int| 0 <= j < k implies #[trigger] whole[j] != '\n' by {
        assert(whole[j] == a[j]);
    }
    assert(whole[k] == '\n') by {
        if k < a.len() {
            assert(whole[k] == a[k]);
        } else {
            assert(whole[k] == "\n"@[0]);
        }
    }
    lemma_first_newline(whole, k);
    assert(whole.take(k) =~= a.take(k));
    if k == a.len() {
        assert(a.take(k) =~= a);
        assert(whole.skip(k + 1) =~= c);
    } else {
        let rest = a.skip(k + 1);
        assert(whole.skip(k + 1) =~= rest + "\n"@ + c);
        lemma_segments_concat(rest, c);
        assert(seq![a.take(k)] + (segments(rest) + segments(c)) =~= (seq![a.take(k)] + segments(
            rest,
        )) + segments(c));
    }
}

/// Joining a first part with further parts puts the first part, the
/// separator and the joined further parts in a row.
pub proof fn lemma_join_head(first: Seq<char>, rest: Seq<Seq<char>>, sep: Seq<char>)
    requires
        rest.len() > 0,
    ensures
        join(seq![first] + rest, sep) == first + sep + join(rest, sep),
    decreases rest.len(),
{
    let all = seq![first] + rest;
    assert(all.drop_last() =~= seq![first] + rest.drop_last());
    assert(all.last() == rest.last());
    if rest.len() == 1 {
        assert(all.drop_last() =~= seq![first]);
        assert(join(all.drop_last(), sep) == first);
    } else {
        lemma_join_head(first, rest.drop_last(), sep);
        assert(first + sep + join(rest.drop_last(), sep) + sep + rest.last() =~= first + sep + (
        join(rest.drop_last(), sep) + sep + rest.last()));
    }
}

/// Joining two runs of parts is joining each and putting the separator
/// between the two.
pub proof fn lemma_join_concat(a: Seq<Seq<char>>, b: Seq<Seq<char>>, sep: Seq<char>)
    requires
        a.len() > 0,
        b.len() > 0,
    ensures
        join(a + b, sep) == join(a, sep) + sep + join(b, sep),
    decreases b.len(),
{
    let all = a + b;
    assert(all.drop_last() =~= a + b.drop_last());
    assert(all.last() == b.last());
    if b.len() == 1 {
        assert(all.drop_last() =~= a);
    } else {
        lemma_join_concat(a, b.drop_last(), sep);
        assert(join(a, sep) + sep + join(b.drop_last(), sep) + sep + b.last() =~= join(a, sep)
            + sep + (join(b.drop_last(), sep) + sep + b.last()));
    }
}

/// The segments of a text, joined by line feeds, are the text.
pub proof fn lemma_join_segments(s: Seq<char>)
    ensures
        join(segments(s), "\n"@) == s,
    decreases s.len(),
{
    reveal_strlit("\n");
    let k = first_newline(s);
    lemma_first_newline_bounds(s);
    if k < s.len() {
        let rest = s.skip(k + 1);
        lemma_join_segments(rest);
        lemma_segments_nonempty(rest);
        lemma_join_head(s.take(k), segments(rest), "\n"@);
        assert(s.take(k) + "\n"@ + rest =~= s);
    }
}

/// A text has at least one segment.
pub proof fn lemma_segments_nonempty(s: Seq<char>)
    ensures
        segments(s).len() > 0,
{
}

/// No segment holds a line feed.
pub proof fn lemma_segments_no_newline(s: Seq<char>, idx: int, j: int)
    requires
        0 <= idx < segments(s).len(),
        0 <= j < segments(s)[idx].len(),
    ensures
        segments(s)[idx][j] != '\n',
    decreases s.len(),
{
    let k = first_newline(s);
    lemma_first_newline_bounds(s);
    if k < s.len() {
        if idx == 0 {
            assert(s.take(k)[j] == s[j]);
        } else {
            assert(segments(s)[idx] == segments(s.skip(k + 1))[idx - 1]);
            lemma_segments_no_newline(s.skip(k + 1), idx - 1, j);
        }
    }
}

/// Every segment stands in the text.
pub proof fn lemma_segment_occurs(s: Seq<char>, idx: int) -> (at: int)
    requires
        0 <= idx < segments(s).len(),
    ensures
        occurs_at(s, segments(s)[idx], at),
    decreases s.len(),
{
    let k = first_newline(s);
    lemma_first_newline_bounds(s);
    if k < s.len() {
        if idx == 0 {
            assert(s.subrange(0, k) =~= s.take(k));
            0
        } else {
            let rest = s.skip(k + 1);
            assert(segments(s)[idx] == segments(rest)[idx - 1]);
            let at = lemma_segment_occurs(rest, idx - 1);
            let seg = segments(rest)[idx - 1];
            assert(s.subrange(at + k + 1, at + k + 1 + seg.len()) =~= rest.subrange(
                at,
                at + seg.len(),
            ));
            at + k + 1
        }
    } else {
        assert(s.subrange(0, s.len() as int) =~= s);
        0
    }
}

/// What stands in a part of a text stands in the text.
pub proof fn lemma_occurs_within(s: Seq<char>, part: Seq<char>, at: int, p: Seq<char>, i: int)
    requires
        occurs_at(s, part, at),
        occurs_at(part, p, i),
    ensures
        occurs_at(s, p, at + i),
{
    assert(s.subrange(at + i, at + i + p.len()) =~= s.subrange(at, at + part.len()).subrange(
        i,
        i + p.len(),
    ));
}

/// The lines of a text are its segments, each but the last without the
/// carriage return at its end, and without the last where that is empty.
pub proof fn lemma_lines_of_segments(s: Seq<char>)
    ensures
        lines(s) == strip_all(segments(s).drop_last()) + (if segments(s).last().len() == 0 {
            Seq::<Seq<char>>::empty()
        } else {
            seq![segments(s).last()]
        }),
    decreases s.len(),
{
    let k = first_newline(s);
    lemma_first_newline_bounds(s);
    let segs = segments(s);
    if s.len() == 0 {
        assert(segs.drop_last() =~= Seq::<Seq<char>>::empty());
        assert(lines(s) =~= strip_all(segs.drop_last()) + Seq::<Seq<char>>::empty());
    } else if k >= s.len() {
        assert(segs.drop_last() =~= Seq::<Seq<char>>::empty());
        assert(lines(s) =~= strip_all(segs.drop_last()) + seq![s]);
    } else {
        let rest = s.skip(k + 1);
        lemma_lines_of_segments(rest);
        let rsegs = segments(rest);
        assert(segs.drop_last() =~= seq![s.take(k)] + rsegs.drop_last());
        assert(segs.last() == rsegs.last());
        assert(strip_all(segs.drop_last()) =~= seq![strip_cr(s.take(k))] + strip_all(
            rsegs.drop_last(),
        ));
        let tail = if rsegs.last().len() == 0 {
            Seq::<Seq<char>>::empty()
        } else {
            seq![rsegs.last()]
        };
        assert(seq![strip_cr(s.take(k))] + (strip_all(rsegs.drop_last()) + tail) =~= (
        seq![strip_cr(s.take(k))] + strip_all(rsegs.drop_last())) + tail);
    }
}

/// The first `k` parts joined are the beginning of all parts joined.
pub proof fn lemma_join_take_prefix(parts: Seq<Seq<char>>, sep: Seq<char>, k: int)
    requires
        0 <= k <= parts.len(),
    ensures
        join(parts.take(k), sep).is_prefix_of(join(parts, sep)),
    decreases parts.len() - k,
{
    if k == parts.len() {
        assert(parts.take(k) =~= parts);
    } else {
        lemma_join_take_prefix(parts, sep, k + 1);
        lemma_join_push(parts.take(k), parts[k], sep);
        assert(parts.take(k).push(parts[k]) =~= parts.take(k + 1));
        let shorter = join(parts.take(k), sep);
        let longer = join(parts.take(k + 1), sep);
        let whole = join(parts, sep);
        assert(shorter =~= longer.subrange(0, shorter.len() as int));
        assert(shorter =~= whole.subrange(0, shorter.len() as int)) by {
            assert(longer =~= whole.subrange(0, longer.len() as int));
        }
    }
}

/// Part `k` stands in the joined parts at its offset.
pub proof fn lemma_join_part_at(parts: Seq<Seq<char>>, sep: Seq<char>, k: int)
    requires
        0 <= k < parts.len(),
    ensures
        occurs_at(join(parts, sep), parts[k], join_offset(parts, sep, k)),
{
    lemma_join_take_prefix(parts, sep, k + 1);
    lemma_join_push(parts.take(k), parts[k], sep);
    assert(parts.take(k).push(parts[k]) =~= parts.take(k + 1));
    let upto = join(parts.take(k + 1), sep);
    let whole = join(parts, sep);
    let at = join_offset(parts, sep, k);
    assert(upto =~= whole.subrange(0, upto.len() as int));
    assert(upto.subrange(at, at + parts[k].len()) =~= parts[k]);
    assert(whole.subrange(at, at + parts[k].len()) =~= upto.subrange(at, at + parts[k].len()));
}

/// A later part begins after an earlier part and the separator behind it.
pub proof fn lemma_join_offsets_ordered(parts: Seq<Seq<char>>, sep: Seq<char>, i: int, j: int)
    requires
        0 <= i < j < parts.len(),
    ensures
        join_offset(parts, sep, i) + parts[i].len() + sep.len() <= join_offset(parts, sep, j),
{
    let upto = parts.take(j);
    lemma_join_take_prefix(upto, sep, i + 1);
    assert(upto.take(i + 1) =~= parts.take(i + 1));
    lemma_join_push(parts.take(i), parts[i], sep);
    assert(parts.take(i).push(parts[i]) =~= parts.take(i + 1));
}

/// A pattern that stands in neither of two texts, and shares no character
/// with what is put between them, does not stand in the three in a row.
pub proof fn lemma_absent_across(a: Seq<char>, sep: Seq<char>, c: Seq<char>, p: Seq<char>)
    requires
        p.len() > 0,
        sep.len() > 0,
        !contains(a, p),
        !contains(c, p),
        forall|j: int, k: int| 0 <= j < sep.len() && 0 <= k < p.len() ==> sep[j] != p[k],
    ensures
        !contains(a + sep + c, p),
{
    let whole = a + sep + c;
    assert forall|i: int| !occurs_at(whole, p, i) by {
        if occurs_at(whole, p, i) {
            let window = whole.subrange(i, i + p.len());
            if i + p.len() <= a.len() {
                assert(a.subrange(i, i + p.len()) =~= window);
                assert(occurs_at(a, p, i));
            } else if i >= a.len() + sep.len() {
                let at = i - a.len() - sep.len();
                assert(c.subrange(at, at + p.len()) =~= window);
                assert(occurs_at(c, p, at));
            } else {
                let hit = if i < a.len() {
                    a.len() as int
                } else {
                    i
                };
                assert(window[hit - i] == whole[hit]);
                assert(whole[hit] == sep[hit - a.len()]);
            }
        }
    }
}

/// A pattern that stands in no part, and shares no character with the
/// separator, does not stand in the joined parts.
pub proof fn lemma_absent_from_join(parts: Seq<Seq<char>>, sep: Seq<char>, p: Seq<char>)
    requires
        p.len() > 0,
        sep.len() > 0,
        forall|idx: int| 0 <= idx < parts.len() ==> !contains(#[trigger] parts[idx], p),
        forall|j: int, k: int| 0 <= j < sep.len() && 0 <= k < p.len() ==> sep[j] != p[k],
    ensures
        !contains(join(parts, sep), p),
    decreases parts.len(),
{
    if parts.len() == 0 {
        assert forall|i: int| !occurs_at(join(parts, sep), p, i) by {}
    } else if parts.len() == 1 {
        assert(!contains(parts[0], p));
    } else {
        let before = parts.drop_last();
        assert forall|idx: int| 0 <= idx < before.len() implies !contains(
            #[trigger] before[idx],
            p,
        ) by {
            assert(before[idx] == parts[idx]);
        }
        lemma_absent_from_join(before, sep, p);
        assert(!contains(parts[parts.len() - 1], p));
        lemma_absent_across(join(before, sep), sep, parts.last(), p);
    }
}

/// The shape of a trimmed text: the stretch of the text from its first to
/// its last character that is no whitespace. The bounds of the stretch are
/// returned.
pub proof fn lemma_trim_shape(s: Seq<char>) -> (bounds: (int, int))
    ensures
        0 <= bounds.0 <= bounds.1 <= s.len(),
        trim(s) == s.subrange(bounds.0, bounds.1),
        forall|j: int| 0 <= j < bounds.0 ==> is_whitespace(#[trigger] s[j]),
        forall|j: int| bounds.1 <= j < s.len() ==> is_whitespace(#[trigger] s[j]),
        bounds.0 < bounds.1 ==> !is_whitespace(s[bounds.0]) && !is_whitespace(s[bounds.1 - 1]),
        bounds.0 == bounds.1 ==> bounds.0 == s.len(),
{
    let a = lemma_leading_whitespace(s);
    let b = lemma_trailing_whitespace(s, a);
    lemma_trim_is_subrange(s, a, b);
    (a, b)
}

/// The length of the leading run of whitespace.
proof fn lemma_leading_whitespace(s: Seq<char>) -> (a: int)
    ensures
        0 <= a <= s.len(),
        forall|j: int| 0 <= j < a ==> is_whitespace(#[trigger] s[j]),
        a == s.len() || !is_whitespace(s[a]),
    decreases s.len(),
{
    if s.len() > 0 && is_whitespace(s[0]) {
        let rest = s.drop_first();
        let a = lemma_leading_whitespace(rest);
        assert forall|j: int| 0 <= j < a + 1 implies is_whitespace(#[trigger] s[j]) by {
            if j > 0 {
                assert(s[j] == rest[j - 1]);
            }
        }
        if a < rest.len() {
            assert(rest[a] == s[a + 1]);
        }
        a + 1
    } else {
        0
    }
}

/// The start of the trailing run of whitespace, which does not reach back
/// over `from`, the end of the leading run.
proof fn lemma_trailing_whitespace(s: Seq<char>, from: int) -> (b: int)
    requires
        0 <= from <= s.len(),
        from == s.len() || !is_whitespace(s[from]),
    ensures
        from <= b <= s.len(),
        forall|j: int| b <= j < s.len() ==> is_whitespace(#[trigger] s[j]),
        from < b ==> !is_whitespace(s[b - 1]),
        from == b ==> from == s.len(),
    decreases s.len(),
{
    if s.len() > from && is_whitespace(s.last()) {
        let rest = s.drop_last();
        let b = lemma_trailing_whitespace(rest, from);
        assert forall|j: int| b <= j < s.len() implies is_whitespace(#[trigger] s[j]) by {
            if j < rest.len() {
                assert(s[j] == rest[j]);
            }
        }
        if from < b {
            assert(rest[b - 1] == s[b - 1]);
        }
        b
    } else {
        s.len() as int
    }
}

/// A text that neither begins nor ends with whitespace is its own trimmed
/// text, and so is the empty text.
pub proof fn lemma_trim_identity(s: Seq<char>)
    requires
        s.len() == 0 || (!is_whitespace(s[0]) && !is_whitespace(s.last())),
    ensures
        trim(s) == s,
{
}

/// A trimmed text that is not empty begins and ends with a character that is
/// no whitespace, and every character of it is one of the text.
pub proof fn lemma_trim_ends(s: Seq<char>)
    ensures
        trim(s).len() > 0 ==> !is_whitespace(trim(s)[0]) && !is_whitespace(trim(s).last()),
        forall|j: int|
            0 <= j < trim(s).len() ==> exists|k: int|
                0 <= k < s.len() && s[k] == #[trigger] trim(s)[j],
{
    let (a, b) = lemma_trim_shape(s);
    assert forall|j: int| 0 <= j < trim(s).len() implies exists|k: int|
        0 <= k < s.len() && s[k] == #[trigger] trim(s)[j] by {
        assert(s[a + j] == trim(s)[j]);
    }
}

/// Trimming does not see the carriage return that `strip_cr` takes away.
pub proof fn lemma_trim_strip_cr(s: Seq<char>)
    ensures
        trim(strip_cr(s)) == trim(s),
{
    if ends_with_cr(s) {
        let (a, b) = lemma_trim_shape(s);
        let cut = s.drop_last();
        if a == s.len() {
            lemma_trim_is_subrange(cut, cut.len() as int, cut.len() as int);
            assert(cut.subrange(cut.len() as int, cut.len() as int) =~= s.subrange(a, b));
        } else {
            lemma_trim_is_subrange(cut, a, b);
            assert(cut.subrange(a, b) =~= s.subrange(a, b));
        }
    }
}

/// The last segment of a text is the end of the text.
pub proof fn lemma_last_segment_is_suffix(s: Seq<char>)
    ensures
        segments(s).last().is_suffix_of(s),
    decreases s.len(),
{
    let k = first_newline(s);
    lemma_first_newline_bounds(s);
    if k < s.len() {
        let rest = s.skip(k + 1);
        lemma_last_segment_is_suffix(rest);
        let last = segments(rest).last();
        assert(segments(s).last() == last);
        assert(last =~= s.subrange(s.len() - last.len(), s.len() as int)) by {
            assert(last =~= rest.subrange(rest.len() - last.len(), rest.len() as int));
        }
    } else {
        assert(s =~= s.subrange(0, s.len() as int));
    }
}

/// A text without a line feed is its own single segment.
pub proof fn lemma_single_segment(line: Seq<char>)
    requires
        forall|j: int| 0 <= j < line.len() ==> #[trigger] line[j] != '\n',
    ensures
        segments(line) == seq![line],
{
    lemma_first_newline(line, line.len() as int);
}

/// Lines without line feeds, joined by line feeds, fall into these lines
/// again.
pub proof fn lemma_segments_of_joined_lines(all: Seq<Seq<char>>)
    requires
        all.len() > 0,
        forall|idx: int, j: int|
            0 <= idx < all.len() && 0 <= j < all[idx].len() ==> #[trigger] all[idx][j] != '\n',
    ensures
        segments(join(all, "\n"@)) == all,
    decreases all.len(),
{
    let last = all.last();
    assert forall|j: int| 0 <= j < last.len() implies #[trigger] last[j] != '\n' by {
        assert(last[j] == all[all.len() - 1][j]);
    }
    lemma_single_segment(last);
    if all.len() == 1 {
        assert(all =~= seq![last]);
    } else {
        let before = all.drop_last();
        assert forall|idx: int, j: int|
            0 <= idx < before.len() && 0 <= j < before[idx].len() implies #[trigger] before[idx][j]
            != '\n' by {
            assert(before[idx][j] == all[idx][j]);
        }
        lemma_segments_of_joined_lines(before);
        lemma_segments_concat(join(before, "\n"@), last);
        assert(before + seq![last] =~= all);
    }
}

} // verus!
