//! Laws of the tagged and the clean rendering.

use crate::models::section::{section_tag, tagged_block};
use crate::services::prompt_generator::{
    empty_slots, keeps_line, prompt_text, remove_markers_text, section_text, section_texts,
    PromptData,
};
use crate::text::lemmas::{
    lemma_absent_from_join, lemma_first_newline_bounds,
    lemma_join_offsets_ordered, lemma_join_part_at, lemma_join_segments, lemma_lines_of_segments,
    lemma_occurs_within, lemma_segment_occurs, lemma_segments_concat, lemma_single_segment,
};
use crate::text::model::{
    contains, ends_with_cr, first_newline, join_offset, lines, occurs_at, segments, strip_all,
    strip_cr,
};
use vstd::prelude::*;

verus! {

/// The offset at which the contribution of the section in slot `i` begins in
/// the tagged rendering, counted in characters.
pub open spec fn section_offset(slots: Seq<Option<Seq<char>>>, i: int, include_markers: bool) -> int {
    join_offset(
        section_texts(slots, 9, include_markers),
        "\n\n"@,
        section_texts(slots, i, include_markers).len() as int,
    )
}

/// Whether no carriage return of the text stands right before a line feed or
/// at the end of the text.
pub open spec fn no_cr_at_line_end(text: Seq<char>) -> bool {
    forall|i: int|
        0 <= i < text.len() && #[trigger] text[i] == '\r' ==> i + 1 < text.len() && text[i + 1]
            != '\n'
}

/// Whether a body comes through the clean rendering as it is: it holds
/// neither marker prefix, and no carriage return of it ends a line.
pub open spec fn is_plain_body(body: Seq<char>) -> bool {
    &&& !contains(body, "<START_"@)
    &&& !contains(body, "<END_"@)
    &&& no_cr_at_line_end(body)
}

/// The contributions of the first `i` slots are the first contributions of
/// the first `n`, and the contribution of slot `i` comes right after them.
pub proof fn lemma_section_texts_prefix(
    slots: Seq<Option<Seq<char>>>,
    i: int,
    n: int,
    include_markers: bool,
)
    requires
        0 <= i <= n,
    ensures
        section_texts(slots, i, include_markers).len() <= section_texts(
            slots,
            n,
            include_markers,
        ).len(),
        section_texts(slots, n, include_markers).take(
            section_texts(slots, i, include_markers).len() as int,
        ) == section_texts(slots, i, include_markers),
        i < n && slots[i] is Some ==> section_texts(slots, i, include_markers).len()
            < section_texts(slots, n, include_markers).len() && section_texts(
            slots,
            n,
            include_markers,
        )[section_texts(slots, i, include_markers).len() as int] == section_text(
            i,
            slots[i]->0,
            include_markers,
        ),
    decreases n - i,
{
    let upto_i = section_texts(slots, i, include_markers);
    let upto_n = section_texts(slots, n, include_markers);
    if i == n {
        assert(upto_n.take(upto_i.len() as int) =~= upto_i);
    } else {
        lemma_section_texts_prefix(slots, i, n - 1, include_markers);
        let before = section_texts(slots, n - 1, include_markers);
        assert(upto_n.take(upto_i.len() as int) =~= before.take(upto_i.len() as int));
    }
}

/// Every contribution to the tagged rendering is that of a section present.
pub proof fn lemma_section_texts_member(
    slots: Seq<Option<Seq<char>>>,
    n: int,
    idx: int,
    include_markers: bool,
) -> (i: int)
    requires
        0 <= idx < section_texts(slots, n, include_markers).len(),
    ensures
        0 <= i < n,
        slots[i] is Some,
        section_texts(slots, n, include_markers)[idx] == section_text(
            i,
            slots[i]->0,
            include_markers,
        ),
    decreases n,
{
    let before = section_texts(slots, n - 1, include_markers);
    if idx < before.len() {
        lemma_section_texts_member(slots, n - 1, idx, include_markers)
    } else {
        n - 1
    }
}

/// In the tagged rendering, with or without markers, the sections stand in
/// slot order: each section present stands at its offset, and it ends before
/// any section of a later slot begins.
pub proof fn lemma_sections_in_slot_order(
    data: PromptData,
    i: int,
    j: int,
    include_markers: bool,
)
    requires
        0 <= i < j < 9,
        data.slots()[i] is Some,
        data.slots()[j] is Some,
    ensures
        occurs_at(
            prompt_text(data.slots(), include_markers),
            section_text(i, data.slots()[i]->0, include_markers),
            section_offset(data.slots(), i, include_markers),
        ),
        occurs_at(
            prompt_text(data.slots(), include_markers),
            section_text(j, data.slots()[j]->0, include_markers),
            section_offset(data.slots(), j, include_markers),
        ),
        section_offset(data.slots(), i, include_markers) + section_text(
            i,
            data.slots()[i]->0,
            include_markers,
        ).len() < section_offset(data.slots(), j, include_markers),
{
    reveal_strlit("\n\n");
    let slots = data.slots();
    let parts = section_texts(slots, 9, include_markers);
    let at_i = section_texts(slots, i, include_markers).len() as int;
    let at_j = section_texts(slots, j, include_markers).len() as int;
    lemma_section_texts_prefix(slots, i, 9, include_markers);
    lemma_section_texts_prefix(slots, j, 9, include_markers);
    lemma_section_texts_prefix(slots, i, j, include_markers);
    lemma_join_part_at(parts, "\n\n"@, at_i);
    lemma_join_part_at(parts, "\n\n"@, at_j);
    lemma_join_offsets_ordered(parts, "\n\n"@, at_i, at_j);
}

/// Where no carriage return ends a line of a text, no segment of the text
/// ends in one.
pub proof fn lemma_segments_without_cr(text: Seq<char>, idx: int)
    requires
        no_cr_at_line_end(text),
        0 <= idx < segments(text).len(),
    ensures
        !ends_with_cr(segments(text)[idx]),
    decreases text.len(),
{
    let k = first_newline(text);
    lemma_first_newline_bounds(text);
    if k < text.len() {
        if idx == 0 {
            if k > 0 {
                assert(text.take(k).last() == text[k - 1]);
            }
        } else {
            let rest = text.skip(k + 1);
            assert forall|i: int| 0 <= i < rest.len() && #[trigger] rest[i] == '\r' implies i + 1
                < rest.len() && rest[i + 1] != '\n' by {
                assert(rest[i] == text[i + k + 1]);
                assert(rest[i + 1] == text[i + k + 2]);
            }
            assert(segments(text)[idx] == segments(rest)[idx - 1]);
            lemma_segments_without_cr(rest, idx - 1);
        }
    }
}

/// A filter that every element passes changes nothing.
proof fn lemma_filter_keeps_all(s: Seq<Seq<char>>, pred: spec_fn(Seq<char>) -> bool)
    requires
        forall|i: int| 0 <= i < s.len() ==> pred(#[trigger] s[i]),
    ensures
        s.filter(pred) == s,
    decreases s.len(),
{
    reveal(Seq::filter);
    if s.len() > 0 {
        lemma_filter_keeps_all(s.drop_last(), pred);
        assert(s.drop_last().push(s.last()) =~= s);
    }
}

/// No segment of a plain body is a marker line.
proof fn lemma_plain_segment_is_kept(body: Seq<char>, idx: int)
    requires
        is_plain_body(body),
        0 <= idx < segments(body).len(),
    ensures
        keeps_line()(segments(body)[idx]),
{
    let seg = segments(body)[idx];
    let at = lemma_segment_occurs(body, idx);
    if "<START_"@.is_prefix_of(seg) {
        assert(occurs_at(seg, "<START_"@, 0));
        lemma_occurs_within(body, seg, at, "<START_"@, 0);
    }
    if "<END_"@.is_prefix_of(seg) {
        assert(occurs_at(seg, "<END_"@, 0));
        lemma_occurs_within(body, seg, at, "<END_"@, 0);
    }
}

/// The block of a plain body, cleaned of its marker lines, is the body.
pub proof fn lemma_clean_block_is_body(tag: Seq<char>, body: Seq<char>)
    requires
        forall|j: int| 0 <= j < tag.len() ==> #[trigger] tag[j] != '\n',
        is_plain_body(body),
    ensures
        remove_markers_text(tagged_block(tag, body)) == body,
{
    reveal_strlit("<START_");
    reveal_strlit("<END_");
    reveal_strlit(">\n");
    reveal_strlit("\n<END_");
    reveal_strlit("\n");
    let first = "<START_"@ + tag + seq!['>'];
    let last = "<END_"@ + tag + seq!['>'];
    let nothing = Seq::<char>::empty();
    let block = tagged_block(tag, body);
    let tail = last + "\n"@ + nothing;
    assert(block =~= first + "\n"@ + (body + "\n"@ + tail));
    lemma_segments_concat(first, body + "\n"@ + tail);
    lemma_segments_concat(body, tail);
    lemma_segments_concat(last, nothing);
    lemma_single_segment(first);
    lemma_single_segment(last);
    lemma_single_segment(nothing);
    let inner = segments(body);
    let segs = segments(block);
    assert(segs =~= seq![first] + inner + seq![last] + seq![nothing]);
    lemma_lines_of_segments(block);
    let kept = seq![first] + inner + seq![last];
    assert(segs.drop_last() =~= kept);
    assert(strip_all(kept) =~= kept) by {
        assert forall|idx: int| 0 <= idx < kept.len() implies strip_cr(#[trigger] kept[idx])
            == kept[idx] by {
            if 1 <= idx <= inner.len() {
                assert(kept[idx] == inner[idx - 1]);
                lemma_segments_without_cr(body, idx - 1);
            }
        }
    }
    assert(lines(block) =~= kept);
    let keeps = keeps_line();
    Seq::filter_distributes_over_add(seq![first] + inner, seq![last], keeps);
    Seq::filter_distributes_over_add(seq![first], inner, keeps);
    assert(seq![first].filter(keeps) =~= Seq::<Seq<char>>::empty()) by {
        reveal(Seq::filter);
        assert(first.subrange(0, 7) =~= "<START_"@);
        assert(seq![first].drop_last() =~= Seq::<Seq<char>>::empty());
    }
    assert(seq![last].filter(keeps) =~= Seq::<Seq<char>>::empty()) by {
        reveal(Seq::filter);
        assert(last.subrange(0, 5) =~= "<END_"@);
        assert(seq![last].drop_last() =~= Seq::<Seq<char>>::empty());
    }
    assert(inner.filter(keeps) == inner) by {
        assert forall|idx: int| 0 <= idx < inner.len() implies keeps(#[trigger] inner[idx]) by {
            lemma_plain_segment_is_kept(body, idx);
        }
        lemma_filter_keeps_all(inner, keeps);
    }
    assert(kept.filter(keeps) =~= inner);
    lemma_join_segments(body);
}

/// No tag holds a line feed.
pub proof fn lemma_tag_without_newline(i: int)
    ensures
        forall|j: int| 0 <= j < section_tag(i).len() ==> #[trigger] section_tag(i)[j] != '\n',
{
    reveal_strlit("FEW_SHOT");
    reveal_strlit("CONTEXT");
    reveal_strlit("MAIN_CONTENT");
    reveal_strlit("AUXILIARY_CONTENT");
    reveal_strlit("LIMITATIONS");
    reveal_strlit("REFACTORING");
    reveal_strlit("GUIDANCE");
    reveal_strlit("TESTS");
    reveal_strlit("OUTPUT_FORMAT");
}

/// The clean rendering of a prompt with plain bodies: it holds neither
/// marker prefix, and the body of every section present stands in it as it
/// is, at the section's offset.
pub proof fn lemma_clean_rendering_keeps_bodies(data: PromptData)
    requires
        data.slots() != empty_slots(),
        forall|i: int|
            0 <= i < 9 && (#[trigger] data.slots()[i]) is Some ==> is_plain_body(
                data.slots()[i]->0,
            ),
    ensures
        !contains(prompt_text(data.slots(), false), "<START_"@),
        !contains(prompt_text(data.slots(), false), "<END_"@),
        forall|i: int|
            0 <= i < 9 && (#[trigger] data.slots()[i]) is Some ==> occurs_at(
                prompt_text(data.slots(), false),
                data.slots()[i]->0,
                section_offset(data.slots(), i, false),
            ),
{
    reveal_strlit("<START_");
    reveal_strlit("<END_");
    reveal_strlit("\n\n");
    let slots = data.slots();
    let parts = section_texts(slots, 9, false);
    let out = prompt_text(slots, false);
    assert forall|i: int| 0 <= i < 9 && (#[trigger] slots[i]) is Some implies section_text(
        i,
        slots[i]->0,
        false,
    ) == slots[i]->0 by {
        lemma_tag_without_newline(i);
        lemma_clean_block_is_body(section_tag(i), slots[i]->0);
    }
    assert(parts.len() > 0) by {
        if forall|i: int| 0 <= i < 9 ==> (#[trigger] slots[i]) is None {
            assert(slots =~= empty_slots());
        }
        let i = choose|i: int| 0 <= i < 9 && (#[trigger] slots[i]) is Some;
        lemma_section_texts_prefix(slots, i, 9, false);
    }
    assert forall|idx: int| 0 <= idx < parts.len() implies !contains(
        #[trigger] parts[idx],
        "<START_"@,
    ) && !contains(parts[idx], "<END_"@) by {
        let i = lemma_section_texts_member(slots, 9, idx, false);
        assert(slots[i] is Some);
    }
    lemma_absent_from_join(parts, "\n\n"@, "<START_"@);
    lemma_absent_from_join(parts, "\n\n"@, "<END_"@);
    assert forall|i: int| 0 <= i < 9 && (#[trigger] slots[i]) is Some implies occurs_at(
        out,
        slots[i]->0,
        section_offset(slots, i, false),
    ) by {
        lemma_section_texts_prefix(slots, i, 9, false);
        lemma_join_part_at(parts, "\n\n"@, section_texts(slots, i, false).len() as int);
    }
}

} // verus!
