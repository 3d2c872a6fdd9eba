//! A preview, read back, gives the prompt that it was rendered from.

use crate::laws::reading_back::{
    heading_line, is_content_line, lemma_heading_line, lemma_notice_line, lemma_rule_line,
    lemma_scan_blank_line, lemma_scan_content_lines, lemma_scan_lines_as_segments,
};
use crate::services::prompt_generator::{
    empty_notice, empty_slots, preview_entries, preview_entry, preview_note, preview_rule,
    preview_text, PromptData,
};
use crate::services::prompt_parser::{
    header_slot, initial_state, is_terminator, lemma_scan_concat, lemma_scan_stopped,
    parse_simple, parse_structured, parse_text, scan, scan_step, store, ScanState,
};
use crate::text::lemmas::{
    lemma_first_newline_bounds, lemma_join_push, lemma_join_segments, lemma_join_take_prefix,
    lemma_last_segment_is_suffix, lemma_segments_concat, lemma_segments_no_newline,
    lemma_segments_nonempty, lemma_single_segment, lemma_trim_ends, lemma_trim_identity,
};
use crate::text::model::{contains, first_newline, join, occurs_at, segments, trim};
use vstd::prelude::*;

verus! {

/// Whether a body is read back as it is: each of its segments is a content
/// line.
pub open spec fn is_stable_body(body: Seq<char>) -> bool {
    forall|idx: int|
        0 <= idx < segments(body).len() ==> is_content_line(#[trigger] segments(body)[idx])
}

/// The slots of a prompt of which only the first `n` are kept.
pub open spec fn first_slots(slots: Seq<Option<Seq<char>>>, n: int) -> Seq<Option<Seq<char>>> {
    Seq::new(9, |i: int| if i < n { slots[i] } else { None })
}

/// The lines of the preview entries of the first `n` slots: for each entry
/// its heading line, an empty line and the segments of its trimmed body, and
/// an empty line between two entries.
pub open spec fn preview_lines(slots: Seq<Option<Seq<char>>>, n: int) -> Seq<Seq<char>>
    decreases n,
{
    if n <= 0 {
        Seq::empty()
    } else {
        let before = preview_lines(slots, n - 1);
        let gap = if preview_entries(slots, n - 1).len() == 0 {
            before
        } else {
            before.push(Seq::empty())
        };
        match slots[n - 1] {
            Some(body) => if trim(body).len() > 0 {
                gap + seq![heading_line(n - 1), Seq::empty()] + segments(trim(body))
            } else {
                before
            },
            None => before,
        }
    }
}

/// A stable body is not empty and is its own trimmed text.
pub proof fn lemma_stable_body(body: Seq<char>)
    requires
        is_stable_body(body),
    ensures
        body.len() > 0,
        trim(body) == body,
{
    let segs = segments(body);
    lemma_segments_nonempty(body);
    lemma_first_newline_bounds(body);
    let k = first_newline(body);
    assert(is_content_line(segs[0]));
    assert(body.len() > 0 && body[0] == segs[0][0]) by {
        if k < body.len() {
            assert(segs[0] == body.take(k));
        }
    }
    lemma_last_segment_is_suffix(body);
    let last = segs.last();
    assert(is_content_line(segs[segs.len() - 1]));
    assert(body.last() == last.last()) by {
        assert(last =~= body.subrange(body.len() - last.len(), body.len() as int));
    }
    lemma_trim_identity(body);
}

/// A content line is a stable body.
pub proof fn lemma_content_line_is_stable(line: Seq<char>)
    requires
        is_content_line(line),
    ensures
        is_stable_body(line),
{
    lemma_single_segment(line);
}

/// The preview entry of a slot falls into its heading line, an empty line and
/// the segments of the trimmed body.
proof fn lemma_entry_segments(i: int, body: Seq<char>)
    requires
        0 <= i < 9,
    ensures
        segments(preview_entry(i, body)) == seq![heading_line(i), Seq::empty()] + segments(
            trim(body),
        ),
{
    reveal_strlit("\n\n");
    reveal_strlit("\n");
    let nothing = Seq::<char>::empty();
    let line = heading_line(i);
    let inner = trim(body);
    lemma_heading_line(i);
    assert(preview_entry(i, body) =~= line + "\n"@ + (nothing + "\n"@ + inner));
    lemma_segments_concat(line, nothing + "\n"@ + inner);
    lemma_segments_concat(nothing, inner);
    lemma_single_segment(line);
    lemma_single_segment(nothing);
    assert(seq![line] + (seq![nothing] + segments(inner)) =~= seq![line, nothing] + segments(
        inner,
    ));
}

/// The joined preview entries of the first `n` slots fall into the preview
/// lines of these slots.
pub proof fn lemma_preview_lines(slots: Seq<Option<Seq<char>>>, n: int)
    requires
        0 <= n <= 9,
    ensures
        preview_entries(slots, n).len() == 0 <==> preview_lines(slots, n).len() == 0,
        preview_entries(slots, n).len() > 0 ==> segments(
            join(preview_entries(slots, n), "\n\n"@),
        ) == preview_lines(slots, n),
    decreases n,
{
    reveal_strlit("\n\n");
    reveal_strlit("\n");
    if n > 0 {
        lemma_preview_lines(slots, n - 1);
        let before = preview_entries(slots, n - 1);
        let lines_before = preview_lines(slots, n - 1);
        let nothing = Seq::<char>::empty();
        if slots[n - 1] is Some && trim(slots[n - 1]->0).len() > 0 {
            let body = slots[n - 1]->0;
            let entry = preview_entry(n - 1, body);
            lemma_entry_segments(n - 1, body);
            lemma_segments_nonempty(trim(body));
            lemma_join_push(before, entry, "\n\n"@);
            if before.len() > 0 {
                let joined = join(before, "\n\n"@);
                assert(joined + "\n\n"@ + entry =~= joined + "\n"@ + (nothing + "\n"@ + entry));
                lemma_segments_concat(joined, nothing + "\n"@ + entry);
                lemma_segments_concat(nothing, entry);
                lemma_single_segment(nothing);
                assert(lines_before + (seq![nothing] + segments(entry)) =~= lines_before.push(
                    nothing,
                ) + seq![heading_line(n - 1), nothing] + segments(trim(body)));
            } else {
                assert(lines_before =~= Seq::<Seq<char>>::empty());
                assert(lines_before + seq![heading_line(n - 1), nothing] + segments(trim(body))
                    =~= segments(entry));
            }
        }
    }
}

/// The scan over the preview lines of the first `n` slots of a prompt with
/// stable bodies: it has not stopped, and with the open section stored it
/// has filled exactly these slots.
pub proof fn lemma_scan_preview_lines(slots: Seq<Option<Seq<char>>>, n: int)
    requires
        slots.len() == 9,
        0 <= n <= 9,
        forall|i: int| 0 <= i < 9 && (#[trigger] slots[i]) is Some ==> is_stable_body(slots[i]->0),
    ensures
        !scan(initial_state(), preview_lines(slots, n)).stopped,
        scan(initial_state(), preview_lines(slots, n)).slots.len() == 9,
        ({
            let st = scan(initial_state(), preview_lines(slots, n));
            store(st.slots, st.current, st.buffer) == first_slots(slots, n)
        }),
    decreases n,
{
    let start = initial_state();
    if n <= 0 {
        assert(store(start.slots, start.current, start.buffer) =~= first_slots(slots, n));
    } else {
        lemma_scan_preview_lines(slots, n - 1);
        let lines_before = preview_lines(slots, n - 1);
        let before = scan(start, lines_before);
        let nothing = Seq::<char>::empty();
        if slots[n - 1] is Some {
            let body = slots[n - 1]->0;
            assert(is_stable_body(body));
            lemma_stable_body(body);
            let gap = if preview_entries(slots, n - 1).len() == 0 {
                lines_before
            } else {
                lines_before.push(nothing)
            };
            assert(scan(start, gap) == before) by {
                if preview_entries(slots, n - 1).len() != 0 {
                    assert(gap.drop_last() =~= lines_before);
                    lemma_scan_blank_line(before);
                }
            }
            let line = heading_line(n - 1);
            lemma_heading_line(n - 1);
            let head = seq![line, nothing];
            let opened = ScanState {
                slots: first_slots(slots, n - 1),
                current: Some(n - 1),
                buffer: nothing,
                stopped: false,
            };
            assert(scan(before, head) == opened) by {
                assert(head.drop_last() =~= seq![line]);
                assert(seq![line].drop_last() =~= Seq::<Seq<char>>::empty());
                assert(scan(before, seq![line].drop_last()) == before);
                assert(scan(before, seq![line]) == scan_step(before, line));
                assert(scan_step(before, line) == opened);
                lemma_scan_blank_line(opened);
            }
            lemma_scan_concat(start, gap, head);
            lemma_scan_content_lines(opened, segments(body));
            lemma_scan_concat(start, gap + head, segments(body));
            lemma_join_segments(body);
            let st = scan(start, preview_lines(slots, n));
            assert(st.buffer == body);
            assert(store(st.slots, st.current, st.buffer) =~= first_slots(slots, n));
        } else {
            assert(first_slots(slots, n) =~= first_slots(slots, n - 1));
        }
    }
}

/// Every preview entry is that of a section present.
proof fn lemma_entry_member(slots: Seq<Option<Seq<char>>>, n: int, idx: int) -> (i: int)
    requires
        0 <= idx < preview_entries(slots, n).len(),
    ensures
        0 <= i < n,
        slots[i] is Some,
        preview_entries(slots, n)[idx] == preview_entry(i, slots[i]->0),
    decreases n,
{
    let before = preview_entries(slots, n - 1);
    if idx < before.len() {
        lemma_entry_member(slots, n - 1, idx)
    } else {
        n - 1
    }
}

/// A section that is present with more than whitespace in its body has a
/// preview entry.
proof fn lemma_entry_present(slots: Seq<Option<Seq<char>>>, i: int, n: int)
    requires
        0 <= i < n,
        slots[i] is Some,
        trim(slots[i]->0).len() > 0,
    ensures
        preview_entries(slots, n).len() > 0,
    decreases n,
{
    if i < n - 1 {
        lemma_entry_present(slots, i, n - 1);
    }
}

/// A preview with an entry holds `"## "`, at its very beginning.
pub proof fn lemma_preview_is_structured(slots: Seq<Option<Seq<char>>>)
    requires
        preview_entries(slots, 9).len() > 0,
    ensures
        contains(preview_text(slots), "## "@),
{
    reveal_strlit("## ");
    let entries = preview_entries(slots, 9);
    let parts = entries.push(preview_rule()).push(preview_note());
    let i = lemma_entry_member(slots, 9, 0);
    lemma_join_take_prefix(parts, "\n\n"@, 1);
    assert(parts.take(1) =~= seq![entries[0]]);
    let whole = preview_text(slots);
    assert(entries[0].subrange(0, 3) =~= "## "@);
    assert(whole.subrange(0, 3) =~= entries[0].subrange(0, 3)) by {
        assert(entries[0] =~= whole.subrange(0, entries[0].len() as int));
    }
    assert(occurs_at(whole, "## "@, 0));
}

/// A prompt with stable bodies and at least one section is read back from
/// its preview as it is.
pub proof fn lemma_stable_slots_read_back(slots: Seq<Option<Seq<char>>>)
    requires
        slots.len() == 9,
        slots != empty_slots(),
        forall|i: int| 0 <= i < 9 && (#[trigger] slots[i]) is Some ==> is_stable_body(slots[i]->0),
    ensures
        parse_text(preview_text(slots)) == slots,
{
    reveal_strlit("\n\n");
    reveal_strlit("\n");
    let entries = preview_entries(slots, 9);
    assert(entries.len() > 0) by {
        if forall|i: int| 0 <= i < 9 ==> (#[trigger] slots[i]) is None {
            assert(slots =~= empty_slots());
        }
        let i = choose|i: int| 0 <= i < 9 && (#[trigger] slots[i]) is Some;
        lemma_stable_body(slots[i]->0);
        lemma_entry_present(slots, i, 9);
    }
    lemma_preview_is_structured(slots);
    let whole = preview_text(slots);
    let joined = join(entries, "\n\n"@);
    let nothing = Seq::<char>::empty();
    let rule = preview_rule();
    let note = preview_note();
    lemma_join_push(entries, rule, "\n\n"@);
    lemma_join_push(entries.push(rule), note, "\n\n"@);
    let after_rule = nothing + "\n"@ + note;
    let after_gap = rule + "\n"@ + after_rule;
    let after_entries = nothing + "\n"@ + after_gap;
    assert(whole =~= joined + "\n"@ + after_entries);
    lemma_segments_concat(joined, after_entries);
    lemma_segments_concat(nothing, after_gap);
    lemma_segments_concat(rule, after_rule);
    lemma_single_segment(nothing);
    lemma_rule_line();
    lemma_single_segment(rule);
    lemma_preview_lines(slots, 9);
    let entry_lines = preview_lines(slots, 9);
    let rest = segments(after_rule);
    let upto_rule = entry_lines + seq![nothing, rule];
    assert(segments(whole) =~= upto_rule + rest);

    let start = initial_state();
    lemma_scan_preview_lines(slots, 9);
    let open = scan(start, entry_lines);
    let closed = ScanState {
        slots: open.slots,
        current: open.current,
        buffer: open.buffer,
        stopped: true,
    };
    assert(scan(open, seq![nothing, rule]) == closed) by {
        let two = seq![nothing, rule];
        assert(two.drop_last() =~= seq![nothing]);
        assert(seq![nothing].drop_last() =~= Seq::<Seq<char>>::empty());
        assert(scan(open, seq![nothing].drop_last()) == open);
        assert(scan(open, seq![nothing]) == scan_step(open, nothing));
        lemma_scan_blank_line(open);
        assert(scan_step(open, rule) == closed);
    }
    lemma_scan_concat(start, entry_lines, seq![nothing, rule]);
    lemma_scan_concat(start, upto_rule, rest);
    lemma_scan_stopped(closed, rest);
    lemma_scan_lines_as_segments(start, whole);
    assert(first_slots(slots, 9) =~= slots);
}

/// Whether everything that the scan holds is stable: the bodies in its slots
/// and, unless it is empty, the body collected for the open section.
pub open spec fn is_settled(st: ScanState) -> bool {
    &&& st.slots.len() == 9
    &&& forall|i: int|
        0 <= i < 9 && (#[trigger] st.slots[i]) is Some ==> is_stable_body(st.slots[i]->0)
    &&& st.buffer.len() == 0 || is_stable_body(st.buffer)
}

/// Storing the open section of a settled scan leaves nine slots with stable
/// bodies.
proof fn lemma_store_settled(st: ScanState)
    requires
        is_settled(st),
    ensures
        store(st.slots, st.current, st.buffer).len() == 9,
        forall|i: int|
            0 <= i < 9 && (#[trigger] store(st.slots, st.current, st.buffer)[i]) is Some
                ==> is_stable_body(store(st.slots, st.current, st.buffer)[i]->0),
{
    lemma_trim_identity(Seq::<char>::empty());
    if st.buffer.len() > 0 {
        lemma_stable_body(st.buffer);
    }
}

/// A line without a line feed leaves a settled scan settled.
proof fn lemma_scan_step_settled(st: ScanState, raw: Seq<char>)
    requires
        is_settled(st),
        forall|j: int| 0 <= j < raw.len() ==> #[trigger] raw[j] != '\n',
    ensures
        is_settled(scan_step(st, raw)),
{
    reveal_strlit("\n");
    let line = trim(raw);
    let next = scan_step(st, raw);
    if !st.stopped {
        if header_slot(line) is Some {
            lemma_store_settled(st);
        } else if !is_terminator(line) && line.len() > 0 && st.current is Some {
            lemma_trim_ends(raw);
            assert(is_content_line(line));
            lemma_single_segment(line);
            if st.buffer.len() > 0 {
                lemma_segments_concat(st.buffer, line);
                let old_segs = segments(st.buffer);
                let new_segs = segments(next.buffer);
                assert forall|idx: int| 0 <= idx < new_segs.len() implies is_content_line(
                    #[trigger] new_segs[idx],
                ) by {
                    if idx < old_segs.len() {
                        assert(new_segs[idx] == old_segs[idx]);
                    }
                }
            }
        }
    }
}

/// Lines without line feeds leave a settled scan settled.
proof fn lemma_scan_settled(st: ScanState, raw: Seq<Seq<char>>)
    requires
        is_settled(st),
        forall|idx: int, j: int|
            0 <= idx < raw.len() && 0 <= j < raw[idx].len() ==> #[trigger] raw[idx][j] != '\n',
    ensures
        is_settled(scan(st, raw)),
    decreases raw.len(),
{
    if raw.len() > 0 {
        let before = raw.drop_last();
        assert forall|idx: int, j: int|
            0 <= idx < before.len() && 0 <= j < before[idx].len() implies #[trigger] before[idx][j]
            != '\n' by {
            assert(before[idx][j] == raw[idx][j]);
        }
        lemma_scan_settled(st, before);
        let line = raw.last();
        assert forall|j: int| 0 <= j < line.len() implies #[trigger] line[j] != '\n' by {
            assert(line[j] == raw[raw.len() - 1][j]);
        }
        lemma_scan_step_settled(scan(st, before), line);
    }
}

/// Whatever text is scanned, the slots read from it are nine, and the
/// bodies in them are stable.
pub proof fn lemma_parsed_bodies_are_stable(text: Seq<char>)
    ensures
        parse_structured(text).len() == 9,
        forall|i: int|
            0 <= i < 9 && (#[trigger] parse_structured(text)[i]) is Some ==> is_stable_body(
                parse_structured(text)[i]->0,
            ),
{
    let start = initial_state();
    let segs = segments(text);
    lemma_scan_lines_as_segments(start, text);
    assert forall|idx: int, j: int|
        0 <= idx < segs.len() && 0 <= j < segs[idx].len() implies #[trigger] segs[idx][j]
        != '\n' by {
        lemma_segments_no_newline(text, idx, j);
    }
    lemma_scan_settled(start, segs);
    lemma_store_settled(scan(start, segs));
}

/// A prompt with a single-line body in each of its nine slots is read back
/// from its preview as it is. The bodies are content lines: not empty,
/// trimmed, without a line feed, and neither a heading nor a rule or note
/// line themselves.
pub proof fn lemma_preview_round_trip(data: PromptData)
    requires
        forall|i: int|
            0 <= i < 9 ==> (#[trigger] data.slots()[i]) is Some && is_content_line(
                data.slots()[i]->0,
            ),
    ensures
        parse_text(preview_text(data.slots())) == data.slots(),
{
    let slots = data.slots();
    assert(slots[0] is Some);
    assert(empty_slots()[0] is None);
    assert forall|i: int| 0 <= i < 9 && (#[trigger] slots[i]) is Some implies is_stable_body(
        slots[i]->0,
    ) by {
        lemma_content_line_is_stable(slots[i]->0);
    }
    lemma_stable_slots_read_back(slots);
}

/// A prompt with stable bodies and at least one section is read back from
/// its preview as it is.
pub proof fn lemma_stable_prompt_round_trip(data: PromptData)
    requires
        data.slots() != empty_slots(),
        forall|i: int|
            0 <= i < 9 && (#[trigger] data.slots()[i]) is Some ==> is_stable_body(
                data.slots()[i]->0,
            ),
    ensures
        parse_text(preview_text(data.slots())) == data.slots(),
{
    lemma_stable_slots_read_back(data.slots());
}

/// Rendering the preview and reading it back, done twice, gives what doing
/// it once gives, wherever reading back once fills a slot at all.
pub proof fn lemma_reading_back_is_idempotent(data: PromptData)
    requires
        parse_text(preview_text(data.slots())) != empty_slots(),
    ensures
        parse_text(preview_text(parse_text(preview_text(data.slots())))) == parse_text(
            preview_text(data.slots()),
        ),
{
    let slots = data.slots();
    let preview = preview_text(slots);
    let once = parse_text(preview);
    if preview_entries(slots, 9).len() == 0 {
        lemma_notice_line();
        lemma_content_line_is_stable(empty_notice());
        lemma_stable_body(empty_notice());
        assert(once == parse_simple(empty_notice()));
        assert(once =~= empty_slots().update(2, Some(empty_notice())));
        lemma_stable_slots_read_back(once);
    } else {
        lemma_preview_is_structured(slots);
        lemma_parsed_bodies_are_stable(preview);
        lemma_stable_slots_read_back(once);
    }
}

} // verus!
