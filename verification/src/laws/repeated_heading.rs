//! Where a heading comes twice, the later section stays.

use crate::laws::reading_back::{
    heading_line, is_content_line, lemma_heading_line, lemma_scan_content_lines,
    lemma_scan_lines_as_segments,
};
use crate::laws::round_trip::{is_stable_body, lemma_stable_body};
use crate::services::prompt_generator::empty_slots;
use crate::services::prompt_parser::{
    initial_state, lemma_scan_concat, parse_text, scan, scan_step, store, ScanState,
};
use crate::text::lemmas::{lemma_join_take_prefix, lemma_segments_of_joined_lines};
use crate::text::model::{contains, join, occurs_at, trim};
use vstd::prelude::*;

verus! {

/// Of two bodies stored for one slot, the second stays, if it is more than
/// whitespace.
pub proof fn lemma_last_store_wins(
    slots: Seq<Option<Seq<char>>>,
    k: int,
    first: Seq<char>,
    second: Seq<char>,
)
    requires
        0 <= k < slots.len(),
        trim(second).len() > 0,
    ensures
        store(store(slots, Some(k), first), Some(k), second) == store(slots, Some(k), second),
{
    assert(store(store(slots, Some(k), first), Some(k), second) =~= store(
        slots,
        Some(k),
        second,
    ));
}

/// A heading line of slot `k` and the content lines under it, scanned from
/// a state that has not stopped: the open section is stored, and the lines
/// are the body of the section that is open now.
proof fn lemma_scan_section(st: ScanState, k: int, content: Seq<Seq<char>>)
    requires
        !st.stopped,
        0 <= k < 9,
        forall|idx: int| 0 <= idx < content.len() ==> is_content_line(#[trigger] content[idx]),
    ensures
        scan(st, seq![heading_line(k)] + content) == (ScanState {
            slots: store(st.slots, st.current, st.buffer),
            current: Some(k),
            buffer: join(content, "\n"@),
            stopped: false,
        }),
{
    let line = heading_line(k);
    lemma_heading_line(k);
    let opened = ScanState {
        slots: store(st.slots, st.current, st.buffer),
        current: Some(k),
        buffer: Seq::empty(),
        stopped: false,
    };
    assert(scan(st, seq![line]) == opened) by {
        assert(seq![line].drop_last() =~= Seq::<Seq<char>>::empty());
        assert(scan(st, seq![line].drop_last()) == st);
        assert(scan_step(st, line) == opened);
    }
    lemma_scan_concat(st, seq![line], content);
    lemma_scan_content_lines(opened, content);
}

/// A text with two sections under the heading of one slot, each a run of
/// content lines, is read as the second section alone.
pub proof fn lemma_later_section_wins(k: int, first: Seq<Seq<char>>, second: Seq<Seq<char>>)
    requires
        0 <= k < 9,
        second.len() > 0,
        forall|idx: int| 0 <= idx < first.len() ==> is_content_line(#[trigger] first[idx]),
        forall|idx: int| 0 <= idx < second.len() ==> is_content_line(#[trigger] second[idx]),
    ensures
        parse_text(
            join(seq![heading_line(k)] + first + seq![heading_line(k)] + second, "\n"@),
        ) == empty_slots().update(k, Some(join(second, "\n"@))),
{
    reveal_strlit("## ");
    let line = heading_line(k);
    lemma_heading_line(k);
    let earlier = seq![line] + first;
    let later = seq![line] + second;
    let all = earlier + later;
    assert(all =~= seq![line] + first + seq![line] + second);
    let text = join(all, "\n"@);
    assert forall|idx: int, j: int|
        0 <= idx < all.len() && 0 <= j < all[idx].len() implies #[trigger] all[idx][j] != '\n' by {
        if 1 <= idx <= first.len() {
            assert(all[idx] == first[idx - 1]);
        } else if idx > first.len() + 1 {
            assert(all[idx] == second[idx - first.len() - 2]);
        }
    }
    lemma_segments_of_joined_lines(all);
    assert(contains(text, "## "@)) by {
        lemma_join_take_prefix(all, "\n"@, 1);
        assert(all.take(1) =~= seq![line]);
        assert(line =~= text.subrange(0, line.len() as int));
        assert(text.subrange(0, 3) =~= line.subrange(0, 3));
        assert(line.subrange(0, 3) =~= "## "@);
        assert(occurs_at(text, "## "@, 0));
    }
    let start = initial_state();
    lemma_scan_lines_as_segments(start, text);
    lemma_scan_concat(start, earlier, later);
    lemma_scan_section(start, k, first);
    let middle = scan(start, earlier);
    lemma_scan_section(middle, k, second);
    let end = scan(middle, later);
    let kept = join(second, "\n"@);
    assert(is_stable_body(kept)) by {
        assert forall|idx: int, j: int|
            0 <= idx < second.len() && 0 <= j < second[idx].len() implies #[trigger] second[idx][j]
            != '\n' by {
            assert(is_content_line(second[idx]));
        }
        lemma_segments_of_joined_lines(second);
    }
    lemma_stable_body(kept);
    lemma_last_store_wins(empty_slots(), k, middle.buffer, kept);
    assert(store(start.slots, start.current, start.buffer) == empty_slots());
    assert(store(end.slots, end.current, end.buffer) =~= empty_slots().update(k, Some(kept)));
}

} // verus!
