//! Laws of reading a preview back.

use crate::models::section::section_heading;
use crate::services::prompt_generator::{empty_notice, preview_rule};
use crate::services::prompt_parser::{
    header_slot, is_terminator, lemma_scan_concat, scan, scan_step, ScanState,
};
use crate::text::lemmas::{
    lemma_join_push, lemma_lines_of_segments, lemma_segments_nonempty, lemma_trim_identity,
    lemma_trim_strip_cr,
};
use crate::text::model::{
    contains, is_whitespace, join, lines, occurs_at, segments, strip_all, trim,
};
use vstd::prelude::*;

verus! {

/// The line that opens the preview entry of the section in slot `i`.
pub open spec fn heading_line(i: int) -> Seq<char> {
    "## "@ + section_heading(i)
}

/// Whether the scan takes a line for the heading of slot `i`, as it is: the
/// line is trimmed, holds no line feed, and begins with that heading.
pub open spec fn opens_slot(line: Seq<char>, i: int) -> bool {
    &&& trim(line) == line
    &&& header_slot(line) == Some(i)
    &&& forall|j: int| 0 <= j < line.len() ==> #[trigger] line[j] != '\n'
}

/// Whether a line is one that the scan adds to the body of the open section
/// as it is: not empty, trimmed, without a line feed, and neither a heading
/// nor the end of the scan.
pub open spec fn is_content_line(line: Seq<char>) -> bool {
    &&& line.len() > 0
    &&& !is_whitespace(line[0])
    &&& !is_whitespace(line.last())
    &&& forall|j: int| 0 <= j < line.len() ==> #[trigger] line[j] != '\n'
    &&& header_slot(line) is None
    &&& !is_terminator(line)
}

/// The heading line of the few-shot section opens its slot.
proof fn lemma_heading_line_0()
    ensures
        opens_slot(heading_line(0), 0),
{
    reveal_strlit("## ");
    reveal_strlit("Few-Shot Examples");
    reveal_strlit("## Few-shot");
    reveal_strlit("## Few-Shot");
    let line = heading_line(0);
    assert(line.len() == 20);
    assert(line[7] != "## Few-shot"@[7]);
    assert("## Few-Shot"@ =~= line.subrange(0, 11));
    lemma_trim_identity(line);
}

/// The heading line of the context section opens its slot.
proof fn lemma_heading_line_1()
    ensures
        opens_slot(heading_line(1), 1),
{
    reveal_strlit("## ");
    reveal_strlit("Contexto");
    reveal_strlit("## Few-shot");
    reveal_strlit("## Few-Shot");
    reveal_strlit("## Contexto");
    let line = heading_line(1);
    assert(line.len() == 11);
    assert(line[3] != "## Few-shot"@[3]);
    assert(line[3] != "## Few-Shot"@[3]);
    assert("## Contexto"@ =~= line.subrange(0, 11));
    lemma_trim_identity(line);
}

/// The heading line of the main content section opens its slot.
proof fn lemma_heading_line_2()
    ensures
        opens_slot(heading_line(2), 2),
{
    reveal_strlit("## ");
    reveal_strlit("Conteúdo Principal");
    reveal_strlit("## Few-shot");
    reveal_strlit("## Few-Shot");
    reveal_strlit("## Contexto");
    reveal_strlit("## Conteúdo Principal");
    let line = heading_line(2);
    assert(line.len() == 21);
    assert(line[3] != "## Few-shot"@[3]);
    assert(line[3] != "## Few-Shot"@[3]);
    assert(line[8] != "## Contexto"@[8]);
    assert("## Conteúdo Principal"@ =~= line.subrange(0, 21));
    lemma_trim_identity(line);
}

/// The heading line of the auxiliary content section opens its slot.
proof fn lemma_heading_line_3()
    ensures
        opens_slot(heading_line(3), 3),
{
    reveal_strlit("## ");
    reveal_strlit("Conteúdo Auxiliar");
    reveal_strlit("## Few-shot");
    reveal_strlit("## Few-Shot");
    reveal_strlit("## Contexto");
    reveal_strlit("## Conteúdo Principal");
    reveal_strlit("## Conteúdo Auxiliar");
    let line = heading_line(3);
    assert(line.len() == 20);
    assert(line[3] != "## Few-shot"@[3]);
    assert(line[3] != "## Few-Shot"@[3]);
    assert(line[8] != "## Contexto"@[8]);
    assert(line[12] != "## Conteúdo Principal"@[12]);
    assert("## Conteúdo Auxiliar"@ =~= line.subrange(0, 20));
    lemma_trim_identity(line);
}

/// The heading line of the limitations section opens its slot.
proof fn lemma_heading_line_4()
    ensures
        opens_slot(heading_line(4), 4),
{
    reveal_strlit("## ");
    reveal_strlit("Limitações");
    reveal_strlit("## Few-shot");
    reveal_strlit("## Few-Shot");
    reveal_strlit("## Contexto");
    reveal_strlit("## Conteúdo Principal");
    reveal_strlit("## Conteúdo Auxiliar");
    reveal_strlit("## Limitações");
    let line = heading_line(4);
    assert(line.len() == 13);
    assert(line[3] != "## Few-shot"@[3]);
    assert(line[3] != "## Few-Shot"@[3]);
    assert(line[3] != "## Contexto"@[3]);
    assert(line[3] != "## Conteúdo Principal"@[3]);
    assert(line[3] != "## Conteúdo Auxiliar"@[3]);
    assert("## Limitações"@ =~= line.subrange(0, 13));
    lemma_trim_identity(line);
}

/// The heading line of the refactoring section opens its slot.
proof fn lemma_heading_line_5()
    ensures
        opens_slot(heading_line(5), 5),
{
    reveal_strlit("## ");
    reveal_strlit("Refatoração (Código)");
    reveal_strlit("## Few-shot");
    reveal_strlit("## Few-Shot");
    reveal_strlit("## Contexto");
    reveal_strlit("## Conteúdo Principal");
    reveal_strlit("## Conteúdo Auxiliar");
    reveal_strlit("## Limitações");
    reveal_strlit("## Refatoração");
    let line = heading_line(5);
    assert(line.len() == 23);
    assert(line[3] != "## Few-shot"@[3]);
    assert(line[3] != "## Few-Shot"@[3]);
    assert(line[3] != "## Contexto"@[3]);
    assert(line[3] != "## Conteúdo Principal"@[3]);
    assert(line[3] != "## Conteúdo Auxiliar"@[3]);
    assert(line[3] != "## Limitações"@[3]);
    assert("## Refatoração"@ =~= line.subrange(0, 14));
    lemma_trim_identity(line);
}

/// The heading line of the guidance section opens its slot.
proof fn lemma_heading_line_6()
    ensures
        opens_slot(heading_line(6), 6),
{
    reveal_strlit("## ");
    reveal_strlit("Orientações");
    reveal_strlit("## Few-shot");
    reveal_strlit("## Few-Shot");
    reveal_strlit("## Contexto");
    reveal_strlit("## Conteúdo Principal");
    reveal_strlit("## Conteúdo Auxiliar");
    reveal_strlit("## Limitações");
    reveal_strlit("## Refatoração");
    reveal_strlit("## Orientações");
    let line = heading_line(6);
    assert(line.len() == 14);
    assert(line[3] != "## Few-shot"@[3]);
    assert(line[3] != "## Few-Shot"@[3]);
    assert(line[3] != "## Contexto"@[3]);
    assert(line[3] != "## Conteúdo Principal"@[3]);
    assert(line[3] != "## Conteúdo Auxiliar"@[3]);
    assert(line[3] != "## Limitações"@[3]);
    assert(line[3] != "## Refatoração"@[3]);
    assert("## Orientações"@ =~= line.subrange(0, 14));
    lemma_trim_identity(line);
}

/// The heading line of the tests section opens its slot.
proof fn lemma_heading_line_7()
    ensures
        opens_slot(heading_line(7), 7),
{
    reveal_strlit("## ");
    reveal_strlit("Testes");
    reveal_strlit("## Few-shot");
    reveal_strlit("## Few-Shot");
    reveal_strlit("## Contexto");
    reveal_strlit("## Conteúdo Principal");
    reveal_strlit("## Conteúdo Auxiliar");
    reveal_strlit("## Limitações");
    reveal_strlit("## Refatoração");
    reveal_strlit("## Orientações");
    reveal_strlit("## Testes");
    let line = heading_line(7);
    assert(line.len() == 9);
    assert(line[3] != "## Few-shot"@[3]);
    assert(line[3] != "## Few-Shot"@[3]);
    assert(line[3] != "## Contexto"@[3]);
    assert(line[3] != "## Conteúdo Principal"@[3]);
    assert(line[3] != "## Conteúdo Auxiliar"@[3]);
    assert(line[3] != "## Limitações"@[3]);
    assert(line[3] != "## Refatoração"@[3]);
    assert(line[3] != "## Orientações"@[3]);
    assert("## Testes"@ =~= line.subrange(0, 9));
    lemma_trim_identity(line);
}

/// The heading line of the output format section opens its slot.
proof fn lemma_heading_line_8()
    ensures
        opens_slot(heading_line(8), 8),
{
    reveal_strlit("## ");
    reveal_strlit("Formato de Saída");
    reveal_strlit("## Few-shot");
    reveal_strlit("## Few-Shot");
    reveal_strlit("## Contexto");
    reveal_strlit("## Conteúdo Principal");
    reveal_strlit("## Conteúdo Auxiliar");
    reveal_strlit("## Limitações");
    reveal_strlit("## Refatoração");
    reveal_strlit("## Orientações");
    reveal_strlit("## Testes");
    reveal_strlit("## Formato de Saída");
    let line = heading_line(8);
    assert(line.len() == 19);
    assert(line[4] != "## Few-shot"@[4]);
    assert(line[4] != "## Few-Shot"@[4]);
    assert(line[3] != "## Contexto"@[3]);
    assert(line[3] != "## Conteúdo Principal"@[3]);
    assert(line[3] != "## Conteúdo Auxiliar"@[3]);
    assert(line[3] != "## Limitações"@[3]);
    assert(line[3] != "## Refatoração"@[3]);
    assert(line[3] != "## Orientações"@[3]);
    assert(line[3] != "## Testes"@[3]);
    assert("## Formato de Saída"@ =~= line.subrange(0, 19));
    lemma_trim_identity(line);
}

/// Every heading line opens its slot.
pub proof fn lemma_heading_line(i: int)
    requires
        0 <= i < 9,
    ensures
        opens_slot(heading_line(i), i),
{
    if i == 0 {
        lemma_heading_line_0();
    } else if i == 1 {
        lemma_heading_line_1();
    } else if i == 2 {
        lemma_heading_line_2();
    } else if i == 3 {
        lemma_heading_line_3();
    } else if i == 4 {
        lemma_heading_line_4();
    } else if i == 5 {
        lemma_heading_line_5();
    } else if i == 6 {
        lemma_heading_line_6();
    } else if i == 7 {
        lemma_heading_line_7();
    } else {
        lemma_heading_line_8();
    }
}

/// A line that begins with a heading or ends the scan has at least three
/// characters, and its first is `#`, `-` or the sign of the note.
pub proof fn lemma_special_line_start(line: Seq<char>)
    requires
        header_slot(line) is Some || is_terminator(line),
    ensures
        line.len() > 0,
        line[0] == '#' || line[0] == '-' || line[0] == '📋',
{
    reveal_strlit("## Few-shot");
    reveal_strlit("## Few-Shot");
    reveal_strlit("## Contexto");
    reveal_strlit("## Conteúdo Principal");
    reveal_strlit("## Conteúdo Auxiliar");
    reveal_strlit("## Limitações");
    reveal_strlit("## Refatoração");
    reveal_strlit("## Orientações");
    reveal_strlit("## Testes");
    reveal_strlit("## Formato de Saída");
    reveal_strlit("---");
    reveal_strlit("📋");
    if "## Few-shot"@.is_prefix_of(line) {
        assert(line[0] == "## Few-shot"@.subrange(0, "## Few-shot"@.len() as int)[0]);
        assert(line.subrange(0, "## Few-shot"@.len() as int)[0] == line[0]);
    }
    if "## Few-Shot"@.is_prefix_of(line) {
        assert(line[0] == "## Few-Shot"@.subrange(0, "## Few-Shot"@.len() as int)[0]);
        assert(line.subrange(0, "## Few-Shot"@.len() as int)[0] == line[0]);
    }
    if "## Contexto"@.is_prefix_of(line) {
        assert(line[0] == "## Contexto"@.subrange(0, "## Contexto"@.len() as int)[0]);
        assert(line.subrange(0, "## Contexto"@.len() as int)[0] == line[0]);
    }
    if "## Conteúdo Principal"@.is_prefix_of(line) {
        assert(line[0] == "## Conteúdo Principal"@.subrange(0, "## Conteúdo Principal"@.len() as int)[0]);
        assert(line.subrange(0, "## Conteúdo Principal"@.len() as int)[0] == line[0]);
    }
    if "## Conteúdo Auxiliar"@.is_prefix_of(line) {
        assert(line[0] == "## Conteúdo Auxiliar"@.subrange(0, "## Conteúdo Auxiliar"@.len() as int)[0]);
        assert(line.subrange(0, "## Conteúdo Auxiliar"@.len() as int)[0] == line[0]);
    }
    if "## Limitações"@.is_prefix_of(line) {
        assert(line[0] == "## Limitações"@.subrange(0, "## Limitações"@.len() as int)[0]);
        assert(line.subrange(0, "## Limitações"@.len() as int)[0] == line[0]);
    }
    if "## Refatoração"@.is_prefix_of(line) {
        assert(line[0] == "## Refatoração"@.subrange(0, "## Refatoração"@.len() as int)[0]);
        assert(line.subrange(0, "## Refatoração"@.len() as int)[0] == line[0]);
    }
    if "## Orientações"@.is_prefix_of(line) {
        assert(line[0] == "## Orientações"@.subrange(0, "## Orientações"@.len() as int)[0]);
        assert(line.subrange(0, "## Orientações"@.len() as int)[0] == line[0]);
    }
    if "## Testes"@.is_prefix_of(line) {
        assert(line[0] == "## Testes"@.subrange(0, "## Testes"@.len() as int)[0]);
        assert(line.subrange(0, "## Testes"@.len() as int)[0] == line[0]);
    }
    if "## Formato de Saída"@.is_prefix_of(line) {
        assert(line[0] == "## Formato de Saída"@.subrange(0, "## Formato de Saída"@.len() as int)[0]);
        assert(line.subrange(0, "## Formato de Saída"@.len() as int)[0] == line[0]);
    }
    if "---"@.is_prefix_of(line) {
        assert(line[0] == "---"@.subrange(0, "---"@.len() as int)[0]);
        assert(line.subrange(0, "---"@.len() as int)[0] == line[0]);
    }
    if "📋"@.is_prefix_of(line) {
        assert(line[0] == "📋"@.subrange(0, "📋"@.len() as int)[0]);
        assert(line.subrange(0, "📋"@.len() as int)[0] == line[0]);
    }
}

/// The rule ends the scan, as it is.
pub proof fn lemma_rule_line()
    ensures
        trim(preview_rule()) == preview_rule(),
        header_slot(preview_rule()) is None,
        is_terminator(preview_rule()),
        forall|j: int| 0 <= j < preview_rule().len() ==> #[trigger] preview_rule()[j] != '\n',
{
    reveal_strlit("---");
    let line = preview_rule();
    lemma_trim_identity(line);
    assert("---"@.is_prefix_of(line)) by {
        assert(line.subrange(0, 3) =~= line);
    }
    if header_slot(line) is Some {
        reveal_strlit("## Few-shot");
        reveal_strlit("## Few-Shot");
        reveal_strlit("## Contexto");
        reveal_strlit("## Conteúdo Principal");
        reveal_strlit("## Conteúdo Auxiliar");
        reveal_strlit("## Limitações");
        reveal_strlit("## Refatoração");
        reveal_strlit("## Orientações");
        reveal_strlit("## Testes");
        reveal_strlit("## Formato de Saída");
    }
}

/// The notice is a content line, and `"## "` does not stand in it.
pub proof fn lemma_notice_line()
    ensures
        is_content_line(empty_notice()),
        !contains(empty_notice(), "## "@),
{
    reveal_strlit("Nenhum campo foi preenchido ainda.");
    reveal_strlit("## ");
    let line = empty_notice();
    assert(line.len() == 34);
    assert(line[0] == 'N');
    assert(line[33] == '.');
    assert forall|j: int| 0 <= j < line.len() implies #[trigger] line[j] != '\n' && line[j]
        != '#' by {}
    if header_slot(line) is Some || is_terminator(line) {
        lemma_special_line_start(line);
    }
    assert forall|i: int| !occurs_at(line, "## "@, i) by {
        if occurs_at(line, "## "@, i) {
            assert(line.subrange(i, i + 3)[0] == '#');
        }
    }
}

/// An empty line changes nothing in the scan.
pub proof fn lemma_scan_blank_line(st: ScanState)
    ensures
        scan_step(st, Seq::empty()) == st,
{
    let line = Seq::<char>::empty();
    lemma_trim_identity(line);
    if header_slot(line) is Some || is_terminator(line) {
        lemma_special_line_start(line);
    }
}

/// The scan does not see the carriage returns that end lines.
proof fn lemma_scan_stripped(st: ScanState, raw: Seq<Seq<char>>)
    ensures
        scan(st, strip_all(raw)) == scan(st, raw),
    decreases raw.len(),
{
    if raw.len() > 0 {
        lemma_scan_stripped(st, raw.drop_last());
        assert(strip_all(raw).drop_last() =~= strip_all(raw.drop_last()));
        lemma_trim_strip_cr(raw.last());
    }
}

/// The scan over the lines of a text is the scan over its segments: it sees
/// neither the carriage returns that end lines nor an empty last segment.
pub proof fn lemma_scan_lines_as_segments(st: ScanState, text: Seq<char>)
    ensures
        scan(st, lines(text)) == scan(st, segments(text)),
{
    let segs = segments(text);
    lemma_segments_nonempty(text);
    lemma_lines_of_segments(text);
    lemma_scan_stripped(st, segs.drop_last());
    let front = strip_all(segs.drop_last());
    let seen = scan(st, segs.drop_last());
    assert(scan(st, front) == seen);
    assert(scan(st, segs) == scan_step(seen, segs.last()));
    if segs.last().len() == 0 {
        assert(lines(text) =~= front);
        assert(segs.last() =~= Seq::<char>::empty());
        lemma_scan_blank_line(seen);
    } else {
        let single = seq![segs.last()];
        assert(lines(text) =~= front + single);
        lemma_scan_concat(st, front, single);
        assert(single.drop_last() =~= Seq::<Seq<char>>::empty());
        assert(scan(seen, single.drop_last()) == seen);
        assert(scan(seen, single) == scan_step(seen, segs.last()));
    }
}

/// Content lines, scanned while a section is open and its body is still
/// empty, become the body of that section, joined by line feeds.
pub proof fn lemma_scan_content_lines(st: ScanState, content: Seq<Seq<char>>)
    requires
        !st.stopped,
        st.current is Some,
        st.buffer.len() == 0,
        forall|idx: int| 0 <= idx < content.len() ==> is_content_line(#[trigger] content[idx]),
    ensures
        scan(st, content) == (ScanState {
            slots: st.slots,
            current: st.current,
            buffer: join(content, "\n"@),
            stopped: false,
        }),
        content.len() > 0 ==> join(content, "\n"@).len() > 0,
    decreases content.len(),
{
    if content.len() == 0 {
        assert(st.buffer =~= Seq::<char>::empty());
    } else {
        let before = content.drop_last();
        let line = content.last();
        lemma_scan_content_lines(st, before);
        assert(is_content_line(content[content.len() - 1]));
        lemma_trim_identity(line);
        lemma_join_push(before, line, "\n"@);
        assert(before.push(line) =~= content);
    }
}

} // verus!
