//! Reading a rendered prompt back into its sections.
//!
//! A text that holds `"## "` somewhere is read as a preview: a scan over its
//! lines collects the body under each recognised heading. Any other text is
//! taken whole as the main content.
//!
//! A rule or a note line ends the scan. The section that is open at that
//! point is stored like one that is open at the end of the text, so that the
//! last section of a preview survives the rule that follows it.

use crate::models::auxiliary_content::AuxiliaryContent;
use crate::models::context::Context;
use crate::models::few_shot::FewShot;
use crate::models::guidance::Guidance;
use crate::models::limitations::Limitations;
use crate::models::main_content::MainContent;
use crate::models::output_format::OutputFormat;
use crate::models::refactoring::Refactoring;
use crate::models::tests::Tests;
use crate::services::prompt_generator::{empty_slots, PromptData};
use crate::text::model::{contains, lines, string_views, trim};
use crate::text::ops::{
    chars_start_with, split_lines, str_contains, str_equals, to_chars, trim_str,
};
use vstd::prelude::*;
use vstd::string::*;

verus! {

/// The slot whose heading the line begins with, if it begins with one.
pub open spec fn header_slot(line: Seq<char>) -> Option<int> {
    if "## Few-shot"@.is_prefix_of(line) || "## Few-Shot"@.is_prefix_of(line) {
        Some(0)
    } else if "## Contexto"@.is_prefix_of(line) {
        Some(1)
    } else if "## Conteúdo Principal"@.is_prefix_of(line) {
        Some(2)
    } else if "## Conteúdo Auxiliar"@.is_prefix_of(line) {
        Some(3)
    } else if "## Limitações"@.is_prefix_of(line) {
        Some(4)
    } else if "## Refatoração"@.is_prefix_of(line) {
        Some(5)
    } else if "## Orientações"@.is_prefix_of(line) {
        Some(6)
    } else if "## Testes"@.is_prefix_of(line) {
        Some(7)
    } else if "## Formato de Saída"@.is_prefix_of(line) {
        Some(8)
    } else {
        None
    }
}

/// Whether the line ends the scan: a rule, or the note under it.
pub open spec fn is_terminator(line: Seq<char>) -> bool {
    "---"@.is_prefix_of(line) || "📋"@.is_prefix_of(line)
}

/// The key by which the scan names the section in slot `i`.
pub open spec fn section_key(i: int) -> Seq<char> {
    if i == 0 {
        "few_shot"@
    } else if i == 1 {
        "context"@
    } else if i == 2 {
        "main_content"@
    } else if i == 3 {
        "auxiliary_content"@
    } else if i == 4 {
        "limitations"@
    } else if i == 5 {
        "refactoring"@
    } else if i == 6 {
        "guidance"@
    } else if i == 7 {
        "tests"@
    } else {
        "output_format"@
    }
}

/// The slot that a key names, if it names one.
pub open spec fn key_slot(key: Seq<char>) -> Option<int> {
    if key == "few_shot"@ {
        Some(0)
    } else if key == "context"@ {
        Some(1)
    } else if key == "main_content"@ {
        Some(2)
    } else if key == "auxiliary_content"@ {
        Some(3)
    } else if key == "limitations"@ {
        Some(4)
    } else if key == "refactoring"@ {
        Some(5)
    } else if key == "guidance"@ {
        Some(6)
    } else if key == "tests"@ {
        Some(7)
    } else if key == "output_format"@ {
        Some(8)
    } else {
        None
    }
}

/// The slots after `content` was stored for `slot`: the trimmed content
/// replaces what the slot held, unless no slot is named or nothing but
/// whitespace is to be stored.
pub open spec fn store(
    slots: Seq<Option<Seq<char>>>,
    slot: Option<int>,
    content: Seq<char>,
) -> Seq<Option<Seq<char>>> {
    match slot {
        Some(k) => if 0 <= k < slots.len() && trim(content).len() > 0 {
            slots.update(k, Some(trim(content)))
        } else {
            slots
        },
        None => slots,
    }
}

/// The state of the scan over the lines of a preview.
pub struct ScanState {
    /// The slots filled so far.
    pub slots: Seq<Option<Seq<char>>>,
    /// The slot of the section that is open, if one is.
    pub current: Option<int>,
    /// The body collected for the open section.
    pub buffer: Seq<char>,
    /// Whether a rule or a note line was met.
    pub stopped: bool,
}

/// The state before the first line: nothing filled, no section open.
pub open spec fn initial_state() -> ScanState {
    ScanState { slots: empty_slots(), current: None, buffer: Seq::empty(), stopped: false }
}

/// The state after one more line. The line is trimmed first. A heading
/// stores the open section and opens its own; a rule or a note line stops
/// the scan; any other line that is not empty joins the body of the open
/// section, if one is open. After the stop nothing changes.
pub open spec fn scan_step(st: ScanState, raw_line: Seq<char>) -> ScanState {
    let line = trim(raw_line);
    if st.stopped {
        st
    } else {
        match header_slot(line) {
            Some(k) => ScanState {
                slots: store(st.slots, st.current, st.buffer),
                current: Some(k),
                buffer: Seq::empty(),
                stopped: false,
            },
            None => if is_terminator(line) {
                ScanState { slots: st.slots, current: st.current, buffer: st.buffer, stopped: true }
            } else if line.len() > 0 && st.current is Some {
                ScanState {
                    slots: st.slots,
                    current: st.current,
                    buffer: if st.buffer.len() > 0 {
                        st.buffer + "\n"@ + line
                    } else {
                        line
                    },
                    stopped: false,
                }
            } else {
                st
            },
        }
    }
}

/// The state after the given lines, taken in order from state `st`.
pub open spec fn scan(st: ScanState, lines: Seq<Seq<char>>) -> ScanState
    decreases lines.len(),
{
    if lines.len() == 0 {
        st
    } else {
        scan_step(scan(st, lines.drop_last()), lines.last())
    }
}

/// The slots read from a preview: the scan over its lines, and the section
/// that is open at the end stored.
pub open spec fn parse_structured(text: Seq<char>) -> Seq<Option<Seq<char>>> {
    let st = scan(initial_state(), lines(text));
    store(st.slots, st.current, st.buffer)
}

/// The slots read from a text without headings: the trimmed text as the main
/// content, or nothing where the text is but whitespace.
pub open spec fn parse_simple(text: Seq<char>) -> Seq<Option<Seq<char>>> {
    store(empty_slots(), Some(2), text)
}

/// The slots read from a text.
pub open spec fn parse_text(text: Seq<char>) -> Seq<Option<Seq<char>>> {
    if contains(text, "## "@) {
        parse_structured(text)
    } else {
        parse_simple(text)
    }
}

/// Once the scan has stopped, further lines change nothing.
pub proof fn lemma_scan_stopped(st: ScanState, rest: Seq<Seq<char>>)
    requires
        st.stopped,
    ensures
        scan(st, rest) == st,
    decreases rest.len(),
{
    if rest.len() > 0 {
        lemma_scan_stopped(st, rest.drop_last());
    }
}

/// Scanning two runs of lines one after the other is scanning them as one.
pub proof fn lemma_scan_concat(st: ScanState, a: Seq<Seq<char>>, b: Seq<Seq<char>>)
    ensures
        scan(st, a + b) == scan(scan(st, a), b),
    decreases b.len(),
{
    if b.len() == 0 {
        assert(a + b =~= a);
    } else {
        assert((a + b).drop_last() =~= a + b.drop_last());
        lemma_scan_concat(st, a, b.drop_last());
    }
}

/// Stores `content`, trimmed, as the attribute of the section that `section`
/// names. Nothing changes where `section` names no section or `content` is
/// but whitespace.
pub fn save_current_section(section: &str, content: &str, data: &mut PromptData)
    ensures
        final(data).slots() == store(old(data).slots(), key_slot(section@), content@),
{
    let trimmed = trim_str(content);
    if trimmed.as_str().is_empty() {
        return ;
    }
    if str_equals(section, "few_shot") {
        let mut few_shot = FewShot::new();
        few_shot.content = trimmed;
        data.few_shot = Some(few_shot);
    } else if str_equals(section, "context") {
        let mut context = Context::new();
        context.description = trimmed;
        data.context = Some(context);
    } else if str_equals(section, "main_content") {
        let mut main_content = MainContent::new();
        main_content.instructions = trimmed;
        data.main_content = Some(main_content);
    } else if str_equals(section, "auxiliary_content") {
        let mut auxiliary = AuxiliaryContent::new();
        auxiliary.data = trimmed;
        data.auxiliary_content = Some(auxiliary);
    } else if str_equals(section, "limitations") {
        let mut limitations = Limitations::new();
        limitations.text = trimmed;
        data.limitations = Some(limitations);
    } else if str_equals(section, "refactoring") {
        let mut refactoring = Refactoring::new();
        refactoring.text = trimmed;
        data.refactoring = Some(refactoring);
    } else if str_equals(section, "guidance") {
        let mut guidance = Guidance::new();
        guidance.text = trimmed;
        data.guidance = Some(guidance);
    } else if str_equals(section, "tests") {
        let mut tests = Tests::new();
        tests.text = trimmed;
        data.tests = Some(tests);
    } else if str_equals(section, "output_format") {
        let mut output_format = OutputFormat::new();
        output_format.text = trimmed;
        data.output_format = Some(output_format);
    }
    assert(data.slots() =~= store(old(data).slots(), key_slot(section@), content@));
}

/// Each key names its own slot, and the empty key names none.
pub proof fn lemma_section_keys()
    ensures
        forall|k: int| 0 <= k < 9 ==> key_slot(#[trigger] section_key(k)) == Some(k),
        forall|k: int| 0 <= k < 9 ==> (#[trigger] section_key(k)).len() > 0,
        key_slot(""@) is None,
        ""@.len() == 0,
{
    reveal_strlit("");
    reveal_strlit("few_shot");
    reveal_strlit("context");
    reveal_strlit("main_content");
    reveal_strlit("auxiliary_content");
    reveal_strlit("limitations");
    reveal_strlit("refactoring");
    reveal_strlit("guidance");
    reveal_strlit("tests");
    reveal_strlit("output_format");
    assert("few_shot"@.len() == 8 && "context"@.len() == 7 && "main_content"@.len() == 12);
    assert("auxiliary_content"@.len() == 17 && "limitations"@.len() == 11);
    assert("refactoring"@.len() == 11 && "guidance"@.len() == 8 && "tests"@.len() == 5);
    assert("output_format"@.len() == 13);
    assert("guidance"@[0] != "few_shot"@[0]);
    assert("refactoring"@[0] != "limitations"@[0]);
    assert(key_slot(section_key(0)) == Some(0int));
    assert(key_slot(section_key(1)) == Some(1int));
    assert(key_slot(section_key(2)) == Some(2int));
    assert(key_slot(section_key(3)) == Some(3int));
    assert(key_slot(section_key(4)) == Some(4int));
    assert(key_slot(section_key(5)) == Some(5int));
    assert(key_slot(section_key(6)) == Some(6int));
    assert(key_slot(section_key(7)) == Some(7int));
    assert(key_slot(section_key(8)) == Some(8int));
}

/// The key of the section whose heading the line begins with, if it begins
/// with one.
fn header_key(line: &Vec<char>) -> (key: Option<&'static str>)
    ensures
        match header_slot(line@) {
            Some(k) => key is Some && key->0@ == section_key(k) && 0 <= k < 9,
            None => key is None,
        },
{
    if chars_start_with(line, "## Few-shot") || chars_start_with(line, "## Few-Shot") {
        Some("few_shot")
    } else if chars_start_with(line, "## Contexto") {
        Some("context")
    } else if chars_start_with(line, "## Conteúdo Principal") {
        Some("main_content")
    } else if chars_start_with(line, "## Conteúdo Auxiliar") {
        Some("auxiliary_content")
    } else if chars_start_with(line, "## Limitações") {
        Some("limitations")
    } else if chars_start_with(line, "## Refatoração") {
        Some("refactoring")
    } else if chars_start_with(line, "## Orientações") {
        Some("guidance")
    } else if chars_start_with(line, "## Testes") {
        Some("tests")
    } else if chars_start_with(line, "## Formato de Saída") {
        Some("output_format")
    } else {
        None
    }
}

/// Whether the scan state is the one that the three variables of the
/// executable scan hold.
spec fn tracks(st: ScanState, data: PromptData, key: Seq<char>, buffer: Seq<char>) -> bool {
    &&& st.slots == data.slots()
    &&& st.current == key_slot(key)
    &&& st.current is Some <==> key.len() > 0
    &&& st.buffer == buffer
}

/// Reads a text without headings: the trimmed text becomes the main content,
/// and a text that is but whitespace fills nothing.
pub fn parse_simple_format(content: &str) -> (data: PromptData)
    ensures
        data.slots() == parse_simple(content@),
{
    let mut data = PromptData::new();
    save_current_section("main_content", content, &mut data);
    proof {
        lemma_section_keys();
        assert(section_key(2) == "main_content"@);
    }
    data
}

/// Reads a text into the sections of a prompt. A text with `"## "` in it is
/// scanned line by line for headings and their bodies; any other text is the
/// main content.
pub fn parse_prompt_content(content: &str) -> (data: PromptData)
    ensures
        data.slots() == parse_text(content@),
{
    if !str_contains(content, "## ") {
        return parse_simple_format(content);
    }
    let mut data = PromptData::new();
    let all = split_lines(content);
    let mut current_section: &str = "";
    let mut section_content = String::new();
    let ghost views = string_views(all@);
    let ghost mut st = initial_state();
    proof {
        lemma_section_keys();
        assert(views.take(0) =~= Seq::<Seq<char>>::empty());
    }
    let mut i: usize = 0;
    while i < all.len()
        invariant_except_break
            st == scan(initial_state(), views.take(i as int)),
            !st.stopped,
        invariant
            i <= all.len(),
            views == string_views(all@),
            tracks(st, data, current_section@, section_content@),
        ensures
            st == scan(initial_state(), views) || (i == all.len() && st == scan(
                initial_state(),
                views.take(i as int),
            )),
        decreases all.len() - i,
    {
        let line = trim_str(all[i].as_str());
        let chars = to_chars(line.as_str());
        proof {
            lemma_section_keys();
            assert(views.take(i + 1).drop_last() =~= views.take(i as int));
            assert(views.take(i + 1).last() == all@[i as int]@);
        }
        let ghost next = scan_step(st, all@[i as int]@);
        match header_key(&chars) {
            Some(key) => {
                save_current_section(current_section, section_content.as_str(), &mut data);
                current_section = key;
                section_content = String::new();
            },
            None => {
                if chars_start_with(&chars, "---") || chars_start_with(&chars, "📋") {
                    proof {
                        lemma_scan_stopped(next, views.skip(i + 1));
                        lemma_scan_concat(initial_state(), views.take(i + 1), views.skip(i + 1));
                        assert(views.take(i + 1) + views.skip(i + 1) =~= views);
                        st = next;
                    }
                    break ;
                } else if !line.as_str().is_empty() && !current_section.is_empty() {
                    if !section_content.as_str().is_empty() {
                        section_content.append("\n");
                    }
                    section_content.append(line.as_str());
                }
            },
        }
        proof {
            st = next;
        }
        i += 1;
    }
    proof {
        assert(views.take(all.len() as int) =~= views);
    }
    save_current_section(current_section, section_content.as_str(), &mut data);
    data
}

} // verus!
