//! The prompt: nine optional sections in a fixed order, and its three
//! renderings.
//!
//! The model of a prompt is the sequence of its nine slots, each the text of
//! its section's attribute where the section is present. The renderings are
//! defined on that model.

use crate::models::auxiliary_content::AuxiliaryContent;
use crate::models::context::Context;
use crate::models::few_shot::FewShot;
use crate::models::guidance::Guidance;
use crate::models::limitations::Limitations;
use crate::models::main_content::MainContent;
use crate::models::output_format::OutputFormat;
use crate::models::refactoring::Refactoring;
use crate::models::section::{section_heading, section_tag, tagged_block};
use crate::models::tests::Tests;
use crate::text::model::{join, lines, string_views, trim};
use crate::text::ops::{join_strings, split_lines, str_starts_with, trim_str};
use vstd::prelude::*;
use vstd::string::*;

verus! {

/// The slots of a prompt that holds no section.
pub open spec fn empty_slots() -> Seq<Option<Seq<char>>> {
    Seq::new(9, |i: int| None)
}

/// The sentence that stands for a prompt with nothing to show.
pub open spec fn empty_notice() -> Seq<char> {
    "Nenhum campo foi preenchido ainda."@
}

/// Whether a line is one of the two marker lines of a block.
pub open spec fn is_marker_line(line: Seq<char>) -> bool {
    "<START_"@.is_prefix_of(line) || "<END_"@.is_prefix_of(line)
}

/// The test that the lines of the clean rendering pass.
pub open spec fn keeps_line() -> spec_fn(Seq<char>) -> bool {
    |line: Seq<char>| !is_marker_line(line)
}

/// `text` without its marker lines: the other lines, each as it is, joined by
/// line feeds.
pub open spec fn remove_markers_text(text: Seq<char>) -> Seq<char> {
    join(lines(text).filter(keeps_line()), "\n"@)
}

/// What the section in slot `i` with the given body contributes to the
/// tagged rendering: its block, with or without the marker lines.
pub open spec fn section_text(i: int, body: Seq<char>, include_markers: bool) -> Seq<char> {
    let block = tagged_block(section_tag(i), body);
    if include_markers {
        block
    } else {
        remove_markers_text(block)
    }
}

/// The contributions of the sections present in the first `n` slots, in slot
/// order.
pub open spec fn section_texts(
    slots: Seq<Option<Seq<char>>>,
    n: int,
    include_markers: bool,
) -> Seq<Seq<char>>
    decreases n,
{
    if n <= 0 {
        Seq::empty()
    } else {
        let before = section_texts(slots, n - 1, include_markers);
        match slots[n - 1] {
            Some(body) => before.push(section_text(n - 1, body, include_markers)),
            None => before,
        }
    }
}

/// The tagged rendering: the contributions of the sections present, a blank
/// line between neighbours, or the notice where no section is present.
pub open spec fn prompt_text(slots: Seq<Option<Seq<char>>>, include_markers: bool) -> Seq<char> {
    let parts = section_texts(slots, 9, include_markers);
    if parts.len() == 0 {
        empty_notice()
    } else {
        join(parts, "\n\n"@)
    }
}

/// The preview entry of the section in slot `i`: its heading, a blank line,
/// and the trimmed body.
pub open spec fn preview_entry(i: int, body: Seq<char>) -> Seq<char> {
    "## "@ + section_heading(i) + "\n\n"@ + trim(body)
}

/// The preview entries of the first `n` slots, in slot order: one for each
/// section that is present and whose body is more than whitespace.
pub open spec fn preview_entries(slots: Seq<Option<Seq<char>>>, n: int) -> Seq<Seq<char>>
    decreases n,
{
    if n <= 0 {
        Seq::empty()
    } else {
        let before = preview_entries(slots, n - 1);
        match slots[n - 1] {
            Some(body) => if trim(body).len() > 0 {
                before.push(preview_entry(n - 1, body))
            } else {
                before
            },
            None => before,
        }
    }
}

/// The rule that closes the preview.
pub open spec fn preview_rule() -> Seq<char> {
    "---"@
}

/// The note under the rule of the preview.
pub open spec fn preview_note() -> Seq<char> {
    "📋 **Nota:** Ao copiar ou salvar, apenas o texto do prompt será incluído, sem os subtítulos ou marcações acima."@
}

/// The preview rendering: the entries, then the rule and the note, a blank
/// line between neighbours; or the notice where there is no entry.
pub open spec fn preview_text(slots: Seq<Option<Seq<char>>>) -> Seq<char> {
    let entries = preview_entries(slots, 9);
    if entries.len() == 0 {
        empty_notice()
    } else {
        join(entries.push(preview_rule()).push(preview_note()), "\n\n"@)
    }
}

/// The slots filled from the texts of nine fields: a field with more than
/// whitespace in it fills its slot with its text as it is, any other leaves
/// the slot empty.
pub open spec fn filled_slots(fields: Seq<Seq<char>>) -> Seq<Option<Seq<char>>> {
    Seq::new(
        9,
        |i: int|
            if trim(fields[i]).len() > 0 {
                Some(fields[i])
            } else {
                None
            },
    )
}

/// Whether a field holds more than whitespace.
fn is_filled(field: &str) -> (filled: bool)
    ensures
        filled == (trim(field@).len() > 0),
{
    !trim_str(field).as_str().is_empty()
}

/// The sections of a prompt, each present or not.
#[derive(Debug, Clone)]
pub struct PromptData {
    pub few_shot: Option<FewShot>,
    pub context: Option<Context>,
    pub main_content: Option<MainContent>,
    pub auxiliary_content: Option<AuxiliaryContent>,
    pub limitations: Option<Limitations>,
    pub refactoring: Option<Refactoring>,
    pub guidance: Option<Guidance>,
    pub tests: Option<Tests>,
    pub output_format: Option<OutputFormat>,
}

/// Appends what the section in slot `n` contributes to the tagged rendering,
/// if the section is present; `block` is its block.
fn push_section(
    parts: &mut Vec<String>,
    block: Option<String>,
    include_markers: bool,
    Ghost(slots): Ghost<Seq<Option<Seq<char>>>>,
    Ghost(n): Ghost<int>,
)
    requires
        0 <= n < slots.len(),
        string_views(old(parts)@) == section_texts(slots, n, include_markers),
        match slots[n] {
            Some(body) => block is Some && block->0@ == tagged_block(section_tag(n), body),
            None => block is None,
        },
    ensures
        string_views(final(parts)@) == section_texts(slots, n + 1, include_markers),
{
    if let Some(block) = block {
        let part = if include_markers {
            block
        } else {
            PromptData::remove_markers(block.as_str())
        };
        parts.push(part);
        assert(string_views(parts@) =~= string_views(old(parts)@).push(part@));
    }
}

/// Appends the preview entry of the section in slot `n`, if the section is
/// present and its body is more than whitespace.
fn push_entry(
    entries: &mut Vec<String>,
    heading: &str,
    body: Option<&str>,
    Ghost(slots): Ghost<Seq<Option<Seq<char>>>>,
    Ghost(n): Ghost<int>,
)
    requires
        0 <= n < slots.len(),
        heading@ == section_heading(n),
        string_views(old(entries)@) == preview_entries(slots, n),
        match slots[n] {
            Some(text) => body is Some && body->0@ == text,
            None => body is None,
        },
    ensures
        string_views(final(entries)@) == preview_entries(slots, n + 1),
{
    if let Some(body) = body {
        let trimmed = trim_str(body);
        if !trimmed.as_str().is_empty() {
            let mut entry = String::from_str("## ");
            entry.append(heading);
            entry.append("\n\n");
            entry.append(trimmed.as_str());
            entries.push(entry);
            assert(string_views(entries@) =~= string_views(old(entries)@).push(entry@));
        }
    }
}

impl PromptData {
    /// The model of the prompt: the bodies of its nine slots, in order.
    pub open spec fn slots(&self) -> Seq<Option<Seq<char>>> {
        seq![
            match self.few_shot {
                Some(section) => Some(section.content@),
                None => None,
            },
            match self.context {
                Some(section) => Some(section.description@),
                None => None,
            },
            match self.main_content {
                Some(section) => Some(section.instructions@),
                None => None,
            },
            match self.auxiliary_content {
                Some(section) => Some(section.data@),
                None => None,
            },
            match self.limitations {
                Some(section) => Some(section.text@),
                None => None,
            },
            match self.refactoring {
                Some(section) => Some(section.text@),
                None => None,
            },
            match self.guidance {
                Some(section) => Some(section.text@),
                None => None,
            },
            match self.tests {
                Some(section) => Some(section.text@),
                None => None,
            },
            match self.output_format {
                Some(section) => Some(section.text@),
                None => None,
            },
        ]
    }

    /// A prompt that holds no section.
    pub fn new() -> (data: Self)
        ensures
            data.slots() == empty_slots(),
    {
        let data = PromptData {
            few_shot: None,
            context: None,
            main_content: None,
            auxiliary_content: None,
            limitations: None,
            refactoring: None,
            guidance: None,
            tests: None,
            output_format: None,
        };
        assert(data.slots() =~= empty_slots());
        data
    }

    /// The prompt that nine fields describe, given in slot order. Each field
    /// with more than whitespace in it becomes a section that holds the
    /// field's text as it is.
    pub fn from_fields(
        few_shot: &str,
        context: &str,
        main_content: &str,
        auxiliary_content: &str,
        limitations: &str,
        refactoring: &str,
        guidance: &str,
        tests: &str,
        output_format: &str,
    ) -> (data: Self)
        ensures
            data.slots() == filled_slots(
                seq![
                    few_shot@,
                    context@,
                    main_content@,
                    auxiliary_content@,
                    limitations@,
                    refactoring@,
                    guidance@,
                    tests@,
                    output_format@,
                ],
            ),
    {
        let mut data = PromptData::new();
        if is_filled(few_shot) {
            data.few_shot = Some(FewShot { content: String::from_str(few_shot) });
        }
        if is_filled(context) {
            data.context = Some(Context { description: String::from_str(context) });
        }
        if is_filled(main_content) {
            data.main_content = Some(MainContent { instructions: String::from_str(main_content) });
        }
        if is_filled(auxiliary_content) {
            data.auxiliary_content = Some(
                AuxiliaryContent { data: String::from_str(auxiliary_content) },
            );
        }
        if is_filled(limitations) {
            data.limitations = Some(Limitations { text: String::from_str(limitations) });
        }
        if is_filled(refactoring) {
            data.refactoring = Some(Refactoring { text: String::from_str(refactoring) });
        }
        if is_filled(guidance) {
            data.guidance = Some(Guidance { text: String::from_str(guidance) });
        }
        if is_filled(tests) {
            data.tests = Some(Tests { text: String::from_str(tests) });
        }
        if is_filled(output_format) {
            data.output_format = Some(OutputFormat { text: String::from_str(output_format) });
        }
        assert(data.slots() =~= filled_slots(
            seq![
                few_shot@,
                context@,
                main_content@,
                auxiliary_content@,
                limitations@,
                refactoring@,
                guidance@,
                tests@,
                output_format@,
            ],
        ));
        data
    }

    /// The tagged rendering of the prompt. Every section that is present
    /// contributes its block, whatever its body holds; without markers, the
    /// marker lines are taken out of each block. Where no section is present
    /// the result is the notice.
    pub fn build_prompt(&self, include_section_markers: bool) -> (out: String)
        ensures
            out@ == prompt_text(self.slots(), include_section_markers),
            self.slots() == empty_slots() ==> out@ == empty_notice(),
    {
        let ghost slots = self.slots();
        let mut sections: Vec<String> = Vec::new();
        assert(string_views(sections@) =~= section_texts(slots, 0, include_section_markers));

        let block = match &self.few_shot {
            Some(section) => Some(section.generate_text()),
            None => None,
        };
        push_section(&mut sections, block, include_section_markers, Ghost(slots), Ghost(0));

        let block = match &self.context {
            Some(section) => Some(section.generate_text()),
            None => None,
        };
        push_section(&mut sections, block, include_section_markers, Ghost(slots), Ghost(1));

        let block = match &self.main_content {
            Some(section) => Some(section.generate_text()),
            None => None,
        };
        push_section(&mut sections, block, include_section_markers, Ghost(slots), Ghost(2));

        let block = match &self.auxiliary_content {
            Some(section) => Some(section.generate_text()),
            None => None,
        };
        push_section(&mut sections, block, include_section_markers, Ghost(slots), Ghost(3));

        let block = match &self.limitations {
            Some(section) => Some(section.generate_text()),
            None => None,
        };
        push_section(&mut sections, block, include_section_markers, Ghost(slots), Ghost(4));

        let block = match &self.refactoring {
            Some(section) => Some(section.generate_text()),
            None => None,
        };
        push_section(&mut sections, block, include_section_markers, Ghost(slots), Ghost(5));

        let block = match &self.guidance {
            Some(section) => Some(section.generate_text()),
            None => None,
        };
        push_section(&mut sections, block, include_section_markers, Ghost(slots), Ghost(6));

        let block = match &self.tests {
            Some(section) => Some(section.generate_text()),
            None => None,
        };
        push_section(&mut sections, block, include_section_markers, Ghost(slots), Ghost(7));

        let block = match &self.output_format {
            Some(section) => Some(section.generate_text()),
            None => None,
        };
        push_section(&mut sections, block, include_section_markers, Ghost(slots), Ghost(8));

        proof {
            lemma_no_section_no_text(include_section_markers);
        }
        if sections.len() == 0 {
            String::from_str("Nenhum campo foi preenchido ainda.")
        } else {
            join_strings(&sections, "\n\n")
        }
    }

    /// `text` without the lines that begin with a start or an end marker. The
    /// other lines stay as they are and are joined by line feeds.
    pub fn remove_markers(text: &str) -> (out: String)
        ensures
            out@ == remove_markers_text(text@),
    {
        let all = split_lines(text);
        let mut kept: Vec<String> = Vec::new();
        let mut i: usize = 0;
        assert(string_views(all@).take(0) =~= Seq::<Seq<char>>::empty());
        assert(string_views(kept@) =~= Seq::<Seq<char>>::empty());
        while i < all.len()
            invariant
                i <= all.len(),
                string_views(kept@) == string_views(all@).take(i as int).filter(keeps_line()),
            decreases all.len() - i,
        {
            let line = &all[i];
            let ghost before = string_views(kept@);
            proof {
                let views = string_views(all@);
                assert(views.take(i + 1).drop_last() =~= views.take(i as int));
                assert(views.take(i + 1).last() == line@);
            }
            let keep = !str_starts_with(line.as_str(), "<START_") && !str_starts_with(
                line.as_str(),
                "<END_",
            );
            assert(keep == keeps_line()(line@));
            if keep {
                kept.push(line.clone());
                assert(string_views(kept@) =~= before.push(line@));
            }
            proof {
                reveal(Seq::filter);
            }
            i += 1;
        }
        assert(string_views(all@).take(all.len() as int) =~= string_views(all@));
        join_strings(&kept, "\n")
    }

    /// The preview rendering of the prompt. Every section that is present and
    /// whose body is more than whitespace contributes its heading and its
    /// trimmed body; the rule and the note close the preview. Where no
    /// section contributes the result is the notice.
    pub fn build_preview_prompt(&self) -> (out: String)
        ensures
            out@ == preview_text(self.slots()),
            self.slots() == empty_slots() ==> out@ == empty_notice(),
    {
        let ghost slots = self.slots();
        let mut sections: Vec<String> = Vec::new();
        assert(string_views(sections@) =~= preview_entries(slots, 0));

        let body = match &self.few_shot {
            Some(section) => Some(section.content.as_str()),
            None => None,
        };
        push_entry(&mut sections, "Few-Shot Examples", body, Ghost(slots), Ghost(0));

        let body = match &self.context {
            Some(section) => Some(section.description.as_str()),
            None => None,
        };
        push_entry(&mut sections, "Contexto", body, Ghost(slots), Ghost(1));

        let body = match &self.main_content {
            Some(section) => Some(section.instructions.as_str()),
            None => None,
        };
        push_entry(&mut sections, "Conteúdo Principal", body, Ghost(slots), Ghost(2));

        let body = match &self.auxiliary_content {
            Some(section) => Some(section.data.as_str()),
            None => None,
        };
        push_entry(&mut sections, "Conteúdo Auxiliar", body, Ghost(slots), Ghost(3));

        let body = match &self.limitations {
            Some(section) => Some(section.text.as_str()),
            None => None,
        };
        push_entry(&mut sections, "Limitações", body, Ghost(slots), Ghost(4));

        let body = match &self.refactoring {
            Some(section) => Some(section.text.as_str()),
            None => None,
        };
        push_entry(&mut sections, "Refatoração (Código)", body, Ghost(slots), Ghost(5));

        let body = match &self.guidance {
            Some(section) => Some(section.text.as_str()),
            None => None,
        };
        push_entry(&mut sections, "Orientações", body, Ghost(slots), Ghost(6));

        let body = match &self.tests {
            Some(section) => Some(section.text.as_str()),
            None => None,
        };
        push_entry(&mut sections, "Testes", body, Ghost(slots), Ghost(7));

        let body = match &self.output_format {
            Some(section) => Some(section.text.as_str()),
            None => None,
        };
        push_entry(&mut sections, "Formato de Saída", body, Ghost(slots), Ghost(8));

        proof {
            lemma_no_section_no_entry();
        }
        if sections.len() == 0 {
            String::from_str("Nenhum campo foi preenchido ainda.")
        } else {
            sections.push(String::from_str("---"));
            sections.push(
                String::from_str(
                    "📋 **Nota:** Ao copiar ou salvar, apenas o texto do prompt será incluído, sem os subtítulos ou marcações acima.",
                ),
            );
            assert(string_views(sections@) =~= preview_entries(slots, 9).push(
                preview_rule(),
            ).push(preview_note()));
            join_strings(&sections, "\n\n")
        }
    }
}

/// A prompt without sections has no contribution to join.
pub proof fn lemma_no_section_no_text(include_markers: bool)
    ensures
        section_texts(empty_slots(), 9, include_markers).len() == 0,
{
    reveal_with_fuel(section_texts, 10);
}

/// A prompt without sections has no preview entry.
pub proof fn lemma_no_section_no_entry()
    ensures
        preview_entries(empty_slots(), 9).len() == 0,
{
    reveal_with_fuel(preview_entries, 10);
}

} // verus!
