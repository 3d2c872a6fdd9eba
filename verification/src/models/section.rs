//! What the nine sections share: their fixed order, their tags, and the
//! tagged block that each of them renders to.

use vstd::prelude::*;
use vstd::string::*;

verus! {

/// The tag of the section in slot `i`, as it stands in the block's markers.
pub open spec fn section_tag(i: int) -> Seq<char> {
    if i == 0 {
        "FEW_SHOT"@
    } else if i == 1 {
        "CONTEXT"@
    } else if i == 2 {
        "MAIN_CONTENT"@
    } else if i == 3 {
        "AUXILIARY_CONTENT"@
    } else if i == 4 {
        "LIMITATIONS"@
    } else if i == 5 {
        "REFACTORING"@
    } else if i == 6 {
        "GUIDANCE"@
    } else if i == 7 {
        "TESTS"@
    } else {
        "OUTPUT_FORMAT"@
    }
}

/// The heading of the section in slot `i`, as the preview shows it.
pub open spec fn section_heading(i: int) -> Seq<char> {
    if i == 0 {
        "Few-Shot Examples"@
    } else if i == 1 {
        "Contexto"@
    } else if i == 2 {
        "Conteúdo Principal"@
    } else if i == 3 {
        "Conteúdo Auxiliar"@
    } else if i == 4 {
        "Limitações"@
    } else if i == 5 {
        "Refatoração (Código)"@
    } else if i == 6 {
        "Orientações"@
    } else if i == 7 {
        "Testes"@
    } else {
        "Formato de Saída"@
    }
}

/// The block of a section: a start marker line, the body as it is, and an end
/// marker line.
pub open spec fn tagged_block(tag: Seq<char>, body: Seq<char>) -> Seq<char> {
    "<START_"@ + tag + ">\n"@ + body + "\n<END_"@ + tag + ">\n"@
}

/// Renders the block of a section from its tag and body.
pub fn render_block(tag: &str, body: &str) -> (out: String)
    ensures
        out@ == tagged_block(tag@, body@),
{
    let mut out = String::from_str("<START_");
    out.append(tag);
    out.append(">\n");
    out.append(body);
    out.append("\n<END_");
    out.append(tag);
    out.append(">\n");
    out
}

} // verus!
