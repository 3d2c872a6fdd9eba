//! The refactoring section.

use crate::models::section::{render_block, tagged_block};
use vstd::prelude::*;

verus! {

/// What to change in the code at hand, for prompts about code.
#[derive(Debug, Clone)]
pub struct Refactoring {
    /// The refactoring instructions.
    pub text: String,
}

impl Refactoring {
    /// A refactoring section with empty text.
    pub fn new() -> (section: Self)
        ensures
            section.text@.len() == 0,
    {
        Refactoring { text: String::new() }
    }

    /// The block of this section: the text between the two markers, as it
    /// is. With nothing in it, the block is the two marker lines around an
    /// empty line.
    pub fn generate_text(&self) -> (out: String)
        ensures
            out@ == tagged_block("REFACTORING"@, self.text@),
            self.text@.len() == 0 ==> out@ == "<START_REFACTORING>\n\n<END_REFACTORING>\n"@,
    {
        let out = render_block("REFACTORING", self.text.as_str());
        proof {
            if self.text@.len() == 0 {
                reveal_strlit("<START_");
                reveal_strlit(">\n");
                reveal_strlit("\n<END_");
                reveal_strlit("REFACTORING");
                reveal_strlit("<START_REFACTORING>\n\n<END_REFACTORING>\n");
                assert(out@ =~= "<START_REFACTORING>\n\n<END_REFACTORING>\n"@);
            }
        }
        out
    }
}

} // verus!
