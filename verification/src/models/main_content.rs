//! The main content section.

use crate::models::section::{render_block, tagged_block};
use vstd::prelude::*;

verus! {

/// The task itself: what the assistant is asked to do.
#[derive(Debug, Clone)]
pub struct MainContent {
    /// The instructions for the assistant.
    pub instructions: String,
}

impl MainContent {
    /// A main content section with empty instructions.
    pub fn new() -> (section: Self)
        ensures
            section.instructions@.len() == 0,
    {
        MainContent { instructions: String::new() }
    }

    /// The block of this section: the instructions between the two markers, as it
    /// is. With nothing in it, the block is the two marker lines around an
    /// empty line.
    pub fn generate_text(&self) -> (out: String)
        ensures
            out@ == tagged_block("MAIN_CONTENT"@, self.instructions@),
            self.instructions@.len() == 0 ==> out@ == "<START_MAIN_CONTENT>\n\n<END_MAIN_CONTENT>\n"@,
    {
        let out = render_block("MAIN_CONTENT", self.instructions.as_str());
        proof {
            if self.instructions@.len() == 0 {
                reveal_strlit("<START_");
                reveal_strlit(">\n");
                reveal_strlit("\n<END_");
                reveal_strlit("MAIN_CONTENT");
                reveal_strlit("<START_MAIN_CONTENT>\n\n<END_MAIN_CONTENT>\n");
                assert(out@ =~= "<START_MAIN_CONTENT>\n\n<END_MAIN_CONTENT>\n"@);
            }
        }
        out
    }
}

} // verus!
