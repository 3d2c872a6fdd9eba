//! The few-shot section.

use crate::models::section::{render_block, tagged_block};
use vstd::prelude::*;

verus! {

/// A worked example: a question and the reasoning that answers it.
#[derive(Debug, Clone)]
pub struct FewShot {
    /// The example, question and reasoning together.
    pub content: String,
}

impl FewShot {
    /// A few-shot section with empty content.
    pub fn new() -> (section: Self)
        ensures
            section.content@.len() == 0,
    {
        FewShot { content: String::new() }
    }

    /// The block of this section: the content between the two markers, as it
    /// is. With nothing in it, the block is the two marker lines around an
    /// empty line.
    pub fn generate_text(&self) -> (out: String)
        ensures
            out@ == tagged_block("FEW_SHOT"@, self.content@),
            self.content@.len() == 0 ==> out@ == "<START_FEW_SHOT>\n\n<END_FEW_SHOT>\n"@,
    {
        let out = render_block("FEW_SHOT", self.content.as_str());
        proof {
            if self.content@.len() == 0 {
                reveal_strlit("<START_");
                reveal_strlit(">\n");
                reveal_strlit("\n<END_");
                reveal_strlit("FEW_SHOT");
                reveal_strlit("<START_FEW_SHOT>\n\n<END_FEW_SHOT>\n");
                assert(out@ =~= "<START_FEW_SHOT>\n\n<END_FEW_SHOT>\n"@);
            }
        }
        out
    }
}

} // verus!
