//! The auxiliary content section.

use crate::models::section::{render_block, tagged_block};
use vstd::prelude::*;

verus! {

/// Material that supports the task: data, samples, descriptions of attachments.
#[derive(Debug, Clone)]
pub struct AuxiliaryContent {
    /// The supporting material.
    pub data: String,
}

impl AuxiliaryContent {
    /// An auxiliary content section with empty data.
    pub fn new() -> (section: Self)
        ensures
            section.data@.len() == 0,
    {
        AuxiliaryContent { data: String::new() }
    }

    /// The block of this section: the data between the two markers, as it
    /// is. With nothing in it, the block is the two marker lines around an
    /// empty line.
    pub fn generate_text(&self) -> (out: String)
        ensures
            out@ == tagged_block("AUXILIARY_CONTENT"@, self.data@),
            self.data@.len() == 0 ==> out@ == "<START_AUXILIARY_CONTENT>\n\n<END_AUXILIARY_CONTENT>\n"@,
    {
        let out = render_block("AUXILIARY_CONTENT", self.data.as_str());
        proof {
            if self.data@.len() == 0 {
                reveal_strlit("<START_");
                reveal_strlit(">\n");
                reveal_strlit("\n<END_");
                reveal_strlit("AUXILIARY_CONTENT");
                reveal_strlit("<START_AUXILIARY_CONTENT>\n\n<END_AUXILIARY_CONTENT>\n");
                assert(out@ =~= "<START_AUXILIARY_CONTENT>\n\n<END_AUXILIARY_CONTENT>\n"@);
            }
        }
        out
    }
}

} // verus!
