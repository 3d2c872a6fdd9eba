//! The output format section.

use crate::models::section::{render_block, tagged_block};
use vstd::prelude::*;

verus! {

/// The format the answer is to take: plain text, Markdown, HTML and the like.
#[derive(Debug, Clone)]
pub struct OutputFormat {
    /// The description of the format.
    pub text: String,
}

impl OutputFormat {
    /// An output format section with empty text.
    pub fn new() -> (section: Self)
        ensures
            section.text@.len() == 0,
    {
        OutputFormat { text: String::new() }
    }

    /// The block of this section: the text between the two markers, as it
    /// is. With nothing in it, the block is the two marker lines around an
    /// empty line.
    pub fn generate_text(&self) -> (out: String)
        ensures
            out@ == tagged_block("OUTPUT_FORMAT"@, self.text@),
            self.text@.len() == 0 ==> out@ == "<START_OUTPUT_FORMAT>\n\n<END_OUTPUT_FORMAT>\n"@,
    {
        let out = render_block("OUTPUT_FORMAT", self.text.as_str());
        proof {
            if self.text@.len() == 0 {
                reveal_strlit("<START_");
                reveal_strlit(">\n");
                reveal_strlit("\n<END_");
                reveal_strlit("OUTPUT_FORMAT");
                reveal_strlit("<START_OUTPUT_FORMAT>\n\n<END_OUTPUT_FORMAT>\n");
                assert(out@ =~= "<START_OUTPUT_FORMAT>\n\n<END_OUTPUT_FORMAT>\n"@);
            }
        }
        out
    }
}

} // verus!
