//! The guidance section.

use crate::models::section::{render_block, tagged_block};
use vstd::prelude::*;

verus! {

/// How the answer is to be presented: tone, style, audience.
#[derive(Debug, Clone)]
pub struct Guidance {
    /// The guidance on presentation.
    pub text: String,
}

impl Guidance {
    /// A guidance section with empty text.
    pub fn new() -> (section: Self)
        ensures
            section.text@.len() == 0,
    {
        Guidance { text: String::new() }
    }

    /// The block of this section: the text between the two markers, as it
    /// is. With nothing in it, the block is the two marker lines around an
    /// empty line.
    pub fn generate_text(&self) -> (out: String)
        ensures
            out@ == tagged_block("GUIDANCE"@, self.text@),
            self.text@.len() == 0 ==> out@ == "<START_GUIDANCE>\n\n<END_GUIDANCE>\n"@,
    {
        let out = render_block("GUIDANCE", self.text.as_str());
        proof {
            if self.text@.len() == 0 {
                reveal_strlit("<START_");
                reveal_strlit(">\n");
                reveal_strlit("\n<END_");
                reveal_strlit("GUIDANCE");
                reveal_strlit("<START_GUIDANCE>\n\n<END_GUIDANCE>\n");
                assert(out@ =~= "<START_GUIDANCE>\n\n<END_GUIDANCE>\n"@);
            }
        }
        out
    }
}

} // verus!
