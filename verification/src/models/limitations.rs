//! The limitations section.

use crate::models::section::{render_block, tagged_block};
use vstd::prelude::*;

verus! {

/// The bounds that the answer has to stay within.
#[derive(Debug, Clone)]
pub struct Limitations {
    /// The constraints on the answer.
    pub text: String,
}

impl Limitations {
    /// A limitations section with empty text.
    pub fn new() -> (section: Self)
        ensures
            section.text@.len() == 0,
    {
        Limitations { text: String::new() }
    }

    /// The block of this section: the text between the two markers, as it
    /// is. With nothing in it, the block is the two marker lines around an
    /// empty line.
    pub fn generate_text(&self) -> (out: String)
        ensures
            out@ == tagged_block("LIMITATIONS"@, self.text@),
            self.text@.len() == 0 ==> out@ == "<START_LIMITATIONS>\n\n<END_LIMITATIONS>\n"@,
    {
        let out = render_block("LIMITATIONS", self.text.as_str());
        proof {
            if self.text@.len() == 0 {
                reveal_strlit("<START_");
                reveal_strlit(">\n");
                reveal_strlit("\n<END_");
                reveal_strlit("LIMITATIONS");
                reveal_strlit("<START_LIMITATIONS>\n\n<END_LIMITATIONS>\n");
                assert(out@ =~= "<START_LIMITATIONS>\n\n<END_LIMITATIONS>\n"@);
            }
        }
        out
    }
}

} // verus!
