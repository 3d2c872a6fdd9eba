//! The context section.

use crate::models::section::{render_block, tagged_block};
use vstd::prelude::*;

verus! {

/// The persona or the setting that the assistant is given.
#[derive(Debug, Clone)]
pub struct Context {
    /// Who the assistant is, or what the task is about.
    pub description: String,
}

impl Context {
    /// A context with an empty description.
    pub fn new() -> (section: Self)
        ensures
            section.description@.len() == 0,
    {
        Context { description: String::new() }
    }

    /// The block of this section: the description between the two markers, as it
    /// is. With nothing in it, the block is the two marker lines around an
    /// empty line.
    pub fn generate_text(&self) -> (out: String)
        ensures
            out@ == tagged_block("CONTEXT"@, self.description@),
            self.description@.len() == 0 ==> out@ == "<START_CONTEXT>\n\n<END_CONTEXT>\n"@,
    {
        let out = render_block("CONTEXT", self.description.as_str());
        proof {
            if self.description@.len() == 0 {
                reveal_strlit("<START_");
                reveal_strlit(">\n");
                reveal_strlit("\n<END_");
                reveal_strlit("CONTEXT");
                reveal_strlit("<START_CONTEXT>\n\n<END_CONTEXT>\n");
                assert(out@ =~= "<START_CONTEXT>\n\n<END_CONTEXT>\n"@);
            }
        }
        out
    }
}

} // verus!
