//! Naming the file that a prompt is saved to.

use vstd::prelude::*;
use vstd::string::*;

verus! {

/// The name of the text file for a prompt with the given title: the title
/// with `.txt` behind it.
pub fn prompt_file_name(title: &str) -> (name: String)
    ensures
        name@ == title@ + ".txt"@,
{
    String::from_str(title).concat(".txt")
}

} // verus!
