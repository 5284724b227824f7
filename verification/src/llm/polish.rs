//! Polishing rough text when no language model is linked in.
use vstd::prelude::*;
use crate::text::string_of;

verus! {

/// Polishes rough text; with no model linked in, the text comes back
/// unchanged.
pub fn polish(rough_text: &str) -> (r: Result<String, String>)
    ensures
        r matches Ok(s) && s@ == rough_text@,
{
    Ok(string_of(rough_text))
}

} // verus!
