use vstd::prelude::*;

verus! {

/// Error type for INI operations.
#[derive(PartialEq, Eq, Structural, Debug)]
pub enum Error {
    /// The text is not a well-formed INI document.
    Parse,
}

} // verus!
