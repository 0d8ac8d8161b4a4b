use vstd::prelude::*;

verus! {

/// The one failure the root-finding routines can report: the supplied
/// bracket does not show a sign change, so no root is guaranteed to lie
/// inside it.
#[derive(Clone, Copy, Debug, PartialEq, Eq, Structural)]
pub enum MathError {
    BoundsError,
}

impl MathError {
    /// A human-readable description of the failure.
    pub fn message(&self) -> (s: String)
        ensures
            s@ == "Invalid bounds for root-finding."@,
    {
        "Invalid bounds for root-finding.".to_string()
    }
}

} // verus!
