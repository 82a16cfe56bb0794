use vstd::prelude::*;

verus! {

/// The error type of the writers that rendering targets.
#[verifier::external_type_specification]
#[verifier::external_body]
pub struct ExIoError(std::io::Error);

} // verus!
