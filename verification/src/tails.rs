//! Where the tails of a revocation registry are kept.
use vstd::prelude::*;

use crate::cl;
use crate::error::Error;

verus! {

/// Keeps the tails of a registry, and says where they are and what they hash to.
pub trait TailsWriter: Sized {
    /// Whether a write may take the writer from one state to another and return a result,
    /// given the generator of the tails. Each writer may say what holds of its writes; unless
    /// it does, nothing is said of them.
    open spec fn wrote(
        before: Self,
        generator: cl::RevocationTailsGenerator,
        after: Self,
        res: Result<(String, String), Error>,
    ) -> bool {
        true
    }

    /// Keeps the tails that the generator makes, and returns their location and hash.
    fn write(&mut self, generator: &mut cl::RevocationTailsGenerator) -> (res: Result<
        (String, String),
        Error,
    >)
        ensures
            Self::wrote(*old(self), *old(generator), *final(self), res),
    ;
}

} // verus!
