//! The one source of chance that the board draws on.

use vstd::prelude::*;

verus! {

/// A coin toss: `rand::random::<bool>()`, which draws from the `rand`
/// crate's thread-local generator. The contract claims nothing of the
/// value: two calls may differ, and callers must hold for either outcome.
/// (The generator seeds itself from the operating system on a thread's
/// first draw, and `rand` stops the program if the system gives no seed.)
#[verifier::external_body]
pub(crate) fn toss() -> (heads: bool) {
    rand::random::<bool>()
}

} // verus!
