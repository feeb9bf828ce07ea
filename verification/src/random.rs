//! The random generator that drives synthesis.
//!
//! Nothing is proved about the generator itself: the items here state what
//! the `rand` crate documents, and the rest of the library is verified for
//! every value a draw may return.

use rand::rngs::StdRng;
use rand::Rng;
use vstd::prelude::*;

verus! {

/// `rand::rngs::StdRng`, carried through verified code as an opaque value.
#[verifier::external_type_specification]
#[verifier::external_body]
pub struct ExStdRng(StdRng);

/// Draws one integer with `rand::Rng::gen_range`.
///
/// `gen_range` panics when `low >= high`, which the precondition rules out,
/// and otherwise returns a value of the half-open range `[low, high)`. That
/// range is all that is claimed of the result; which value comes back depends
/// on the generator's state.
#[verifier::external_body]
pub(crate) fn sample_range(rng: &mut StdRng, low: i64, high: i64) -> (x: i64)
    requires
        low < high,
    ensures
        low <= x < high,
{
    rng.gen_range(low, high)
}

} // verus!
