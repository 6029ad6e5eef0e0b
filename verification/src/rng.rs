//! The engine's single source of chance, behind a trusted wrapper.

use vstd::prelude::*;

verus! {

/// Relies on rand::random_range: it returns a value drawn from the given
/// range — here `0..n`, so the result is below `n` — and panics on an
/// empty range, which the precondition rules out. Nothing more is assumed
/// of the draw.
#[verifier::external_body]
pub(crate) fn random_below(n: usize) -> (r: usize)
    requires
        n >= 1,
    ensures
        r < n,
{
    rand::random_range(0..n)
}

} // verus!
