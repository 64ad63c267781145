//! Data-parallel maps on rayon's thread pool.

use rayon::iter::IntoParallelIterator;
use rayon::iter::ParallelIterator;
use vstd::prelude::*;

verus! {

/// Runs `f` on every index below `n` and returns the results in the order of
/// the indices.
///
/// The body is rayon's `(0..n).into_par_iter().map(f).collect()`, which is
/// not verified here. The contract claims of it that `f` is called on
/// indices below `n` only, and that the vector that comes back has length
/// `n` and holds at each place what a call of `f` on that index gave.
#[verifier::external_body]
pub(crate) fn par_map_indices<T: Send, F: Fn(usize) -> T + Sync + Send>(n: usize, f: F) -> (out:
    Vec<T>)
    requires
        forall|i: usize| i < n ==> call_requires(f, (i,)),
    ensures
        out@.len() == n,
        forall|i: int| 0 <= i < n ==> call_ensures(f, (i as usize,), #[trigger] out@[i]),
{
    (0..n).into_par_iter().map(f).collect()
}

} // verus!
