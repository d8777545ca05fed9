use vstd::prelude::*;
use crate::arith::is_prime;

verus! {

#[verifier::external_type_specification]
#[verifier::external_body]
pub struct ExSieve(primal_sieve::Sieve);

/// The largest value whose primality the sieve knows: every prime up to
/// this bound is stored and enumerable.
pub uninterp spec fn sieve_limit(s: primal_sieve::Sieve) -> int;

/// Relies on `primal_sieve::Sieve::new`: the sieve stores the primes up to
/// a bound that is at least `limit`.
pub assume_specification[ primal_sieve::Sieve::new ](limit: usize) -> (s: primal_sieve::Sieve)
    ensures
        sieve_limit(s) >= limit,
;

/// Relies on `primal_sieve::Sieve::primes_from`: an iterator over the
/// primes from `lo` (inclusive) up to the sieve's own bound, in increasing
/// order, which this wrapper collects into a vector. The call panics when
/// `lo` lies beyond the sieve's bound, so that case is excluded here.
#[verifier::external_body]
pub(crate) fn sieve_primes_from(sieve: &primal_sieve::Sieve, lo: usize) -> (r: Vec<usize>)
    requires
        lo <= sieve_limit(*sieve),
    ensures
        forall|i: int, j: int| 0 <= i < j < r@.len() ==> r@[i] < r@[j],
        forall|i: int|
            0 <= i < r@.len() ==> is_prime(#[trigger] r@[i] as int) && lo <= r@[i] && r@[i]
                <= sieve_limit(*sieve),
        forall|q: int|
            lo <= q <= sieve_limit(*sieve) && is_prime(q) ==> exists|i: int|
                0 <= i < r@.len() && r@[i] == q,
{
    sieve.primes_from(lo).collect()
}

} // verus!
