//! Primality by trial division.

use vstd::prelude::*;

verus! {

/// Whether no number from two up to `num`, `num` left out, divides `num`.
/// This holds of the primes, and of zero and one as well.
pub open spec fn has_no_divisor(num: nat) -> bool {
    forall|d: nat| 2 <= d < num ==> #[trigger] (num % d) != 0
}

/// Tries every number from two up to `num` as a divisor, and tells whether
/// none divides `num`.
pub fn is_prime(num: u32) -> (prime: bool)
    ensures
        prime == has_no_divisor(num as nat),
{
    let mut tried: u32 = 2;
    while tried < num
        invariant
            2 <= tried,
            tried <= num || num < 2,
            forall|d: nat| 2 <= d < tried ==> #[trigger] (num as nat % d) != 0,
        decreases num - tried,
    {
        if num % tried == 0 {
            assert((num as nat) % (tried as nat) == 0);
            return false;
        }
        tried = tried + 1;
    }
    true
}

} // verus!
