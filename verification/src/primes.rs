//! Primality by trial division: two is handled apart, the odd candidate
//! factors run up to the square root.

use vstd::prelude::*;

use vstd::arithmetic::div_mod::{lemma_fundamental_div_mod, lemma_mod_multiples_basic};

verus! {

/// `n` is prime: at least two, with no factor strictly between one and
/// itself.
pub open spec fn is_prime_spec(n: nat) -> bool {
    n >= 2 && forall|f: nat| 2 <= f < n ==> #[trigger] (n % f) != 0
}

/// A number divisible by an even number is even.
proof fn lemma_even_factor(n: nat, f: nat)
    requires
        f >= 2,
        f % 2 == 0,
        n % f == 0,
    ensures
        n % 2 == 0,
{
    lemma_fundamental_div_mod(n as int, f as int);
    lemma_fundamental_div_mod(f as int, 2);
    let q = n as int / f as int;
    let h = f as int / 2;
    assert(n as int == f as int * q);
    assert(f as int == 2 * h);
    assert(n as int == (h * q) * 2) by (nonlinear_arith)
        requires
            n as int == f as int * q,
            f as int == 2 * h,
    {}
    lemma_mod_multiples_basic(h * q, 2);
}

/// Decide whether `n` is prime.
#[verifier::loop_isolation(true)]
pub fn is_prime(n: u64) -> (r: bool)
    ensures
        r == is_prime_spec(n as nat),
{
    if n < 2 {
        return false;
    }
    if n % 2 == 0 {
        if n == 2 {
            return true;
        }
        assert((n as nat) % 2 == 0);
        return false;
    }
    let mut i: u64 = 3;
    loop
        invariant
            n >= 3,
            n % 2 != 0,
            i >= 3,
            i % 2 != 0,
            forall|f: nat| 2 <= f < i ==> #[trigger] ((n as nat) % f) != 0,
        ensures
            (i as int) * (i as int) > n as int,
            forall|f: nat| 2 <= f < i ==> #[trigger] ((n as nat) % f) != 0,
        decreases n - i,
    {
        proof {
            assert((i as u128) * (i as u128) <= u128::MAX) by (nonlinear_arith)
                requires
                    i <= u64::MAX,
            {}
        }
        let sq = (i as u128) * (i as u128);
        if sq > (n as u128) {
            break;
        }
        proof {
            assert(i < 4294967296 && i as int + 2 <= n as int) by (nonlinear_arith)
                requires
                    i >= 3,
                    (i as int) * (i as int) <= n as int,
                    n <= u64::MAX,
            {}
        }
        if n % i == 0 {
            proof {
                assert((i as int) < (i as int) * (i as int)) by (nonlinear_arith)
                    requires
                        i >= 2,
                {}
                assert(2 <= (i as nat) && (i as nat) < (n as nat));
            }
            return false;
        }
        proof {
            // the even number between this candidate and the next is no
            // factor either, since n is odd
            assert forall|f: nat| 2 <= f < i + 2 implies #[trigger] ((n as nat) % f) != 0 by {
                if f == i as nat {
                } else if f == i as nat + 1 {
                    if (n as nat) % f == 0 {
                        lemma_even_factor(n as nat, f);
                    }
                } else {
                    assert(2 <= f < i);
                }
            }
        }
        i = i + 2;
    }
    proof {
        // any factor at or above the square root pairs with a smaller
        // cofactor, already ruled out
        assert forall|f: nat| 2 <= f < n as nat implies #[trigger] ((n as nat) % f) != 0 by {
            if f >= i && (n as nat) % f == 0 {
                lemma_fundamental_div_mod(n as int, f as int);
                let q = n as int / f as int;
                assert(n as int == f as int * q);
                assert(2 <= q < i) by (nonlinear_arith)
                    requires
                        n as int == f as int * q,
                        f as int >= i as int,
                        i as int >= 3,
                        (i as int) * (i as int) > n as int,
                        2 <= f < n,
                {}
                lemma_mod_multiples_basic(f as int, q);
                assert(n as int == f as int * q);
                assert((n as int) % q == 0);
                assert((n as nat) % (q as nat) != 0);
            }
        }
    }
    true
}

} // verus!
