//! Binomial coefficients, which size the storage of grade-restricted blades.
//!
//! In an `n`-dimensional space there are `C(n, k)` basis blades of grade `k`.

use vstd::prelude::*;

verus! {

/// The binomial coefficient `C(n, k)`, given by Pascal's triangle: the number
/// of ways to pick `k` basis vectors out of `n`.
pub open spec fn binomial_coefficient(n: nat, k: nat) -> nat
    decreases n,
{
    if k == 0 {
        1
    } else if n == 0 {
        0
    } else {
        binomial_coefficient((n - 1) as nat, (k - 1) as nat) + binomial_coefficient(
            (n - 1) as nat,
            k,
        )
    }
}

/// Nothing can be picked in more ways than there is to pick from:
/// `C(n, k) = 0` for `k > n`.
pub proof fn lemma_binomial_beyond(n: nat, k: nat)
    requires
        k > n,
    ensures
        binomial_coefficient(n, k) == 0,
    decreases n,
{
    if n > 0 {
        lemma_binomial_beyond((n - 1) as nat, (k - 1) as nat);
        lemma_binomial_beyond((n - 1) as nat, k);
    }
}

/// There is one way to pick everything: `C(n, n) = 1`.
pub proof fn lemma_binomial_all(n: nat)
    ensures
        binomial_coefficient(n, n) == 1,
    decreases n,
{
    if n > 0 {
        lemma_binomial_all((n - 1) as nat);
        lemma_binomial_beyond((n - 1) as nat, n);
    }
}

/// Pascal's identity: `C(n, k) = C(n-1, k-1) + C(n-1, k)` for `0 < k < n`.
pub proof fn lemma_binomial_pascal(n: nat, k: nat)
    requires
        0 < k < n,
    ensures
        binomial_coefficient(n, k) == binomial_coefficient((n - 1) as nat, (k - 1) as nat)
            + binomial_coefficient((n - 1) as nat, k),
{
}

/// The step of the multiplicative formula:
/// `C(n, i) * i = C(n, i-1) * (n - i + 1)` for `1 <= i <= n`.
pub proof fn lemma_binomial_step(n: nat, i: nat)
    requires
        1 <= i <= n,
    ensures
        binomial_coefficient(n, i) * i == binomial_coefficient(n, (i - 1) as nat) * (n - i + 1),
    decreases n,
{
    let above = (n - 1) as nat;
    if i == 1 {
        if n > 1 {
            lemma_binomial_step(above, 1);
        } else {
            lemma_binomial_beyond(0, 1);
        }
        assert(binomial_coefficient(above, 1) == above) by (nonlinear_arith)
            requires
                above == 0 ==> binomial_coefficient(above, 1) == 0,
                above > 0 ==> binomial_coefficient(above, 1) * 1 == 1 * (above - 1 + 1),
                binomial_coefficient(above, 0) == 1,
        ;
        assert(binomial_coefficient(n, 1) == n);
        assert(binomial_coefficient(n, 1) * 1 == 1 * (n - 1 + 1)) by (nonlinear_arith)
            requires
                binomial_coefficient(n, 1) == n,
        ;
    } else {
        let a = binomial_coefficient(above, (i - 2) as nat);
        let b = binomial_coefficient(above, (i - 1) as nat);
        let c = binomial_coefficient(above, i);
        lemma_binomial_step(above, (i - 1) as nat);
        if i < n {
            lemma_binomial_step(above, i);
        } else {
            lemma_binomial_beyond(above, i);
        }
        assert(c * i == b * (n - i)) by (nonlinear_arith)
            requires
                i < n ==> c * i == b * (above - i + 1),
                i >= n ==> c == 0 && n - i == 0,
                above == n - 1,
        ;
        assert(b * (i - 1) == a * (n - i + 1)) by (nonlinear_arith)
            requires
                b * (i - 1) as nat == a * (above - (i - 1) as nat + 1),
                above == n - 1,
                i >= 2,
        ;
        assert((b + c) * i == (a + b) * (n - i + 1)) by (nonlinear_arith)
            requires
                c * i == b * (n - i),
                b * (i - 1) == a * (n - i + 1),
        ;
    }
}

/// There are as many ways to pick one as there is to pick from: `C(n, 1) = n`.
pub proof fn lemma_binomial_one(n: nat)
    ensures
        binomial_coefficient(n, 1) == n,
{
    if n == 0 {
        lemma_binomial_beyond(0, 1);
    } else {
        lemma_binomial_step(n, 1);
        assert(binomial_coefficient(n, 1) == n) by (nonlinear_arith)
            requires
                binomial_coefficient(n, 1) * 1 == binomial_coefficient(n, 0) * (n - 1 + 1),
                binomial_coefficient(n, 0) == 1,
        ;
    }
}

/// Picking `k` out of `n` is leaving `n - k` out: `C(n, k) = C(n, n - k)`.
pub proof fn lemma_binomial_symmetric(n: nat, k: nat)
    requires
        k <= n,
    ensures
        binomial_coefficient(n, k) == binomial_coefficient(n, (n - k) as nat),
    decreases n,
{
    if k == 0 {
        lemma_binomial_all(n);
    } else if k == n {
        lemma_binomial_all(n);
    } else {
        lemma_binomial_symmetric((n - 1) as nat, (k - 1) as nat);
        lemma_binomial_symmetric((n - 1) as nat, k);
    }
}

/// Up to the middle of a row of Pascal's triangle the entries do not fall:
/// `C(n, i) <= C(n, k)` for `i <= k` and `2k <= n`.
pub proof fn lemma_binomial_rises_to_middle(n: nat, i: nat, k: nat)
    requires
        i <= k,
        2 * k <= n,
    ensures
        binomial_coefficient(n, i) <= binomial_coefficient(n, k),
    decreases k - i,
{
    if i < k {
        lemma_binomial_rises_to_middle(n, i + 1, k);
        lemma_binomial_step(n, i + 1);
        let low = binomial_coefficient(n, i);
        let next = binomial_coefficient(n, i + 1);
        assert(low <= next) by (nonlinear_arith)
            requires
                next * (i + 1) == low * (n - (i + 1) + 1),
                2 * (i + 1) <= n,
        ;
    }
}

/// Computes the binomial coefficient `C(n, k)` by the multiplicative formula,
/// one factor at a time and without rounding. By symmetry it walks the shorter
/// way through the row, and it multiplies in double width, so that it is exact
/// whenever the coefficient itself fits a machine word.
pub fn binomial(n: usize, k: usize) -> (count: usize)
    requires
        binomial_coefficient(n as nat, k as nat) <= usize::MAX,
    ensures
        count == binomial_coefficient(n as nat, k as nat),
        k == 0 ==> count == 1,
        k == n ==> count == 1,
        k > n ==> count == 0,
{
    if k > n {
        proof {
            lemma_binomial_beyond(n as nat, k as nat);
        }
        0
    } else if k == 0 || k == n {
        proof {
            lemma_binomial_all(n as nat);
        }
        1
    } else {
        let steps = if k <= n - k {
            k
        } else {
            n - k
        };
        proof {
            lemma_binomial_symmetric(n as nat, k as nat);
        }
        let mut result: usize = 1;
        let mut i: usize = 1;
        while i <= steps
            invariant
                1 <= i <= steps + 1,
                2 * steps <= n,
                result == binomial_coefficient(n as nat, (i - 1) as nat),
                binomial_coefficient(n as nat, steps as nat) <= usize::MAX,
            decreases steps + 1 - i,
        {
            let ghost next = binomial_coefficient(n as nat, i as nat);
            proof {
                lemma_binomial_step(n as nat, i as nat);
                lemma_binomial_rises_to_middle(n as nat, i as nat, steps as nat);
            }
            let factor = n - i + 1;
            assert(result * factor <= u128::MAX) by (nonlinear_arith)
                requires
                    result <= 0xffff_ffff_ffff_ffff,
                    factor <= 0xffff_ffff_ffff_ffff,
            ;
            let product: u128 = (result as u128) * (factor as u128);
            assert(product / (i as u128) == next) by (nonlinear_arith)
                requires
                    product == next * i,
                    i > 0,
            ;
            result = (product / (i as u128)) as usize;
            i = i + 1;
        }
        result
    }
}

} // verus!
