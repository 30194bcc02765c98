//! Trial-division primality testing and factorization.
//!
//! The primality test tries the candidate divisors up to and including the
//! floor of the square root of the number, which suffices: a composite
//! number always has a divisor no greater than that floor.  The
//! factorization divides out candidate factors from two upward, so the
//! factors come out prime and in nondecreasing order.

use vstd::prelude::*;

verus! {

/// Floor of the square root.
pub open spec fn sqrt_floor(n: nat) -> nat
    decreases n,
{
    if n == 0 {
        0
    } else {
        let r = sqrt_floor((n - 1) as nat);
        if (r + 1) * (r + 1) <= n {
            r + 1
        } else {
            r
        }
    }
}

/// `sqrt_floor(n)` is the unique value whose square brackets `n`.
pub proof fn lemma_sqrt_floor_bounds(n: nat)
    ensures
        sqrt_floor(n) * sqrt_floor(n) <= n,
        n < (sqrt_floor(n) + 1) * (sqrt_floor(n) + 1),
    decreases n,
{
    if n > 0 {
        lemma_sqrt_floor_bounds((n - 1) as nat);
        let r = sqrt_floor((n - 1) as nat);
        if (r + 1) * (r + 1) <= n {
            assert(sqrt_floor(n) == r + 1);
            assert((r + 1) * (r + 1) < (r + 2) * (r + 2)) by (nonlinear_arith);
            assert(n < (r + 2) * (r + 2));
            assert(sqrt_floor(n) + 1 == r + 2);
            assert(n < (sqrt_floor(n) + 1) * (sqrt_floor(n) + 1));
        } else {
            assert(sqrt_floor(n) == r);
            assert(r * r <= n);
            assert(n < (r + 1) * (r + 1));
        }
    } else {
        assert(sqrt_floor(n) == 0);
        assert(n < (sqrt_floor(n) + 1) * (sqrt_floor(n) + 1)) by (nonlinear_arith)
            requires
                n == 0,
                sqrt_floor(n) == 0,
        ;
    }
}

/// Any value whose square brackets `n` is `sqrt_floor(n)`.
pub proof fn lemma_sqrt_floor_unique(n: nat, r: nat)
    requires
        r * r <= n,
        n < (r + 1) * (r + 1),
    ensures
        r == sqrt_floor(n),
{
    lemma_sqrt_floor_bounds(n);
    let s = sqrt_floor(n);
    if r < s {
        assert((r + 1) * (r + 1) <= s * s) by (nonlinear_arith)
            requires
                r + 1 <= s,
        ;
    }
    if s < r {
        assert((s + 1) * (s + 1) <= r * r) by (nonlinear_arith)
            requires
                s + 1 <= r,
        ;
    }
}

/// No candidate factor strictly below the square-root floor divides `num`.
pub open spec fn has_no_small_factor(num: u32) -> bool {
    forall|k: u32| 2 <= k < sqrt_floor(num as nat) ==> #[trigger] (num as int % k as int) != 0
}

/// Floor of the square root, computed by counting up.
fn isqrt(num: u32) -> (r: u32)
    ensures
        r as nat == sqrt_floor(num as nat),
{
    let mut r: u32 = 0;
    loop
        invariant_except_break
            r as nat * r as nat <= num as nat,
            r <= num,
        ensures
            r as nat * r as nat <= num as nat,
            (num as nat) < (r as nat + 1) * (r as nat + 1),
        decreases num - r,
    {
        proof {
            assert(r < 0x10000) by (nonlinear_arith)
                requires
                    r as nat * r as nat <= num as nat,
                    num <= 0xffff_ffffu32,
            ;
            assert((r as nat + 1) * (r as nat + 1) <= 0x1_0000_0000) by (nonlinear_arith)
                requires
                    (r as nat) < 0x10000,
            ;
        }
        let next: u64 = r as u64 + 1;
        let sq: u64 = next * next;
        if sq > num as u64 {
            break;
        }
        proof {
            assert(r as nat + 1 <= num as nat) by (nonlinear_arith)
                requires
                    (r as nat + 1) * (r as nat + 1) <= num as nat,
            ;
        }
        r = r + 1;
    }
    proof {
        lemma_sqrt_floor_unique(num as nat, r as nat);
    }
    r
}

/// Primality proper: greater than one, with no divisor between two and the
/// number itself.
pub open spec fn is_prime_spec(num: u32) -> bool {
    num > 1 && forall|d: u32| 2 <= d < num ==> #[trigger] (num as int % d as int) != 0
}

/// Trial division through the square-root floor decides primality: a
/// composite number has a divisor no greater than the floor of its square
/// root, because the smaller of two cofactors squares to at most their
/// product.
proof fn lemma_trial_division_sufficient(num: u32)
    requires
        num > 1,
        forall|k: u32|
            2 <= k <= sqrt_floor(num as nat) ==> #[trigger] (num as int % k as int) != 0,
    ensures
        is_prime_spec(num),
{
    let s = sqrt_floor(num as nat) as int;
    lemma_sqrt_floor_bounds(num as nat);
    assert(s < 0x10000) by (nonlinear_arith)
        requires
            s * s <= num,
            num <= 0xffff_ffffu32,
            s >= 0,
    ;
    assert forall|d: u32| 2 <= d < num implies #[trigger] (num as int % d as int) != 0 by {
        if num as int % d as int == 0 {
            let n = num as int;
            let di = d as int;
            vstd::arithmetic::div_mod::lemma_fundamental_div_mod(n, di);
            let e = n / di;
            assert(n == di * e);
            assert(e >= 2) by (nonlinear_arith)
                requires
                    n == di * e,
                    2 <= di,
                    di < n,
            ;
            if di <= s {
                assert(num as int % d as int != 0);
                assert(false);
            } else {
                assert(di * di > n) by (nonlinear_arith)
                    requires
                        di >= s + 1,
                        (s + 1) * (s + 1) > n,
                        s >= 0,
                ;
                assert(e < di) by (nonlinear_arith)
                    requires
                        n == di * e,
                        di * di > n,
                        e >= 2,
                        di >= 2,
                ;
                assert(e * e < n) by (nonlinear_arith)
                    requires
                        n == di * e,
                        e < di,
                        e >= 2,
                ;
                assert(e <= s) by (nonlinear_arith)
                    requires
                        e * e < n,
                        n < (s + 1) * (s + 1),
                        e >= 0,
                        s >= 0,
                ;
                vstd::arithmetic::div_mod::lemma_mod_multiples_basic(di, e);
                assert(n % e == 0);
                let smaller = e as u32;
                assert(smaller as int == e);
                assert(num as int % smaller as int != 0);
                assert(false);
            }
        }
    }
}

/// Trial-division primality test: true exactly when `num` is prime.
pub fn is_prime(num: u32) -> (r: bool)
    ensures
        r == is_prime_spec(num),
{
    if num <= 1 {
        return false;
    }
    let bound = isqrt(num);
    proof {
        lemma_sqrt_floor_bounds(num as nat);
        assert(bound >= 1) by (nonlinear_arith)
            requires
                (bound as nat + 1) * (bound as nat + 1) > num as nat,
                num >= 2,
        ;
        assert(bound < 0x10000) by (nonlinear_arith)
            requires
                bound as nat * bound as nat <= num as nat,
                num <= 0xffff_ffffu32,
        ;
    }
    let mut factor: u32 = 2;
    while factor <= bound
        invariant
            2 <= factor,
            factor <= bound + 1,
            bound < 0x10000,
            num > 1,
            bound as nat == sqrt_floor(num as nat),
            forall|k: u32| 2 <= k < factor ==> #[trigger] (num as int % k as int) != 0,
        decreases bound + 1 - factor,
    {
        if num % factor == 0 {
            proof {
                lemma_sqrt_floor_bounds(num as nat);
                assert(bound < num) by (nonlinear_arith)
                    requires
                        bound as nat * bound as nat <= num as nat,
                        num >= 2,
                ;
            }
            return false;
        }
        factor += 1;
    }
    proof {
        lemma_trial_division_sufficient(num);
    }
    true
}

/// Product of a sequence of factors.
pub open spec fn product(s: Seq<u32>) -> int
    decreases s.len(),
{
    if s.len() == 0 {
        1
    } else {
        product(s.drop_last()) * s.last()
    }
}

/// The prime factorization of `num`: prime factors in nondecreasing order
/// whose product is `num`.  The number one factors into nothing.
pub fn prime_factors(num: u32) -> (r: Vec<u32>)
    requires
        num >= 1,
    ensures
        product(r@) == num,
        forall|x: int| 0 <= x < r@.len() ==> is_prime_spec(#[trigger] r@[x]),
        forall|x: int, y: int| 0 <= x < y < r@.len() ==> r@[x] <= r@[y],
{
    let mut factors: Vec<u32> = Vec::new();
    let mut curr: u32 = num;
    let mut factor: u32 = 2;
    while curr > 1
        invariant
            1 <= curr <= num,
            2 <= factor,
            factor <= num + 1,
            product(factors@) * curr == num,
            forall|x: int| 0 <= x < factors@.len() ==> 2 <= #[trigger] factors@[x] <= factor,
            forall|x: int, y: int| 0 <= x < y < factors@.len() ==> factors@[x] <= factors@[y],
            forall|x: int| 0 <= x < factors@.len() ==> is_prime_spec(#[trigger] factors@[x]),
            forall|d: u32| 2 <= d < factor ==> #[trigger] (curr as int % d as int) != 0,
            curr > 1 ==> factor <= curr,
        decreases curr, num - factor,
    {
        if curr % factor == 0 {
            let next = curr / factor;
            proof {
                let c = curr as int;
                let f = factor as int;
                let n = next as int;
                vstd::arithmetic::div_mod::lemma_fundamental_div_mod(c, f);
                assert(c == f * n);
                assert(n >= 1) by (nonlinear_arith)
                    requires
                        c == f * n,
                        c >= 2,
                        f >= 2,
                ;
                // the product invariant carries through the division
                assert(factors@.push(factor).drop_last() =~= factors@);
                assert(product(factors@.push(factor)) == product(factors@) * f);
                assert(product(factors@.push(factor)) * n == product(factors@) * c)
                    by (nonlinear_arith)
                    requires
                        c == f * n,
                        product(factors@.push(factor)) == product(factors@) * f,
                ;
                // the factor just pushed is prime: one of its divisors would
                // divide the current remainder below `factor`
                assert forall|d: u32| 2 <= d < factor implies #[trigger] (factor as int
                    % d as int) != 0 by {
                    if factor as int % d as int == 0 {
                        vstd::arithmetic::div_mod::lemma_fundamental_div_mod(f, d as int);
                        let k = f / d as int;
                        assert(c == d as int * (k * n)) by (nonlinear_arith)
                            requires
                                c == f * n,
                                f == d as int * k,
                        ;
                        vstd::arithmetic::div_mod::lemma_mod_multiples_basic(
                            k * n,
                            d as int,
                        );
                        assert(false);
                    }
                }
                assert(is_prime_spec(factor));
                // no divisor below `factor` divides the remainder either
                assert forall|d: u32| 2 <= d < factor implies #[trigger] (next as int
                    % d as int) != 0 by {
                    if next as int % d as int == 0 {
                        vstd::arithmetic::div_mod::lemma_fundamental_div_mod(n, d as int);
                        let k = n / d as int;
                        assert(c == d as int * (k * f)) by (nonlinear_arith)
                            requires
                                c == f * n,
                                n == d as int * k,
                        ;
                        vstd::arithmetic::div_mod::lemma_mod_multiples_basic(
                            k * f,
                            d as int,
                        );
                        assert(false);
                    }
                }
                // the remainder, while above one, is at least `factor`: it
                // divides the old remainder
                if next > 1 && next < factor {
                    vstd::arithmetic::div_mod::lemma_mod_multiples_basic(f, n);
                    assert(c % n == 0);
                    assert(false);
                }
                assert(n < c) by (nonlinear_arith)
                    requires
                        c == f * n,
                        f >= 2,
                        n >= 1,
                ;
                assert(next < curr);
            }
            factors.push(factor);
            curr = next;
        } else {
            proof {
                // the remainder divides itself, so the non-dividing factor
                // sits strictly below it
                if factor == curr {
                    assert(curr as int % factor as int == 0) by (nonlinear_arith)
                        requires
                            factor == curr,
                            curr > 1,
                    ;
                }
            }
            factor += 1;
        }
    }
    factors
}

} // verus!

