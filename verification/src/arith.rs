use vstd::prelude::*;
use vstd::arithmetic::power::pow;
use vstd::arithmetic::power2::pow2;

verus! {

/// `n!` as a mathematical function: the product `1 * 2 * ... * n`.
pub open spec fn fact(n: nat) -> nat
    decreases n,
{
    if n == 0 {
        1
    } else {
        n * fact((n - 1) as nat)
    }
}

/// `n!!`, the double factorial: the product of the values in `[1, n]`
/// that have the same parity as `n`, with `0!! == 1`.
pub open spec fn double_fact(n: nat) -> nat
    decreases n,
{
    if n < 2 {
        1
    } else {
        n * double_fact((n - 2) as nat)
    }
}

/// No value in `[2, d]` divides `c`.
pub open spec fn no_factor_below(c: int, d: int) -> bool
    decreases d,
{
    if d < 2 {
        true
    } else {
        c % d != 0 && no_factor_below(c, d - 1)
    }
}

/// `p` is a prime number.
pub open spec fn is_prime(p: int) -> bool {
    2 <= p && no_factor_below(p, p - 1)
}

/// How many of `m, m / p, m / p^2, ...` (down to, and excluding, 0) are odd.
pub open spec fn odd_count_chain(m: nat, p: nat) -> nat
    decreases m,
    via odd_count_chain_decreases
{
    if p < 2 || m == 0 {
        0
    } else {
        (m % 2) + odd_count_chain(m / p, p)
    }
}

#[via_fn]
proof fn odd_count_chain_decreases(m: nat, p: nat) {
    if !(p < 2 || m == 0) {
        vstd::arithmetic::div_mod::lemma_div_decreases(m as int, p as int);
    }
}

/// The exponent of the prime `p` in the odd swing value of `n`: the number
/// of odd quotients among `n / p, n / p^2, ...`.
pub open spec fn swing_exp(n: nat, p: nat) -> nat {
    odd_count_chain(n / p, p)
}

/// The factor that `m` contributes to the odd swing value of `n`:
/// `m ^ swing_exp(n, m)` if `m` is prime, and 1 otherwise.
pub open spec fn swing_contrib(n: nat, m: nat) -> nat {
    if is_prime(m as int) {
        pow(m as int, swing_exp(n, m)) as nat
    } else {
        1
    }
}

/// The product of the contributions of all values in `[lo, hi]` to the
/// odd swing value of `n`.
pub open spec fn odd_swing_range(n: nat, lo: int, hi: int) -> nat
    decreases hi + 1 - lo,
{
    if lo > hi {
        1
    } else {
        odd_swing_range(n, lo, hi - 1) * swing_contrib(n, hi as nat)
    }
}

/// The odd swing value of `n`: the product, over the odd primes `p <= n`, of
/// `p` raised to the number of odd quotients among `n / p, n / p^2, ...`.
/// This is the odd part of `n! / (floor(n/2)!)^2`.
pub open spec fn odd_swing(n: nat) -> nat {
    odd_swing_range(n, 3, n as int)
}

/// The odd part of `n!`, written as the recursion that the prime-swing
/// algorithm evaluates: `odd_fact(n) == odd_fact(n / 2)^2 * odd_swing(n)`.
pub open spec fn odd_fact(n: nat) -> nat
    decreases n,
{
    if n < 2 {
        1
    } else {
        odd_fact(n / 2) * odd_fact(n / 2) * odd_swing(n)
    }
}

/// The number of 1 bits in the binary representation of `n`.
pub open spec fn pop_count(n: nat) -> nat
    decreases n,
{
    if n == 0 {
        0
    } else {
        n % 2 + pop_count(n / 2)
    }
}

/// The value that the prime-swing algorithm computes for `n!`: the odd part
/// times `2^(n - pop_count(n))`, the exponent of 2 in `n!`.
pub open spec fn psw_fact(n: nat) -> nat {
    odd_fact(n) * pow2((n - pop_count(n)) as nat)
}

/// A product of two positive factors is at least either factor.
pub proof fn lemma_mul_ge_factors(a: nat, b: nat)
    requires
        a >= 1,
        b >= 1,
    ensures
        a * b >= a,
        a * b >= b,
{
    vstd::arithmetic::mul::lemma_mul_inequality(1, a as int, b as int);
    vstd::arithmetic::mul::lemma_mul_inequality(1, b as int, a as int);
    vstd::arithmetic::mul::lemma_mul_is_commutative(a as int, b as int);
}

/// The number of 1 bits of `n` never exceeds `n`.
pub proof fn lemma_pop_count_le(n: nat)
    ensures
        pop_count(n) <= n,
    decreases n,
{
    if n > 0 {
        lemma_pop_count_le(n / 2);
    }
}

/// Factorials are positive.
pub proof fn lemma_fact_pos(n: nat)
    ensures
        fact(n) >= 1,
    decreases n,
{
    if n > 0 {
        lemma_fact_pos((n - 1) as nat);
        lemma_mul_ge_factors(n, fact((n - 1) as nat));
    }
}

/// Double factorials are positive.
pub proof fn lemma_double_fact_pos(n: nat)
    ensures
        double_fact(n) >= 1,
    decreases n,
{
    if n >= 2 {
        lemma_double_fact_pos((n - 2) as nat);
        lemma_mul_ge_factors(n, double_fact((n - 2) as nat));
    }
}

/// Stepping a double factorial down by two same-parity values never
/// increases it.
pub proof fn lemma_double_fact_increases(i: nat, n: nat)
    requires
        i <= n,
        i % 2 == n % 2,
    ensures
        double_fact(i) <= double_fact(n),
    decreases n,
{
    if i < n {
        lemma_double_fact_increases(i, (n - 2) as nat);
        lemma_double_fact_pos((n - 2) as nat);
        vstd::arithmetic::mul::lemma_mul_inequality(1, n as int, double_fact((n - 2) as nat) as int);
    }
}

/// Every contribution to an odd swing value is positive.
pub proof fn lemma_swing_contrib_pos(n: nat, m: nat)
    ensures
        swing_contrib(n, m) >= 1,
{
    if is_prime(m as int) {
        vstd::arithmetic::power::lemma_pow_positive(m as int, swing_exp(n, m));
    }
}

/// Partial products of swing contributions are positive.
pub proof fn lemma_odd_swing_range_pos(n: nat, lo: int, hi: int)
    ensures
        odd_swing_range(n, lo, hi) >= 1,
    decreases hi + 1 - lo,
{
    if lo <= hi {
        lemma_odd_swing_range_pos(n, lo, hi - 1);
        lemma_swing_contrib_pos(n, hi as nat);
        vstd::arithmetic::mul::lemma_mul_inequality(
            1,
            odd_swing_range(n, lo, hi - 1) as int,
            swing_contrib(n, hi as nat) as int,
        );
    }
}

/// A product of swing contributions splits at any point of the range.
pub proof fn lemma_odd_swing_range_split(n: nat, lo: int, mid: int, hi: int)
    requires
        lo - 1 <= mid <= hi,
    ensures
        odd_swing_range(n, lo, hi) == odd_swing_range(n, lo, mid) * odd_swing_range(
            n,
            mid + 1,
            hi,
        ),
    decreases hi - mid,
{
    if mid == hi {
        assert(odd_swing_range(n, hi + 1, hi) == 1);
    } else {
        lemma_odd_swing_range_split(n, lo, mid, hi - 1);
        vstd::arithmetic::mul::lemma_mul_is_associative(
            odd_swing_range(n, lo, mid) as int,
            odd_swing_range(n, mid + 1, hi - 1) as int,
            swing_contrib(n, hi as nat) as int,
        );
    }
}

/// A range in which every value contributes the trivial factor has a
/// trivial product.
pub proof fn lemma_odd_swing_range_trivial(n: nat, lo: int, hi: int)
    requires
        forall|m: int| lo <= m <= hi ==> #[trigger] swing_contrib(n, m as nat) == 1,
    ensures
        odd_swing_range(n, lo, hi) == 1,
    decreases hi + 1 - lo,
{
    if lo <= hi {
        lemma_odd_swing_range_trivial(n, lo, hi - 1);
    }
}

/// Factorials never shrink as `n` grows.
pub proof fn lemma_fact_increases(a: nat, b: nat)
    requires
        a <= b,
    ensures
        fact(a) <= fact(b),
    decreases b,
{
    if a < b {
        lemma_fact_increases(a, (b - 1) as nat);
        lemma_fact_pos((b - 1) as nat);
        lemma_mul_ge_factors(b, fact((b - 1) as nat));
    }
}

/// Every positive `n` is at most its own factorial.
pub proof fn lemma_fact_at_least_n(n: nat)
    ensures
        n <= fact(n),
{
    if n > 0 {
        lemma_fact_pos((n - 1) as nat);
        lemma_mul_ge_factors(n, fact((n - 1) as nat));
    }
}

/// A prefix of a contribution product is bounded by the whole product.
pub proof fn lemma_range_prefix_le(n: nat, lo: int, mid: int, hi: int)
    requires
        lo - 1 <= mid <= hi,
    ensures
        odd_swing_range(n, lo, mid) <= odd_swing_range(n, lo, hi),
{
    lemma_odd_swing_range_split(n, lo, mid, hi);
    lemma_odd_swing_range_pos(n, lo, mid);
    lemma_odd_swing_range_pos(n, mid + 1, hi);
    lemma_mul_ge_factors(odd_swing_range(n, lo, mid), odd_swing_range(n, mid + 1, hi));
}

/// One step of a band loop: extending the processed range up to the next
/// prime `p` multiplies the partial product by `p`'s contribution, because
/// nothing strictly between the old end and `p` is prime.
pub proof fn lemma_band_step(n: nat, lo: int, hi_done: int, p: int)
    requires
        2 <= lo,
        lo - 1 <= hi_done < p,
        forall|m: int| hi_done < m < p ==> !is_prime(m),
    ensures
        odd_swing_range(n, lo, p) == odd_swing_range(n, lo, hi_done) * swing_contrib(n, p as nat),
{
    lemma_odd_swing_range_split(n, lo, hi_done, p - 1);
    assert forall|m: int| hi_done + 1 <= m <= p - 1 implies #[trigger] swing_contrib(n, m as nat)
        == 1 by {
        assert(!is_prime(m));
    }
    lemma_odd_swing_range_trivial(n, hi_done + 1, p - 1);
}

/// One step of a band loop over a prime that contributes nothing: the
/// partial product does not move.
pub proof fn lemma_band_step_trivial(n: nat, lo: int, hi_done: int, p: int)
    requires
        2 <= lo,
        lo - 1 <= hi_done < p,
        forall|m: int| hi_done < m < p ==> !is_prime(m),
        swing_contrib(n, p as nat) == 1,
    ensures
        odd_swing_range(n, lo, p) == odd_swing_range(n, lo, hi_done),
{
    lemma_band_step(n, lo, hi_done, p);
}

/// The full decomposition behind the banded evaluation: the odd swing
/// product over `[3, n]` is the band products in the order the loops
/// accumulate them, with the silent block `(x2, x3]` contributing nothing.
pub proof fn lemma_odd_swing_decompose(n: nat, x1: int, x2: int, x3: int)
    requires
        2 <= x1 <= x2 <= x3 <= n,
        forall|m: int| x2 < m <= x3 ==> #[trigger] swing_contrib(n, m as nat) == 1,
    ensures
        odd_swing(n) == odd_swing_range(n, x3 + 1, n as int) * odd_swing_range(n, x1 + 1, x2)
            * odd_swing_range(n, 3, x1),
{
    lemma_odd_swing_range_split(n, 3, x1, n as int);
    lemma_odd_swing_range_split(n, x1 + 1, x2, n as int);
    lemma_odd_swing_range_split(n, x2 + 1, x3, n as int);
    lemma_odd_swing_range_trivial(n, x2 + 1, x3);
    let rc = odd_swing_range(n, 3, x1);
    let rb = odd_swing_range(n, x1 + 1, x2);
    let ra = odd_swing_range(n, x3 + 1, n as int);
    assert(odd_swing(n) == rc * (rb * (1 * ra)));
    assert(rc * (rb * ra) == ra * rb * rc) by (nonlinear_arith);
}

/// The pieces of one level of the swing recursion all divide the level's
/// value, so each is a lower bound on `odd_fact(n)`.
pub proof fn lemma_odd_fact_parts(n: nat)
    requires
        2 <= n,
    ensures
        odd_fact(n / 2) <= odd_fact(n),
        odd_fact(n / 2) * odd_fact(n / 2) <= odd_fact(n),
        odd_swing(n) <= odd_fact(n),
{
    lemma_odd_fact_pos(n / 2);
    lemma_odd_swing_range_pos(n, 3, n as int);
    let h = odd_fact(n / 2);
    let s = odd_swing(n);
    lemma_mul_ge_factors(h, h);
    lemma_mul_ge_factors(h * h, s);
}

/// The odd part of `n!` is a lower bound on the full swing value.
pub proof fn lemma_psw_fact_parts(n: nat)
    ensures
        odd_fact(n) <= psw_fact(n),
{
    vstd::arithmetic::power2::lemma_pow2_pos((n - pop_count(n)) as nat);
    lemma_odd_fact_pos(n);
    lemma_mul_ge_factors(odd_fact(n), pow2((n - pop_count(n)) as nat));
}

/// The large band: a prime in `(n/2, n]` divides `n!` once more than it
/// divides `(n/2)!` twice, so it carries exponent exactly 1 in the swing.
pub proof fn lemma_swing_exp_one(n: nat, p: nat)
    requires
        2 <= p,
        n / 2 < p,
        p <= n,
    ensures
        swing_exp(n, p) == 1,
{
    assert(n < 2 * p) by {
        vstd::arithmetic::div_mod::lemma_fundamental_div_mod(n as int, 2);
    }
    assert(n / p == 1) by {
        vstd::arithmetic::div_mod::lemma_multiply_divide_lt(n as int, p as int, 2);
        vstd::arithmetic::div_mod::lemma_div_non_zero(n as int, p as int);
    }
    assert(1int / (p as int) == 0) by {
        vstd::arithmetic::div_mod::lemma_basic_div(1, p as int);
    }
    reveal_with_fuel(odd_count_chain, 3);
}

/// The medium band: a prime whose square exceeds `n` contributes at most
/// one factor, and does so exactly when `n / p` is odd.
pub proof fn lemma_swing_exp_parity(n: nat, p: nat)
    requires
        2 <= p,
        n < p * p,
    ensures
        swing_exp(n, p) == (n / p) % 2,
{
    assert(n / p < p) by {
        vstd::arithmetic::div_mod::lemma_multiply_divide_lt(n as int, p as int, p as int);
    }
    assert((n / p) as int / (p as int) == 0) by {
        vstd::arithmetic::div_mod::lemma_basic_div((n / p) as int, p as int);
    }
    reveal_with_fuel(odd_count_chain, 3);
}

/// The silent band: a prime in `(n/3, n/2]` has the even quotient
/// `n / p == 2` and no higher power below `n`, so it contributes nothing.
pub proof fn lemma_swing_exp_zero(n: nat, p: nat)
    requires
        3 <= p,
        n / 3 < p,
        2 * p <= n,
    ensures
        swing_exp(n, p) == 0,
{
    assert(n < 3 * p) by {
        vstd::arithmetic::div_mod::lemma_fundamental_div_mod(n as int, 3);
    }
    assert(n / p == 2) by {
        vstd::arithmetic::div_mod::lemma_multiply_divide_lt(n as int, p as int, 3);
        vstd::arithmetic::div_mod::lemma_div_is_ordered(2 * p as int, n as int, p as int);
        assert((2 * p as int) / (p as int) == 2) by {
            vstd::arithmetic::div_mod::lemma_div_multiples_vanish(2, p as int);
        }
    }
    assert(2int / (p as int) == 0) by {
        vstd::arithmetic::div_mod::lemma_basic_div(2, p as int);
    }
    reveal_with_fuel(odd_count_chain, 3);
}

/// The odd part of a factorial is positive.
pub proof fn lemma_odd_fact_pos(n: nat)
    ensures
        odd_fact(n) >= 1,
    decreases n,
{
    if n >= 2 {
        lemma_odd_fact_pos(n / 2);
        lemma_odd_swing_range_pos(n, 3, n as int);
        vstd::arithmetic::mul::lemma_mul_inequality(1, odd_fact(n / 2) as int, odd_fact(n / 2) as int);
        vstd::arithmetic::mul::lemma_mul_inequality(
            1,
            (odd_fact(n / 2) * odd_fact(n / 2)) as int,
            odd_swing(n) as int,
        );
    }
}

} // verus!
