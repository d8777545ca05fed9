use vstd::prelude::*;
use crate::arith::{
    odd_swing, odd_swing_range, odd_fact, psw_fact, pop_count, swing_contrib, swing_exp, is_prime,
    lemma_swing_exp_one, lemma_swing_exp_parity, lemma_swing_exp_zero, lemma_band_step,
    lemma_range_prefix_le, lemma_band_step_trivial, lemma_odd_swing_decompose, lemma_odd_swing_range_split,
    lemma_odd_swing_range_trivial, lemma_odd_swing_range_pos, lemma_odd_fact_parts,
    lemma_psw_fact_parts, lemma_pop_count_le, lemma_mul_ge_factors,
};
use crate::operand::Operand;
use crate::sieve::{sieve_limit, sieve_primes_from};
use vstd::arithmetic::power::pow;

verus! {

/// The number of 1 bits of `n`, counted bit by bit.
#[verifier::loop_isolation(false)]
pub(crate) fn pop_count_exec(n: usize) -> (r: usize)
    ensures
        r as nat == pop_count(n as nat),
{
    proof {
        lemma_pop_count_le(n as nat);
    }
    let mut m = n;
    let mut c: usize = 0;
    while m > 0
        invariant
            c as nat + pop_count(m as nat) == pop_count(n as nat),
            c as nat <= n as nat,
        decreases m,
    {
        proof {
            lemma_pop_count_le((m / 2) as nat);
        }
        c = c + m % 2;
        m = m / 2;
    }
    c
}

/// The integer square root: the largest `r` with `r * r <= n`.
#[verifier::loop_isolation(false)]
pub(crate) fn integer_sqrt(n: usize) -> (r: usize)
    ensures
        r as nat * r as nat <= n as nat,
        (n as nat) < (r as nat + 1) * (r as nat + 1),
        r <= n,
{
    let m = n as u64;
    let mut lo: u64 = 0;
    let mut hi: u64 = if m < 4294967295 {
        m
    } else {
        4294967295
    };
    proof {
        if m < 4294967295 {
            assert((m as nat + 1) * (m as nat + 1) > m as nat) by (nonlinear_arith);
        } else {
            assert((4294967295 as nat + 1) * (4294967295 as nat + 1) > m as nat) by (nonlinear_arith)
                requires
                    m <= 0xffff_ffff_ffff_ffff,
            ;
        }
    }
    while lo < hi
        invariant
            lo <= hi <= 4294967295,
            lo as nat * lo as nat <= m as nat,
            (m as nat) < (hi as nat + 1) * (hi as nat + 1),
        decreases hi - lo,
    {
        let mid = lo + (hi - lo + 1) / 2;
        proof {
            assert(mid * mid <= 4294967295 * 4294967295) by (nonlinear_arith)
                requires
                    mid <= 4294967295,
            ;
        }
        if mid * mid <= m {
            lo = mid;
        } else {
            hi = mid - 1;
        }
    }
    proof {
        if lo > 0 {
            assert(lo as nat <= lo as nat * lo as nat) by (nonlinear_arith)
                requires
                    lo >= 1,
            ;
        }
    }
    lo as usize
}

/// The power of the prime `p` that enters the odd swing value of `n`:
/// `p` raised to the number of odd quotients in the chain
/// `n / p, n / p^2, ...`, collected by scanning the chain.
#[verifier::loop_isolation(false)]
pub(crate) fn prime_power_in_swing(n: usize, p: usize) -> (r: usize)
    requires
        2 <= p,
        p <= n,
    ensures
        r as int == pow(p as int, swing_exp(n as nat, p as nat)),
        1 <= r <= n,
{
    let mut q = n;
    let mut acc_p: usize = 1;
    let ghost mut k: nat = 0;
    let ghost mut e_sofar: nat = 0;
    proof {
        vstd::arithmetic::power::lemma_pow0(p as int);
    }
    while q >= p
        invariant
            q as int == n as int / pow(p as int, k),
            acc_p as int == pow(p as int, e_sofar),
            e_sofar <= k,
            e_sofar >= 1 ==> pow(p as int, e_sofar) <= n as int,
            1 <= acc_p <= n,
            swing_exp(n as nat, p as nat) == e_sofar + swing_exp(q as nat, p as nat),
        decreases q,
    {
        let qn = q / p;
        proof {
            vstd::arithmetic::power::lemma_pow_positive(p as int, k);
            vstd::arithmetic::div_mod::lemma_div_denominator(n as int, pow(p as int, k), p as int);
            assert(pow(p as int, k + 1) == pow(p as int, k) * p) by {
                vstd::arithmetic::power::lemma_pow_adds(p as int, k, 1);
                vstd::arithmetic::power::lemma_pow1(p as int);
            }
            k = k + 1;
            assert(qn as int == n as int / pow(p as int, k));
            // One more quotient of the chain has been consumed.
            assert(swing_exp(q as nat, p as nat) == (qn as nat % 2) + swing_exp(qn as nat, p as nat));
            vstd::arithmetic::div_mod::lemma_div_decreases(q as int, p as int);
        }
        q = qn;
        if q % 2 == 1 {
            proof {
                // The accumulated power stays within `n`.
                assert(pow(p as int, k) <= n as int) by {
                    if pow(p as int, k) > n as int {
                        vstd::arithmetic::div_mod::lemma_basic_div(n as int, pow(p as int, k));
                    }
                }
                vstd::arithmetic::power::lemma_pow_increases(p as nat, e_sofar + 1, k);
                assert(pow(p as int, (e_sofar + 1) as nat) == pow(p as int, e_sofar) * p) by {
                    vstd::arithmetic::power::lemma_pow_adds(p as int, e_sofar, 1);
                    vstd::arithmetic::power::lemma_pow1(p as int);
                }
            }
            proof {
                lemma_mul_ge_factors(acc_p as nat, p as nat);
            }
            acc_p = acc_p * p;
            proof {
                e_sofar = e_sofar + 1;
            }
        }
    }
    proof {
        vstd::arithmetic::div_mod::lemma_basic_div(q as int, p as int);
        assert(swing_exp(q as nat, p as nat) == 0);
    }
    acc_p
}

/// The large band of the swing evaluation: every prime in `(lo, n]` enters
/// the running product exactly once. Returns `acc` times the block's
/// contribution product, or `None` exactly when that does not fit.
#[verifier::loop_isolation(false)]
#[verifier::rlimit(60)]
fn swing_band_high<T: Operand>(
    n: usize,
    sieve: &primal_sieve::Sieve,
    lo: usize,
    acc: T,
) -> (r: Option<T>)
    requires
        2 <= n,
        n <= sieve_limit(*sieve),
        2 <= lo < n,
        n / 2 <= lo,
        acc.val() >= 1,
    ensures
        r matches Some(v) ==> v.val() == acc.val() * odd_swing_range(
            n as nat,
            lo as int + 1,
            n as int,
        ),
        r is Some <==> T::representable(
            acc.val() * odd_swing_range(n as nat, lo as int + 1, n as int),
        ),
{
    let ghost nn = n as nat;
    let ghost target = acc.val() * odd_swing_range(nn, lo as int + 1, n as int);
    proof {
        lemma_odd_swing_range_pos(nn, lo as int + 1, n as int);
        lemma_mul_ge_factors(acc.val(), odd_swing_range(nn, lo as int + 1, n as int));
        assert(odd_swing_range(nn, lo as int + 1, lo as int) == 1);
    }
    let pa = sieve_primes_from(sieve, lo + 1);
    let mut product = acc;
    let mut i: usize = 0;
    let ghost mut hi_done: int = lo as int;
    while i < pa.len() && pa[i] <= n
        invariant
            i <= pa@.len(),
            lo as int <= hi_done <= n as int,
            product.val() == acc.val() * odd_swing_range(nn, lo as int + 1, hi_done),
            forall|k: int| 0 <= k < i ==> pa@[k] as int <= hi_done,
            hi_done == lo as int || (i > 0 && hi_done == pa@[i - 1] as int),
        decreases pa@.len() - i,
    {
        let p = pa[i];
        proof {
            assert forall|m: int| hi_done < m < p as int implies !is_prime(m) by {
                if is_prime(m) {
                    let j = choose|j: int| 0 <= j < pa@.len() && pa@[j] == m as usize;
                    assert(pa@[j] < pa@[i as int]);
                }
            }
            lemma_swing_exp_one(nn, p as nat);
            vstd::arithmetic::power::lemma_pow1(p as int);
            assert(swing_contrib(nn, p as nat) == p as nat);
            lemma_band_step(nn, lo as int + 1, hi_done, p as int);
            lemma_range_prefix_le(nn, lo as int + 1, p as int, n as int);
            lemma_odd_swing_range_pos(nn, lo as int + 1, hi_done);
            vstd::arithmetic::mul::lemma_mul_is_associative(
                acc.val() as int,
                odd_swing_range(nn, lo as int + 1, hi_done) as int,
                p as int,
            );
            vstd::arithmetic::mul::lemma_mul_left_inequality(
                acc.val() as int,
                odd_swing_range(nn, lo as int + 1, p as int) as int,
                odd_swing_range(nn, lo as int + 1, n as int) as int,
            );
            assert(product.val() * p as nat == acc.val() * odd_swing_range(
                nn,
                lo as int + 1,
                p as int,
            ));
            assert(product.val() * p as nat <= target);
            lemma_mul_ge_factors(odd_swing_range(nn, lo as int + 1, hi_done), p as nat);
            lemma_mul_ge_factors(acc.val(), odd_swing_range(nn, lo as int + 1, p as int));
            assert(p as nat <= target);
        }
        let tp = match T::from_index(p) {
            Some(tp) => tp,
            None => {
                proof {
                    if T::representable(target) {
                        T::lemma_representable_down(p as nat, target);
                    }
                }
                return None;
            }
        };
        product = match product.checked_mul_by(&tp) {
            Some(np) => np,
            None => {
                proof {
                    if T::representable(target) {
                        T::lemma_representable_down(product.val() * p as nat, target);
                    }
                }
                return None;
            }
        };
        proof {
            hi_done = p as int;
        }
        i = i + 1;
    }
    proof {
        assert forall|m: int| hi_done < m <= n as int implies !is_prime(m) by {
            if is_prime(m) {
                let j = choose|j: int| 0 <= j < pa@.len() && pa@[j] == m as usize;
                if j < i {
                    assert(pa@[j] as int <= hi_done);
                } else {
                    assert(i < pa@.len());
                    if i < j {
                        assert(pa@[i as int] < pa@[j]);
                    }
                    assert(pa@[i as int] > n);
                }
            }
        }
        lemma_odd_swing_range_split(nn, lo as int + 1, hi_done, n as int);
        assert forall|m: int| hi_done + 1 <= m <= n as int implies #[trigger] swing_contrib(
            nn,
            m as nat,
        ) == 1 by {
            assert(!is_prime(m));
        }
        lemma_odd_swing_range_trivial(nn, hi_done + 1, n as int);
        product.lemma_val_representable();
    }
    Some(product)
}

/// The medium band of the swing evaluation: a prime in `(lo, hi]` whose
/// square exceeds `n` enters the running product exactly when `n / p` is
/// odd. Returns `acc` times the block's contribution product, or `None`
/// exactly when that does not fit.
#[verifier::loop_isolation(false)]
#[verifier::rlimit(60)]
fn swing_band_mid<T: Operand>(
    n: usize,
    sieve: &primal_sieve::Sieve,
    lo: usize,
    hi: usize,
    acc: T,
) -> (r: Option<T>)
    requires
        2 <= n,
        n <= sieve_limit(*sieve),
        2 <= lo < hi <= n,
        (n as nat) < (lo as nat + 1) * (lo as nat + 1),
        acc.val() >= 1,
    ensures
        r matches Some(v) ==> v.val() == acc.val() * odd_swing_range(
            n as nat,
            lo as int + 1,
            hi as int,
        ),
        r is Some <==> T::representable(
            acc.val() * odd_swing_range(n as nat, lo as int + 1, hi as int),
        ),
{
    let ghost nn = n as nat;
    let ghost target = acc.val() * odd_swing_range(nn, lo as int + 1, hi as int);
    proof {
        lemma_odd_swing_range_pos(nn, lo as int + 1, hi as int);
        lemma_mul_ge_factors(acc.val(), odd_swing_range(nn, lo as int + 1, hi as int));
        assert(odd_swing_range(nn, lo as int + 1, lo as int) == 1);
    }
    let pb = sieve_primes_from(sieve, lo + 1);
    let mut product = acc;
    let mut i: usize = 0;
    let ghost mut hi_done: int = lo as int;
    while i < pb.len() && pb[i] <= hi
        invariant
            i <= pb@.len(),
            lo as int <= hi_done <= hi as int,
            product.val() == acc.val() * odd_swing_range(nn, lo as int + 1, hi_done),
            forall|k: int| 0 <= k < i ==> pb@[k] as int <= hi_done,
            hi_done == lo as int || (i > 0 && hi_done == pb@[i - 1] as int),
        decreases pb@.len() - i,
    {
        let p = pb[i];
        proof {
            assert forall|m: int| hi_done < m < p as int implies !is_prime(m) by {
                if is_prime(m) {
                    let j = choose|j: int| 0 <= j < pb@.len() && pb@[j] == m as usize;
                    assert(pb@[j] < pb@[i as int]);
                }
            }
            assert((n as nat) < (p * p) as nat) by (nonlinear_arith)
                requires
                    (n as nat) < (lo as nat + 1) * (lo as nat + 1),
                    p as nat >= lo as nat + 1,
            ;
            lemma_swing_exp_parity(nn, p as nat);
            lemma_band_step(nn, lo as int + 1, hi_done, p as int);
            lemma_range_prefix_le(nn, lo as int + 1, p as int, hi as int);
            lemma_odd_swing_range_pos(nn, lo as int + 1, hi_done);
        }
        if (n / p) % 2 == 1 {
            proof {
                vstd::arithmetic::power::lemma_pow1(p as int);
                assert(swing_contrib(nn, p as nat) == p as nat);
                vstd::arithmetic::mul::lemma_mul_is_associative(
                    acc.val() as int,
                    odd_swing_range(nn, lo as int + 1, hi_done) as int,
                    p as int,
                );
                vstd::arithmetic::mul::lemma_mul_left_inequality(
                    acc.val() as int,
                    odd_swing_range(nn, lo as int + 1, p as int) as int,
                    odd_swing_range(nn, lo as int + 1, hi as int) as int,
                );
                assert(product.val() * p as nat == acc.val() * odd_swing_range(
                    nn,
                    lo as int + 1,
                    p as int,
                ));
                assert(product.val() * p as nat <= target);
                lemma_mul_ge_factors(odd_swing_range(nn, lo as int + 1, hi_done), p as nat);
                lemma_mul_ge_factors(acc.val(), odd_swing_range(nn, lo as int + 1, p as int));
                assert(p as nat <= target);
            }
            let tp = match T::from_index(p) {
                Some(tp) => tp,
                None => {
                    proof {
                        if T::representable(target) {
                            T::lemma_representable_down(p as nat, target);
                        }
                    }
                    return None;
                }
            };
            product = match product.checked_mul_by(&tp) {
                Some(np) => np,
                None => {
                    proof {
                        if T::representable(target) {
                            T::lemma_representable_down(product.val() * p as nat, target);
                        }
                    }
                    return None;
                }
            };
        } else {
            proof {
                vstd::arithmetic::power::lemma_pow0(p as int);
                assert(swing_contrib(nn, p as nat) == 1);
                lemma_band_step_trivial(nn, lo as int + 1, hi_done, p as int);
            }
        }
        proof {
            hi_done = p as int;
        }
        i = i + 1;
    }
    proof {
        assert forall|m: int| hi_done < m <= hi as int implies !is_prime(m) by {
            if is_prime(m) {
                let j = choose|j: int| 0 <= j < pb@.len() && pb@[j] == m as usize;
                if j < i {
                    assert(pb@[j] as int <= hi_done);
                } else {
                    assert(i < pb@.len());
                    if i < j {
                        assert(pb@[i as int] < pb@[j]);
                    }
                    assert(pb@[i as int] > hi);
                }
            }
        }
        lemma_odd_swing_range_split(nn, lo as int + 1, hi_done, hi as int);
        assert forall|m: int| hi_done + 1 <= m <= hi as int implies #[trigger] swing_contrib(
            nn,
            m as nat,
        ) == 1 by {
            assert(!is_prime(m));
        }
        lemma_odd_swing_range_trivial(nn, hi_done + 1, hi as int);
        product.lemma_val_representable();
    }
    Some(product)
}

/// The small band of the swing evaluation: a prime in `[3, hi]` can carry
/// any exponent, so its whole quotient chain is scanned. Returns `acc`
/// times the block's contribution product, or `None` exactly when that
/// does not fit.
#[verifier::loop_isolation(false)]
#[verifier::rlimit(60)]
fn swing_band_low<T: Operand>(
    n: usize,
    sieve: &primal_sieve::Sieve,
    hi: usize,
    acc: T,
) -> (r: Option<T>)
    requires
        2 <= n,
        n <= sieve_limit(*sieve),
        3 <= hi <= n,
        acc.val() >= 1,
    ensures
        r matches Some(v) ==> v.val() == acc.val() * odd_swing_range(n as nat, 3, hi as int),
        r is Some <==> T::representable(acc.val() * odd_swing_range(n as nat, 3, hi as int)),
{
    let ghost nn = n as nat;
    let ghost target = acc.val() * odd_swing_range(nn, 3, hi as int);
    proof {
        lemma_odd_swing_range_pos(nn, 3, hi as int);
        lemma_mul_ge_factors(acc.val(), odd_swing_range(nn, 3, hi as int));
        assert(odd_swing_range(nn, 3, 2) == 1);
    }
    let pc = sieve_primes_from(sieve, 3);
    let mut product = acc;
    let mut i: usize = 0;
    let ghost mut hi_done: int = 2;
    while i < pc.len() && pc[i] <= hi
        invariant
            i <= pc@.len(),
            2 <= hi_done <= hi as int,
            product.val() == acc.val() * odd_swing_range(nn, 3, hi_done),
            forall|k: int| 0 <= k < i ==> pc@[k] as int <= hi_done,
            hi_done == 2 || (i > 0 && hi_done == pc@[i - 1] as int),
        decreases pc@.len() - i,
    {
        let p = pc[i];
        proof {
            assert forall|m: int| hi_done < m < p as int implies !is_prime(m) by {
                if is_prime(m) {
                    let j = choose|j: int| 0 <= j < pc@.len() && pc@[j] == m as usize;
                    assert(pc@[j] < pc@[i as int]);
                }
            }
            lemma_band_step(nn, 3, hi_done, p as int);
            lemma_range_prefix_le(nn, 3, p as int, hi as int);
            lemma_odd_swing_range_pos(nn, 3, hi_done);
        }
        // Collect every factor that this small prime contributes.
        let acc_p = prime_power_in_swing(n, p);
        proof {
            assert(swing_contrib(nn, p as nat) == acc_p as nat);
            vstd::arithmetic::mul::lemma_mul_is_associative(
                acc.val() as int,
                odd_swing_range(nn, 3, hi_done) as int,
                acc_p as int,
            );
            vstd::arithmetic::mul::lemma_mul_left_inequality(
                acc.val() as int,
                odd_swing_range(nn, 3, p as int) as int,
                odd_swing_range(nn, 3, hi as int) as int,
            );
            assert(product.val() * acc_p as nat == acc.val() * odd_swing_range(nn, 3, p as int));
            assert(product.val() * acc_p as nat <= target);
            lemma_mul_ge_factors(odd_swing_range(nn, 3, hi_done), acc_p as nat);
            lemma_mul_ge_factors(acc.val(), odd_swing_range(nn, 3, p as int));
            assert(acc_p as nat <= target);
        }
        if acc_p == 1 {
            proof {
                lemma_band_step_trivial(nn, 3, hi_done, p as int);
            }
        } else {
            let tp = match T::from_index(acc_p) {
                Some(tp) => tp,
                None => {
                    proof {
                        if T::representable(target) {
                            T::lemma_representable_down(acc_p as nat, target);
                        }
                    }
                    return None;
                }
            };
            product = match product.checked_mul_by(&tp) {
                Some(np) => np,
                None => {
                    proof {
                        if T::representable(target) {
                            T::lemma_representable_down(product.val() * acc_p as nat, target);
                        }
                    }
                    return None;
                }
            };
        }
        proof {
            hi_done = p as int;
        }
        i = i + 1;
    }
    proof {
        assert forall|m: int| hi_done < m <= hi as int implies !is_prime(m) by {
            if is_prime(m) {
                let j = choose|j: int| 0 <= j < pc@.len() && pc@[j] == m as usize;
                if j < i {
                    assert(pc@[j] as int <= hi_done);
                } else {
                    assert(i < pc@.len());
                    if i < j {
                        assert(pc@[i as int] < pc@[j]);
                    }
                    assert(pc@[i as int] > hi);
                }
            }
        }
        lemma_odd_swing_range_split(nn, 3, hi_done, hi as int);
        assert forall|m: int| hi_done + 1 <= m <= hi as int implies #[trigger] swing_contrib(
            nn,
            m as nat,
        ) == 1 by {
            assert(!is_prime(m));
        }
        lemma_odd_swing_range_trivial(nn, hi_done + 1, hi as int);
        product.lemma_val_representable();
    }
    Some(product)
}

/// The odd swing value of `n`, evaluated over the sieve's primes in three
/// bands. The bands together cover exactly the odd values `3 ..= n` whose
/// contribution can be nontrivial; the block between `n / 3` and `n / 2`
/// is silent because every prime there has the even quotient 2. The
/// result is exactly `odd_swing(n)` whenever that is representable, and
/// `None` exactly when it is not.
#[verifier::loop_isolation(false)]
#[verifier::rlimit(60)]
pub(crate) fn prime_swing<T: Operand>(n: usize, sieve: &primal_sieve::Sieve) -> (r: Option<T>)
    requires
        2 <= n,
        n <= sieve_limit(*sieve),
    ensures
        r matches Some(v) ==> v.val() == odd_swing(n as nat),
        r is Some <==> T::representable(odd_swing(n as nat)),
{
    let ghost nn = n as nat;
    let sq = integer_sqrt(n);
    let x1: usize = if sq < 2 {
        2
    } else {
        sq
    };
    let x2: usize = if n / 3 < x1 {
        x1
    } else {
        n / 3
    };
    let x3: usize = if n / 2 < x2 {
        x2
    } else {
        n / 2
    };
    let ghost ra = odd_swing_range(nn, x3 as int + 1, n as int);
    let ghost rb = odd_swing_range(nn, x1 as int + 1, x2 as int);
    let ghost rc = odd_swing_range(nn, 3, x1 as int);
    proof {
        // The silent block (x2, x3] contributes nothing.
        assert forall|m: int| (x2 as int) < m <= x3 as int implies #[trigger] swing_contrib(
            nn,
            m as nat,
        ) == 1 by {
            if is_prime(m) {
                assert(2 * m <= n) by {
                    vstd::arithmetic::div_mod::lemma_fundamental_div_mod(n as int, 2);
                }
                lemma_swing_exp_zero(nn, m as nat);
                vstd::arithmetic::power::lemma_pow0(m as int);
            }
        }
        lemma_odd_swing_decompose(nn, x1 as int, x2 as int, x3 as int);
        lemma_odd_swing_range_pos(nn, x3 as int + 1, n as int);
        lemma_odd_swing_range_pos(nn, x1 as int + 1, x2 as int);
        lemma_odd_swing_range_pos(nn, 3, x1 as int);
        lemma_mul_ge_factors(ra, rb);
        lemma_mul_ge_factors(ra * rb, rc);
        assert((n as nat) < (x1 as nat + 1) * (x1 as nat + 1)) by (nonlinear_arith)
            requires
                (n as nat) < (sq as nat + 1) * (sq as nat + 1),
                x1 as nat >= sq as nat,
        ;
    }
    let mut product = T::one();

    if x3 < n {
        product = match swing_band_high(n, sieve, x3, product) {
            Some(v) => v,
            None => {
                proof {
                    if T::representable(odd_swing(nn)) {
                        T::lemma_representable_down(1 * ra, odd_swing(nn));
                    }
                }
                return None;
            }
        };
    } else {
        proof {
            assert(ra == 1);
        }
    }
    proof {
        assert(product.val() == ra);
    }

    if x1 < x2 {
        product = match swing_band_mid(n, sieve, x1, x2, product) {
            Some(v) => v,
            None => {
                proof {
                    if T::representable(odd_swing(nn)) {
                        T::lemma_representable_down(ra * rb, odd_swing(nn));
                    }
                }
                return None;
            }
        };
    } else {
        proof {
            assert(rb == 1);
        }
    }
    proof {
        assert(product.val() == ra * rb);
    }

    if x1 >= 3 {
        product = match swing_band_low(n, sieve, x1, product) {
            Some(v) => v,
            None => {
                return None;
            }
        };
    } else {
        proof {
            assert(rc == 1);
        }
    }
    proof {
        assert(product.val() == ra * rb * rc);
        product.lemma_val_representable();
    }
    Some(product)
}

/// The odd part of `n!`, by the halving recursion
/// `odd_fact(n) == odd_fact(n / 2)^2 * odd_swing(n)`.
pub(crate) fn odd_factorial<T: Operand>(n: usize, sieve: &primal_sieve::Sieve) -> (r: Option<T>)
    requires
        n <= sieve_limit(*sieve),
    ensures
        r matches Some(v) ==> v.val() == odd_fact(n as nat),
        r is Some <==> T::representable(odd_fact(n as nat)),
    decreases n,
{
    if n < 2 {
        let one = T::one();
        proof {
            one.lemma_val_representable();
        }
        return Some(one);
    }
    proof {
        lemma_odd_fact_parts(n as nat);
    }
    let half = match odd_factorial::<T>(n / 2, sieve) {
        Some(h) => h,
        None => {
            proof {
                if T::representable(odd_fact(n as nat)) {
                    T::lemma_representable_down(odd_fact((n / 2) as nat), odd_fact(n as nat));
                }
            }
            return None;
        }
    };
    let half_sq = match half.checked_mul_by(&half) {
        Some(s) => s,
        None => {
            proof {
                if T::representable(odd_fact(n as nat)) {
                    T::lemma_representable_down(
                        odd_fact((n / 2) as nat) * odd_fact((n / 2) as nat),
                        odd_fact(n as nat),
                    );
                }
            }
            return None;
        }
    };
    let sw = match prime_swing::<T>(n, sieve) {
        Some(s) => s,
        None => {
            proof {
                if T::representable(odd_fact(n as nat)) {
                    T::lemma_representable_down(odd_swing(n as nat), odd_fact(n as nat));
                }
            }
            return None;
        }
    };
    half_sq.checked_mul_by(&sw)
}

/// `n!` by the prime-swing algorithm: the odd part from the sieve-backed
/// recursion, shifted by the exponent of 2 in `n!`.
pub(crate) fn psw_factorial_core<T: Operand>(
    n: usize,
    sieve: &primal_sieve::Sieve,
) -> (r: Option<T>)
    requires
        n <= sieve_limit(*sieve),
    ensures
        r matches Some(v) ==> v.val() == psw_fact(n as nat),
        r is Some <==> T::representable(psw_fact(n as nat)),
{
    proof {
        lemma_psw_fact_parts(n as nat);
        lemma_pop_count_le(n as nat);
    }
    let of = match odd_factorial::<T>(n, sieve) {
        Some(v) => v,
        None => {
            proof {
                if T::representable(psw_fact(n as nat)) {
                    T::lemma_representable_down(odd_fact(n as nat), psw_fact(n as nat));
                }
            }
            return None;
        }
    };
    let ones = pop_count_exec(n);
    of.checked_mul_pow2(n - ones)
}

} // verus!
