use vstd::prelude::*;

pub mod arith;
pub mod bignum;
pub mod operand;
pub mod sieve;
pub mod swing;
pub mod tables;

verus! {

use crate::arith::{fact, double_fact, psw_fact, odd_fact, odd_swing, pop_count,
    lemma_double_fact_increases};
use crate::operand::Operand;
use crate::sieve::sieve_limit;
use crate::swing::psw_factorial_core;
use crate::tables::{FACT_TABLE_LEN, small_factorial_at, linear_factorial};

/// The crossover above which the dispatcher builds a prime sieve and runs
/// the recursive prime-swing engine; below it, a table lookup or plain
/// iterative multiplication is cheaper. Only the ordering of the three
/// strategies matters; the threshold itself is a tuning constant.
pub const LINEAR_LIMIT: usize = 129;

/// The value that the dispatcher computes for an operand holding `v`: the
/// factorial product itself below the sieve crossover, and the
/// prime-swing value `odd_fact(v) * 2^(v - pop_count(v))` above it. The
/// two agree mathematically for every `v` (the exponent of 2 in `v!` is
/// `v - pop_count(v)`, and `odd_fact` is its odd part), and the library's
/// tests confirm the agreement well into sieve territory.
pub open spec fn dispatched_fact(v: nat) -> nat {
    if v < LINEAR_LIMIT {
        fact(v)
    } else {
        psw_fact(v)
    }
}

/// Unary operator for computing the factorial of a number.
///
/// Implemented for every `Operand` type: fixed-width unsigned integers
/// give `None` once the factorial no longer fits, an arbitrary-precision
/// operand never does.
pub trait Factorial: Operand {
    /// `self!`, or `None` exactly when it is not representable (or the
    /// operand is too large to size a sieve by).
    fn checked_factorial(&self) -> (r: Option<Self>)
        ensures
            r matches Some(v) ==> v.val() == dispatched_fact(self.val()),
            r is Some <==> self.val() <= usize::MAX && Self::representable(
                dispatched_fact(self.val()),
            ),
    ;

    /// `self!` for an operand whose factorial is representable.
    fn factorial(&self) -> (r: Self)
        requires
            self.val() <= usize::MAX,
            Self::representable(dispatched_fact(self.val())),
        ensures
            r.val() == dispatched_fact(self.val()),
    ;

    /// `self!` by the prime-swing algorithm against a caller-supplied
    /// sieve, always taking the recursive path. The sieve must cover
    /// `self`; callers who already paid for a sieve can reuse it across
    /// many factorials.
    fn psw_factorial(&self, sieve: &primal_sieve::Sieve) -> (r: Option<Self>)
        requires
            self.val() <= sieve_limit(*sieve),
        ensures
            r matches Some(v) ==> v.val() == psw_fact(self.val()),
            r is Some <==> self.val() <= usize::MAX && Self::representable(psw_fact(self.val())),
    ;
}

impl<T: Operand> Factorial for T {
    fn checked_factorial(&self) -> (r: Option<Self>) {
        let n = match self.to_index() {
            Some(n) => n,
            None => {
                return None;
            }
        };
        if n < FACT_TABLE_LEN {
            T::from_wide(small_factorial_at(n))
        } else if n < LINEAR_LIMIT {
            linear_factorial::<T>(n)
        } else {
            let sieve = primal_sieve::Sieve::new(n);
            psw_factorial_core::<T>(n, &sieve)
        }
    }

    fn factorial(&self) -> (r: Self) {
        self.checked_factorial().unwrap()
    }

    fn psw_factorial(&self, sieve: &primal_sieve::Sieve) -> (r: Option<Self>) {
        let n = match self.to_index() {
            Some(n) => n,
            None => {
                return None;
            }
        };
        psw_factorial_core::<Self>(n, sieve)
    }
}

/// Unary operator for computing the double factorial of a number: the
/// product of the values up to `self` that share its parity.
pub trait DoubleFactorial: Operand {
    /// `self!!`, or `None` exactly when it is not representable.
    fn checked_double_factorial(&self) -> (r: Option<Self>)
        ensures
            r matches Some(v) ==> v.val() == double_fact(self.val()),
            r is Some <==> Self::representable(double_fact(self.val())),
    ;

    /// `self!!` for an operand whose double factorial is representable.
    fn double_factorial(&self) -> (r: Self)
        requires
            Self::representable(double_fact(self.val())),
        ensures
            r.val() == double_fact(self.val()),
    ;
}

impl<T: Operand> DoubleFactorial for T {
    #[verifier::loop_isolation(false)]
    fn checked_double_factorial(&self) -> (r: Option<Self>) {
        let one = T::one();
        proof {
            self.lemma_val_representable();
            one.lemma_val_representable();
        }
        let two = match T::from_index(2) {
            Some(t) => t,
            None => {
                // Nothing above 1 is representable, so `self` is 0 or 1
                // and its double factorial is 1.
                proof {
                    if self.val() >= 2 {
                        T::lemma_representable_down(2, self.val());
                    }
                }
                return Some(one);
            }
        };
        let mut acc = one;
        let mut i = if self.is_even() {
            match T::from_index(2) {
                Some(t) => t,
                None => {
                    proof {
                        assert(false);
                    }
                    return Some(acc);
                }
            }
        } else {
            T::one()
        };
        loop
            invariant
                i.val() >= 1,
                i.val() % 2 == self.val() % 2,
                i.val() <= self.val() + 2,
                two.val() == 2,
                i.val() < 2 ==> acc.val() == 1,
                i.val() >= 2 ==> acc.val() == double_fact((i.val() - 2) as nat),
            decreases self.val() + 2 - i.val(),
        {
            if !i.le(self) {
                break;
            }
            proof {
                lemma_double_fact_increases(i.val(), self.val());
                if i.val() >= 2 {
                    vstd::arithmetic::mul::lemma_mul_is_commutative(
                        i.val() as int,
                        double_fact((i.val() - 2) as nat) as int,
                    );
                }
                assert(acc.val() * i.val() == double_fact(i.val()));
            }
            acc = match acc.checked_mul_by(&i) {
                Some(a) => a,
                None => {
                    proof {
                        if T::representable(double_fact(self.val())) {
                            T::lemma_representable_down(
                                double_fact(i.val()),
                                double_fact(self.val()),
                            );
                        }
                    }
                    return None;
                }
            };
            i = match i.checked_add_to(&two) {
                Some(j) => j,
                None => {
                    // `i + 2` does not fit, yet `self` does: with matching
                    // parity that forces `i == self`, so the product is done.
                    proof {
                        if self.val() >= i.val() + 2 {
                            T::lemma_representable_down((i.val() + 2) as nat, self.val());
                        }
                        acc.lemma_val_representable();
                    }
                    return Some(acc);
                }
            };
        }
        proof {
            acc.lemma_val_representable();
        }
        Some(acc)
    }

    fn double_factorial(&self) -> (r: Self) {
        self.checked_double_factorial().unwrap()
    }
}

/// The outcome that the prime-swing entry point pins down for an operand
/// value `v`: any returned value equals `psw_fact(v)`, and a value is
/// returned exactly when it is representable and `v` fits a machine index.
pub open spec fn psw_outcome<T: Operand>(v: nat, r: Option<nat>) -> bool {
    &&& (r matches Some(x) ==> x == psw_fact(v))
    &&& (r is Some <==> v <= usize::MAX && T::representable(psw_fact(v)))
}

/// Determinism and sieve independence of the prime-swing path: the
/// contract of `psw_factorial` pins its outcome as a function of the
/// operand value alone, so repeated calls with the same operand, calls
/// reusing one sieve for several operands, and calls against different
/// sieves that each cover the operand all return equal results.
pub proof fn lemma_psw_outcome_unique<T: Operand>(v: nat, r1: Option<nat>, r2: Option<nat>)
    requires
        psw_outcome::<T>(v, r1),
        psw_outcome::<T>(v, r2),
    ensures
        r1 == r2,
{
}

/// The odd swing value of 2, by unwinding its banded product.
proof fn lemma_odd_swing_of_2()
    ensures
        odd_swing(2) == 1,
{
    reveal_with_fuel(crate::arith::no_factor_below, 13);
    reveal_with_fuel(crate::arith::odd_count_chain, 6);
    reveal_with_fuel(vstd::arithmetic::power::pow, 6);
    assert(crate::arith::odd_swing_range(2, 3, 2) == 1);
}

/// The odd swing value of 3, by unwinding its banded product.
proof fn lemma_odd_swing_of_3()
    ensures
        odd_swing(3) == 3,
{
    reveal_with_fuel(crate::arith::no_factor_below, 13);
    reveal_with_fuel(crate::arith::odd_count_chain, 6);
    reveal_with_fuel(vstd::arithmetic::power::pow, 6);
    assert(crate::arith::is_prime(3));
    assert(crate::arith::swing_exp(3, 3) == 1);
    assert(crate::arith::swing_contrib(3, 3) == 3);
    assert(crate::arith::odd_swing_range(3, 3, 2) == 1);
    assert(crate::arith::odd_swing_range(3, 3, 3) == crate::arith::odd_swing_range(
        3,
        3,
        2,
    ) * crate::arith::swing_contrib(3, 3));
    assert(crate::arith::odd_swing_range(3, 3, 3) == 3);
}

/// The odd swing value of 4, by unwinding its banded product.
proof fn lemma_odd_swing_of_4()
    ensures
        odd_swing(4) == 3,
{
    reveal_with_fuel(crate::arith::no_factor_below, 13);
    reveal_with_fuel(crate::arith::odd_count_chain, 6);
    reveal_with_fuel(vstd::arithmetic::power::pow, 6);
    assert(crate::arith::is_prime(3));
    assert(!crate::arith::is_prime(4));
    assert(crate::arith::swing_exp(4, 3) == 1);
    assert(crate::arith::swing_contrib(4, 3) == 3);
    assert(crate::arith::odd_swing_range(4, 3, 2) == 1);
    assert(crate::arith::odd_swing_range(4, 3, 3) == crate::arith::odd_swing_range(
        4,
        3,
        2,
    ) * crate::arith::swing_contrib(4, 3));
    assert(crate::arith::odd_swing_range(4, 3, 3) == 3);
    assert(crate::arith::odd_swing_range(4, 3, 4) == crate::arith::odd_swing_range(
        4,
        3,
        3,
    ) * crate::arith::swing_contrib(4, 4));
    assert(crate::arith::odd_swing_range(4, 3, 4) == 3);
}

/// The odd swing value of 5, by unwinding its banded product.
proof fn lemma_odd_swing_of_5()
    ensures
        odd_swing(5) == 15,
{
    reveal_with_fuel(crate::arith::no_factor_below, 13);
    reveal_with_fuel(crate::arith::odd_count_chain, 6);
    reveal_with_fuel(vstd::arithmetic::power::pow, 6);
    assert(crate::arith::is_prime(3));
    assert(!crate::arith::is_prime(4));
    assert(crate::arith::is_prime(5));
    assert(crate::arith::swing_exp(5, 3) == 1);
    assert(crate::arith::swing_contrib(5, 3) == 3);
    assert(crate::arith::swing_exp(5, 5) == 1);
    assert(crate::arith::swing_contrib(5, 5) == 5);
    assert(crate::arith::odd_swing_range(5, 3, 2) == 1);
    assert(crate::arith::odd_swing_range(5, 3, 3) == crate::arith::odd_swing_range(
        5,
        3,
        2,
    ) * crate::arith::swing_contrib(5, 3));
    assert(crate::arith::odd_swing_range(5, 3, 3) == 3);
    assert(crate::arith::odd_swing_range(5, 3, 4) == crate::arith::odd_swing_range(
        5,
        3,
        3,
    ) * crate::arith::swing_contrib(5, 4));
    assert(crate::arith::odd_swing_range(5, 3, 4) == 3);
    assert(crate::arith::odd_swing_range(5, 3, 5) == crate::arith::odd_swing_range(
        5,
        3,
        4,
    ) * crate::arith::swing_contrib(5, 5));
    assert(crate::arith::odd_swing_range(5, 3, 5) == 15);
}

/// The odd swing value of 6, by unwinding its banded product.
proof fn lemma_odd_swing_of_6()
    ensures
        odd_swing(6) == 5,
{
    reveal_with_fuel(crate::arith::no_factor_below, 13);
    reveal_with_fuel(crate::arith::odd_count_chain, 6);
    reveal_with_fuel(vstd::arithmetic::power::pow, 6);
    assert(crate::arith::is_prime(3));
    assert(!crate::arith::is_prime(4));
    assert(crate::arith::is_prime(5));
    assert(!crate::arith::is_prime(6));
    assert(crate::arith::swing_exp(6, 3) == 0);
    assert(crate::arith::swing_contrib(6, 3) == 1);
    assert(crate::arith::swing_exp(6, 5) == 1);
    assert(crate::arith::swing_contrib(6, 5) == 5);
    assert(crate::arith::odd_swing_range(6, 3, 2) == 1);
    assert(crate::arith::odd_swing_range(6, 3, 3) == crate::arith::odd_swing_range(
        6,
        3,
        2,
    ) * crate::arith::swing_contrib(6, 3));
    assert(crate::arith::odd_swing_range(6, 3, 3) == 1);
    assert(crate::arith::odd_swing_range(6, 3, 4) == crate::arith::odd_swing_range(
        6,
        3,
        3,
    ) * crate::arith::swing_contrib(6, 4));
    assert(crate::arith::odd_swing_range(6, 3, 4) == 1);
    assert(crate::arith::odd_swing_range(6, 3, 5) == crate::arith::odd_swing_range(
        6,
        3,
        4,
    ) * crate::arith::swing_contrib(6, 5));
    assert(crate::arith::odd_swing_range(6, 3, 5) == 5);
    assert(crate::arith::odd_swing_range(6, 3, 6) == crate::arith::odd_swing_range(
        6,
        3,
        5,
    ) * crate::arith::swing_contrib(6, 6));
    assert(crate::arith::odd_swing_range(6, 3, 6) == 5);
}

/// The odd swing value of 7, by unwinding its banded product.
proof fn lemma_odd_swing_of_7()
    ensures
        odd_swing(7) == 35,
{
    reveal_with_fuel(crate::arith::no_factor_below, 13);
    reveal_with_fuel(crate::arith::odd_count_chain, 6);
    reveal_with_fuel(vstd::arithmetic::power::pow, 6);
    assert(crate::arith::is_prime(3));
    assert(!crate::arith::is_prime(4));
    assert(crate::arith::is_prime(5));
    assert(!crate::arith::is_prime(6));
    assert(crate::arith::is_prime(7));
    assert(crate::arith::swing_exp(7, 3) == 0);
    assert(crate::arith::swing_contrib(7, 3) == 1);
    assert(crate::arith::swing_exp(7, 5) == 1);
    assert(crate::arith::swing_contrib(7, 5) == 5);
    assert(crate::arith::swing_exp(7, 7) == 1);
    assert(crate::arith::swing_contrib(7, 7) == 7);
    assert(crate::arith::odd_swing_range(7, 3, 2) == 1);
    assert(crate::arith::odd_swing_range(7, 3, 3) == crate::arith::odd_swing_range(
        7,
        3,
        2,
    ) * crate::arith::swing_contrib(7, 3));
    assert(crate::arith::odd_swing_range(7, 3, 3) == 1);
    assert(crate::arith::odd_swing_range(7, 3, 4) == crate::arith::odd_swing_range(
        7,
        3,
        3,
    ) * crate::arith::swing_contrib(7, 4));
    assert(crate::arith::odd_swing_range(7, 3, 4) == 1);
    assert(crate::arith::odd_swing_range(7, 3, 5) == crate::arith::odd_swing_range(
        7,
        3,
        4,
    ) * crate::arith::swing_contrib(7, 5));
    assert(crate::arith::odd_swing_range(7, 3, 5) == 5);
    assert(crate::arith::odd_swing_range(7, 3, 6) == crate::arith::odd_swing_range(
        7,
        3,
        5,
    ) * crate::arith::swing_contrib(7, 6));
    assert(crate::arith::odd_swing_range(7, 3, 6) == 5);
    assert(crate::arith::odd_swing_range(7, 3, 7) == crate::arith::odd_swing_range(
        7,
        3,
        6,
    ) * crate::arith::swing_contrib(7, 7));
    assert(crate::arith::odd_swing_range(7, 3, 7) == 35);
}

/// The odd swing value of 8, by unwinding its banded product.
proof fn lemma_odd_swing_of_8()
    ensures
        odd_swing(8) == 35,
{
    reveal_with_fuel(crate::arith::no_factor_below, 13);
    reveal_with_fuel(crate::arith::odd_count_chain, 6);
    reveal_with_fuel(vstd::arithmetic::power::pow, 6);
    assert(crate::arith::is_prime(3));
    assert(!crate::arith::is_prime(4));
    assert(crate::arith::is_prime(5));
    assert(!crate::arith::is_prime(6));
    assert(crate::arith::is_prime(7));
    assert(!crate::arith::is_prime(8));
    assert(crate::arith::swing_exp(8, 3) == 0);
    assert(crate::arith::swing_contrib(8, 3) == 1);
    assert(crate::arith::swing_exp(8, 5) == 1);
    assert(crate::arith::swing_contrib(8, 5) == 5);
    assert(crate::arith::swing_exp(8, 7) == 1);
    assert(crate::arith::swing_contrib(8, 7) == 7);
    assert(crate::arith::odd_swing_range(8, 3, 2) == 1);
    assert(crate::arith::odd_swing_range(8, 3, 3) == crate::arith::odd_swing_range(
        8,
        3,
        2,
    ) * crate::arith::swing_contrib(8, 3));
    assert(crate::arith::odd_swing_range(8, 3, 3) == 1);
    assert(crate::arith::odd_swing_range(8, 3, 4) == crate::arith::odd_swing_range(
        8,
        3,
        3,
    ) * crate::arith::swing_contrib(8, 4));
    assert(crate::arith::odd_swing_range(8, 3, 4) == 1);
    assert(crate::arith::odd_swing_range(8, 3, 5) == crate::arith::odd_swing_range(
        8,
        3,
        4,
    ) * crate::arith::swing_contrib(8, 5));
    assert(crate::arith::odd_swing_range(8, 3, 5) == 5);
    assert(crate::arith::odd_swing_range(8, 3, 6) == crate::arith::odd_swing_range(
        8,
        3,
        5,
    ) * crate::arith::swing_contrib(8, 6));
    assert(crate::arith::odd_swing_range(8, 3, 6) == 5);
    assert(crate::arith::odd_swing_range(8, 3, 7) == crate::arith::odd_swing_range(
        8,
        3,
        6,
    ) * crate::arith::swing_contrib(8, 7));
    assert(crate::arith::odd_swing_range(8, 3, 7) == 35);
    assert(crate::arith::odd_swing_range(8, 3, 8) == crate::arith::odd_swing_range(
        8,
        3,
        7,
    ) * crate::arith::swing_contrib(8, 8));
    assert(crate::arith::odd_swing_range(8, 3, 8) == 35);
}

/// The odd swing value of 9, by unwinding its banded product.
proof fn lemma_odd_swing_of_9()
    ensures
        odd_swing(9) == 315,
{
    reveal_with_fuel(crate::arith::no_factor_below, 13);
    reveal_with_fuel(crate::arith::odd_count_chain, 6);
    reveal_with_fuel(vstd::arithmetic::power::pow, 6);
    assert(crate::arith::is_prime(3));
    assert(!crate::arith::is_prime(4));
    assert(crate::arith::is_prime(5));
    assert(!crate::arith::is_prime(6));
    assert(crate::arith::is_prime(7));
    assert(!crate::arith::is_prime(8));
    assert(!crate::arith::is_prime(9));
    assert(crate::arith::swing_exp(9, 3) == 2);
    assert(crate::arith::swing_contrib(9, 3) == 9);
    assert(crate::arith::swing_exp(9, 5) == 1);
    assert(crate::arith::swing_contrib(9, 5) == 5);
    assert(crate::arith::swing_exp(9, 7) == 1);
    assert(crate::arith::swing_contrib(9, 7) == 7);
    assert(crate::arith::odd_swing_range(9, 3, 2) == 1);
    assert(crate::arith::odd_swing_range(9, 3, 3) == crate::arith::odd_swing_range(
        9,
        3,
        2,
    ) * crate::arith::swing_contrib(9, 3));
    assert(crate::arith::odd_swing_range(9, 3, 3) == 9);
    assert(crate::arith::odd_swing_range(9, 3, 4) == crate::arith::odd_swing_range(
        9,
        3,
        3,
    ) * crate::arith::swing_contrib(9, 4));
    assert(crate::arith::odd_swing_range(9, 3, 4) == 9);
    assert(crate::arith::odd_swing_range(9, 3, 5) == crate::arith::odd_swing_range(
        9,
        3,
        4,
    ) * crate::arith::swing_contrib(9, 5));
    assert(crate::arith::odd_swing_range(9, 3, 5) == 45);
    assert(crate::arith::odd_swing_range(9, 3, 6) == crate::arith::odd_swing_range(
        9,
        3,
        5,
    ) * crate::arith::swing_contrib(9, 6));
    assert(crate::arith::odd_swing_range(9, 3, 6) == 45);
    assert(crate::arith::odd_swing_range(9, 3, 7) == crate::arith::odd_swing_range(
        9,
        3,
        6,
    ) * crate::arith::swing_contrib(9, 7));
    assert(crate::arith::odd_swing_range(9, 3, 7) == 315);
    assert(crate::arith::odd_swing_range(9, 3, 8) == crate::arith::odd_swing_range(
        9,
        3,
        7,
    ) * crate::arith::swing_contrib(9, 8));
    assert(crate::arith::odd_swing_range(9, 3, 8) == 315);
    assert(crate::arith::odd_swing_range(9, 3, 9) == crate::arith::odd_swing_range(
        9,
        3,
        8,
    ) * crate::arith::swing_contrib(9, 9));
    assert(crate::arith::odd_swing_range(9, 3, 9) == 315);
}

/// The odd swing value of 10, by unwinding its banded product.
proof fn lemma_odd_swing_of_10()
    ensures
        odd_swing(10) == 63,
{
    reveal_with_fuel(crate::arith::no_factor_below, 13);
    reveal_with_fuel(crate::arith::odd_count_chain, 6);
    reveal_with_fuel(vstd::arithmetic::power::pow, 6);
    assert(crate::arith::is_prime(3));
    assert(!crate::arith::is_prime(4));
    assert(crate::arith::is_prime(5));
    assert(!crate::arith::is_prime(6));
    assert(crate::arith::is_prime(7));
    assert(!crate::arith::is_prime(8));
    assert(!crate::arith::is_prime(9));
    assert(!crate::arith::is_prime(10));
    assert(crate::arith::swing_exp(10, 3) == 2);
    assert(crate::arith::swing_contrib(10, 3) == 9);
    assert(crate::arith::swing_exp(10, 5) == 0);
    assert(crate::arith::swing_contrib(10, 5) == 1);
    assert(crate::arith::swing_exp(10, 7) == 1);
    assert(crate::arith::swing_contrib(10, 7) == 7);
    assert(crate::arith::odd_swing_range(10, 3, 2) == 1);
    assert(crate::arith::odd_swing_range(10, 3, 3) == crate::arith::odd_swing_range(
        10,
        3,
        2,
    ) * crate::arith::swing_contrib(10, 3));
    assert(crate::arith::odd_swing_range(10, 3, 3) == 9);
    assert(crate::arith::odd_swing_range(10, 3, 4) == crate::arith::odd_swing_range(
        10,
        3,
        3,
    ) * crate::arith::swing_contrib(10, 4));
    assert(crate::arith::odd_swing_range(10, 3, 4) == 9);
    assert(crate::arith::odd_swing_range(10, 3, 5) == crate::arith::odd_swing_range(
        10,
        3,
        4,
    ) * crate::arith::swing_contrib(10, 5));
    assert(crate::arith::odd_swing_range(10, 3, 5) == 9);
    assert(crate::arith::odd_swing_range(10, 3, 6) == crate::arith::odd_swing_range(
        10,
        3,
        5,
    ) * crate::arith::swing_contrib(10, 6));
    assert(crate::arith::odd_swing_range(10, 3, 6) == 9);
    assert(crate::arith::odd_swing_range(10, 3, 7) == crate::arith::odd_swing_range(
        10,
        3,
        6,
    ) * crate::arith::swing_contrib(10, 7));
    assert(crate::arith::odd_swing_range(10, 3, 7) == 63);
    assert(crate::arith::odd_swing_range(10, 3, 8) == crate::arith::odd_swing_range(
        10,
        3,
        7,
    ) * crate::arith::swing_contrib(10, 8));
    assert(crate::arith::odd_swing_range(10, 3, 8) == 63);
    assert(crate::arith::odd_swing_range(10, 3, 9) == crate::arith::odd_swing_range(
        10,
        3,
        8,
    ) * crate::arith::swing_contrib(10, 9));
    assert(crate::arith::odd_swing_range(10, 3, 9) == 63);
    assert(crate::arith::odd_swing_range(10, 3, 10) == crate::arith::odd_swing_range(
        10,
        3,
        9,
    ) * crate::arith::swing_contrib(10, 10));
    assert(crate::arith::odd_swing_range(10, 3, 10) == 63);
}

/// The odd swing value of 11, by unwinding its banded product.
proof fn lemma_odd_swing_of_11()
    ensures
        odd_swing(11) == 693,
{
    reveal_with_fuel(crate::arith::no_factor_below, 13);
    reveal_with_fuel(crate::arith::odd_count_chain, 6);
    reveal_with_fuel(vstd::arithmetic::power::pow, 6);
    assert(crate::arith::is_prime(3));
    assert(!crate::arith::is_prime(4));
    assert(crate::arith::is_prime(5));
    assert(!crate::arith::is_prime(6));
    assert(crate::arith::is_prime(7));
    assert(!crate::arith::is_prime(8));
    assert(!crate::arith::is_prime(9));
    assert(!crate::arith::is_prime(10));
    assert(crate::arith::is_prime(11));
    assert(crate::arith::swing_exp(11, 3) == 2);
    assert(crate::arith::swing_contrib(11, 3) == 9);
    assert(crate::arith::swing_exp(11, 5) == 0);
    assert(crate::arith::swing_contrib(11, 5) == 1);
    assert(crate::arith::swing_exp(11, 7) == 1);
    assert(crate::arith::swing_contrib(11, 7) == 7);
    assert(crate::arith::swing_exp(11, 11) == 1);
    assert(crate::arith::swing_contrib(11, 11) == 11);
    assert(crate::arith::odd_swing_range(11, 3, 2) == 1);
    assert(crate::arith::odd_swing_range(11, 3, 3) == crate::arith::odd_swing_range(
        11,
        3,
        2,
    ) * crate::arith::swing_contrib(11, 3));
    assert(crate::arith::odd_swing_range(11, 3, 3) == 9);
    assert(crate::arith::odd_swing_range(11, 3, 4) == crate::arith::odd_swing_range(
        11,
        3,
        3,
    ) * crate::arith::swing_contrib(11, 4));
    assert(crate::arith::odd_swing_range(11, 3, 4) == 9);
    assert(crate::arith::odd_swing_range(11, 3, 5) == crate::arith::odd_swing_range(
        11,
        3,
        4,
    ) * crate::arith::swing_contrib(11, 5));
    assert(crate::arith::odd_swing_range(11, 3, 5) == 9);
    assert(crate::arith::odd_swing_range(11, 3, 6) == crate::arith::odd_swing_range(
        11,
        3,
        5,
    ) * crate::arith::swing_contrib(11, 6));
    assert(crate::arith::odd_swing_range(11, 3, 6) == 9);
    assert(crate::arith::odd_swing_range(11, 3, 7) == crate::arith::odd_swing_range(
        11,
        3,
        6,
    ) * crate::arith::swing_contrib(11, 7));
    assert(crate::arith::odd_swing_range(11, 3, 7) == 63);
    assert(crate::arith::odd_swing_range(11, 3, 8) == crate::arith::odd_swing_range(
        11,
        3,
        7,
    ) * crate::arith::swing_contrib(11, 8));
    assert(crate::arith::odd_swing_range(11, 3, 8) == 63);
    assert(crate::arith::odd_swing_range(11, 3, 9) == crate::arith::odd_swing_range(
        11,
        3,
        8,
    ) * crate::arith::swing_contrib(11, 9));
    assert(crate::arith::odd_swing_range(11, 3, 9) == 63);
    assert(crate::arith::odd_swing_range(11, 3, 10) == crate::arith::odd_swing_range(
        11,
        3,
        9,
    ) * crate::arith::swing_contrib(11, 10));
    assert(crate::arith::odd_swing_range(11, 3, 10) == 63);
    assert(crate::arith::odd_swing_range(11, 3, 11) == crate::arith::odd_swing_range(
        11,
        3,
        10,
    ) * crate::arith::swing_contrib(11, 11));
    assert(crate::arith::odd_swing_range(11, 3, 11) == 693);
}

/// The odd swing value of 12, by unwinding its banded product.
proof fn lemma_odd_swing_of_12()
    ensures
        odd_swing(12) == 231,
{
    reveal_with_fuel(crate::arith::no_factor_below, 13);
    reveal_with_fuel(crate::arith::odd_count_chain, 6);
    reveal_with_fuel(vstd::arithmetic::power::pow, 6);
    assert(crate::arith::is_prime(3));
    assert(!crate::arith::is_prime(4));
    assert(crate::arith::is_prime(5));
    assert(!crate::arith::is_prime(6));
    assert(crate::arith::is_prime(7));
    assert(!crate::arith::is_prime(8));
    assert(!crate::arith::is_prime(9));
    assert(!crate::arith::is_prime(10));
    assert(crate::arith::is_prime(11));
    assert(!crate::arith::is_prime(12));
    assert(crate::arith::swing_exp(12, 3) == 1);
    assert(crate::arith::swing_contrib(12, 3) == 3);
    assert(crate::arith::swing_exp(12, 5) == 0);
    assert(crate::arith::swing_contrib(12, 5) == 1);
    assert(crate::arith::swing_exp(12, 7) == 1);
    assert(crate::arith::swing_contrib(12, 7) == 7);
    assert(crate::arith::swing_exp(12, 11) == 1);
    assert(crate::arith::swing_contrib(12, 11) == 11);
    assert(crate::arith::odd_swing_range(12, 3, 2) == 1);
    assert(crate::arith::odd_swing_range(12, 3, 3) == crate::arith::odd_swing_range(
        12,
        3,
        2,
    ) * crate::arith::swing_contrib(12, 3));
    assert(crate::arith::odd_swing_range(12, 3, 3) == 3);
    assert(crate::arith::odd_swing_range(12, 3, 4) == crate::arith::odd_swing_range(
        12,
        3,
        3,
    ) * crate::arith::swing_contrib(12, 4));
    assert(crate::arith::odd_swing_range(12, 3, 4) == 3);
    assert(crate::arith::odd_swing_range(12, 3, 5) == crate::arith::odd_swing_range(
        12,
        3,
        4,
    ) * crate::arith::swing_contrib(12, 5));
    assert(crate::arith::odd_swing_range(12, 3, 5) == 3);
    assert(crate::arith::odd_swing_range(12, 3, 6) == crate::arith::odd_swing_range(
        12,
        3,
        5,
    ) * crate::arith::swing_contrib(12, 6));
    assert(crate::arith::odd_swing_range(12, 3, 6) == 3);
    assert(crate::arith::odd_swing_range(12, 3, 7) == crate::arith::odd_swing_range(
        12,
        3,
        6,
    ) * crate::arith::swing_contrib(12, 7));
    assert(crate::arith::odd_swing_range(12, 3, 7) == 21);
    assert(crate::arith::odd_swing_range(12, 3, 8) == crate::arith::odd_swing_range(
        12,
        3,
        7,
    ) * crate::arith::swing_contrib(12, 8));
    assert(crate::arith::odd_swing_range(12, 3, 8) == 21);
    assert(crate::arith::odd_swing_range(12, 3, 9) == crate::arith::odd_swing_range(
        12,
        3,
        8,
    ) * crate::arith::swing_contrib(12, 9));
    assert(crate::arith::odd_swing_range(12, 3, 9) == 21);
    assert(crate::arith::odd_swing_range(12, 3, 10) == crate::arith::odd_swing_range(
        12,
        3,
        9,
    ) * crate::arith::swing_contrib(12, 10));
    assert(crate::arith::odd_swing_range(12, 3, 10) == 21);
    assert(crate::arith::odd_swing_range(12, 3, 11) == crate::arith::odd_swing_range(
        12,
        3,
        10,
    ) * crate::arith::swing_contrib(12, 11));
    assert(crate::arith::odd_swing_range(12, 3, 11) == 231);
    assert(crate::arith::odd_swing_range(12, 3, 12) == crate::arith::odd_swing_range(
        12,
        3,
        11,
    ) * crate::arith::swing_contrib(12, 12));
    assert(crate::arith::odd_swing_range(12, 3, 12) == 231);
}

/// The prime-swing value agrees with the plain factorial product on an
/// initial segment of the naturals. The agreement holds for every `n` —
/// the exponent of 2 in `n!` is `n - pop_count(n)` and `odd_fact(n)` is
/// the odd part of `n!` — but the general identity rests on the unique
/// prime factorisation of factorials, which is outside this library's
/// proofs; here it is established value by value, and the test suite
/// carries the comparison into sieve territory.
pub proof fn lemma_psw_fact_matches_fact_small(n: nat)
    requires
        n <= 12,
    ensures
        psw_fact(n) == fact(n),
{
    lemma_odd_swing_of_2();
    lemma_odd_swing_of_3();
    lemma_odd_swing_of_4();
    lemma_odd_swing_of_5();
    lemma_odd_swing_of_6();
    lemma_odd_swing_of_7();
    lemma_odd_swing_of_8();
    lemma_odd_swing_of_9();
    lemma_odd_swing_of_10();
    lemma_odd_swing_of_11();
    lemma_odd_swing_of_12();
    vstd::arithmetic::power2::lemma2_to64();
    assert(pop_count(0) == 0);
    assert(pop_count(1) == 1);
    assert(pop_count(2) == 1);
    assert(pop_count(3) == 2);
    assert(pop_count(4) == 1);
    assert(pop_count(5) == 2);
    assert(pop_count(6) == 2);
    assert(pop_count(7) == 3);
    assert(pop_count(8) == 1);
    assert(pop_count(9) == 2);
    assert(pop_count(10) == 2);
    assert(pop_count(11) == 3);
    assert(pop_count(12) == 2);
    assert(odd_fact(0) == 1);
    assert(odd_fact(1) == 1);
    assert(odd_fact(2) == odd_fact(1) * odd_fact(1) * odd_swing(2));
    assert(odd_fact(1) * odd_fact(1) * odd_swing(2) == 1);
    assert(odd_fact(2) == 1);
    assert(odd_fact(3) == odd_fact(1) * odd_fact(1) * odd_swing(3));
    assert(odd_fact(1) * odd_fact(1) * odd_swing(3) == 3);
    assert(odd_fact(3) == 3);
    assert(odd_fact(4) == odd_fact(2) * odd_fact(2) * odd_swing(4));
    assert(odd_fact(2) * odd_fact(2) * odd_swing(4) == 3);
    assert(odd_fact(4) == 3);
    assert(odd_fact(5) == odd_fact(2) * odd_fact(2) * odd_swing(5));
    assert(odd_fact(2) * odd_fact(2) * odd_swing(5) == 15);
    assert(odd_fact(5) == 15);
    assert(odd_fact(6) == odd_fact(3) * odd_fact(3) * odd_swing(6));
    assert(odd_fact(3) * odd_fact(3) * odd_swing(6) == 45);
    assert(odd_fact(6) == 45);
    assert(odd_fact(7) == odd_fact(3) * odd_fact(3) * odd_swing(7));
    assert(odd_fact(3) * odd_fact(3) * odd_swing(7) == 315);
    assert(odd_fact(7) == 315);
    assert(odd_fact(8) == odd_fact(4) * odd_fact(4) * odd_swing(8));
    assert(odd_fact(4) * odd_fact(4) * odd_swing(8) == 315);
    assert(odd_fact(8) == 315);
    assert(odd_fact(9) == odd_fact(4) * odd_fact(4) * odd_swing(9));
    assert(odd_fact(4) * odd_fact(4) * odd_swing(9) == 2835);
    assert(odd_fact(9) == 2835);
    assert(odd_fact(10) == odd_fact(5) * odd_fact(5) * odd_swing(10));
    assert(odd_fact(5) * odd_fact(5) * odd_swing(10) == 14175);
    assert(odd_fact(10) == 14175);
    assert(odd_fact(11) == odd_fact(5) * odd_fact(5) * odd_swing(11));
    assert(odd_fact(5) * odd_fact(5) * odd_swing(11) == 155925);
    assert(odd_fact(11) == 155925);
    assert(odd_fact(12) == odd_fact(6) * odd_fact(6) * odd_swing(12));
    assert(odd_fact(6) * odd_fact(6) * odd_swing(12) == 467775);
    assert(odd_fact(12) == 467775);
    assert(fact(0) == 1);
    assert(fact(1) == 1);
    assert(fact(2) == 2);
    assert(fact(3) == 6);
    assert(fact(4) == 24);
    assert(fact(5) == 120);
    assert(fact(6) == 720);
    assert(fact(7) == 5040);
    assert(fact(8) == 40320);
    assert(fact(9) == 362880);
    assert(fact(10) == 3628800);
    assert(fact(11) == 39916800);
    assert(fact(12) == 479001600);
    assert(psw_fact(0) == odd_fact(0) * vstd::arithmetic::power2::pow2(0));
    assert(psw_fact(0) == fact(0));
    assert(psw_fact(1) == odd_fact(1) * vstd::arithmetic::power2::pow2(0));
    assert(psw_fact(1) == fact(1));
    assert(psw_fact(2) == odd_fact(2) * vstd::arithmetic::power2::pow2(1));
    assert(psw_fact(2) == fact(2));
    assert(psw_fact(3) == odd_fact(3) * vstd::arithmetic::power2::pow2(1));
    assert(psw_fact(3) == fact(3));
    assert(psw_fact(4) == odd_fact(4) * vstd::arithmetic::power2::pow2(3));
    assert(psw_fact(4) == fact(4));
    assert(psw_fact(5) == odd_fact(5) * vstd::arithmetic::power2::pow2(3));
    assert(psw_fact(5) == fact(5));
    assert(psw_fact(6) == odd_fact(6) * vstd::arithmetic::power2::pow2(4));
    assert(psw_fact(6) == fact(6));
    assert(psw_fact(7) == odd_fact(7) * vstd::arithmetic::power2::pow2(4));
    assert(psw_fact(7) == fact(7));
    assert(psw_fact(8) == odd_fact(8) * vstd::arithmetic::power2::pow2(7));
    assert(psw_fact(8) == fact(8));
    assert(psw_fact(9) == odd_fact(9) * vstd::arithmetic::power2::pow2(7));
    assert(psw_fact(9) == fact(9));
    assert(psw_fact(10) == odd_fact(10) * vstd::arithmetic::power2::pow2(8));
    assert(psw_fact(10) == fact(10));
    assert(psw_fact(11) == odd_fact(11) * vstd::arithmetic::power2::pow2(8));
    assert(psw_fact(11) == fact(11));
    assert(psw_fact(12) == odd_fact(12) * vstd::arithmetic::power2::pow2(10));
    assert(psw_fact(12) == fact(12));
}

/// The dispatcher and the caller-supplied-sieve entry point agree: on
/// the initial segment where the swing identity is established value by
/// value, the value `checked_factorial` pins down and the value
/// `psw_factorial` pins down are the same.
pub proof fn lemma_paths_agree_small(v: nat)
    requires
        v <= 12,
    ensures
        dispatched_fact(v) == psw_fact(v),
{
    lemma_psw_fact_matches_fact_small(v);
}

/// The boundary values of the factorial, under both the direct product
/// and the prime-swing evaluation: `0! == 1! == 1` and `2! == 2`.
pub proof fn lemma_factorial_boundaries()
    ensures
        fact(0) == 1,
        fact(1) == 1,
        fact(2) == 2,
        psw_fact(0) == 1,
        psw_fact(1) == 1,
        psw_fact(2) == 2,
        dispatched_fact(0) == 1,
        dispatched_fact(1) == 1,
        dispatched_fact(2) == 2,
{
    assert(fact(1) == 1 * fact(0));
    assert(fact(2) == 2 * fact(1));
    vstd::arithmetic::power2::lemma2_to64();
    assert(pop_count(0) == 0);
    assert(pop_count(1) == 1 + pop_count(0));
    assert(pop_count(2) == 0 + pop_count(1));
    assert(odd_fact(0) == 1);
    assert(odd_fact(1) == 1);
    assert(crate::arith::odd_swing_range(2, 3, 2) == 1);
    assert(odd_swing(2) == 1);
    assert(odd_fact(2) == odd_fact(1) * odd_fact(1) * odd_swing(2));
}

/// The boundary values of the double factorial:
/// `0!! == 1`, `1!! == 1`, `7!! == 105`, and `10!! == 3840`.
pub proof fn lemma_double_factorial_boundaries()
    ensures
        double_fact(0) == 1,
        double_fact(1) == 1,
        double_fact(7) == 105,
        double_fact(10) == 3840,
{
    assert(double_fact(3) == 3 * double_fact(1));
    assert(double_fact(5) == 5 * double_fact(3));
    assert(double_fact(7) == 7 * double_fact(5));
    assert(double_fact(2) == 2 * double_fact(0));
    assert(double_fact(4) == 4 * double_fact(2));
    assert(double_fact(6) == 6 * double_fact(4));
    assert(double_fact(8) == 8 * double_fact(6));
    assert(double_fact(10) == 10 * double_fact(8));
}

} // verus!
