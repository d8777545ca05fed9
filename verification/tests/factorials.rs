use factorial::bignum::BigNat;
use factorial::operand::Operand;
use factorial::{DoubleFactorial, Factorial};
use primal_sieve::Sieve;

fn big(n: usize) -> BigNat {
    <BigNat as Operand>::from_index(n).unwrap()
}

#[test]
fn zero_fact_is_one() {
    assert_eq!(0u32.factorial(), 1u32);
}

#[test]
fn one_fact_is_one() {
    assert_eq!(1u32.factorial(), 1u32);
}

#[test]
fn two_fact_is_two() {
    assert_eq!(2u32.factorial(), 2u32);
}

#[test]
fn ten_fact() {
    assert_eq!(10u32.factorial(), 3_628_800);
}

#[test]
fn one_hundred_fact() {
    let sieve = Sieve::new(100);
    assert_eq!(big(100).factorial(), big(100).psw_factorial(&sieve).unwrap());
}

#[test]
fn too_large_safe() {
    assert_eq!(100u32.checked_factorial(), None)
}

#[test]
fn biguint_support() {
    assert_eq!(big(2).factorial(), big(2));
    assert_eq!(big(2).checked_factorial(), Some(big(2)));
}

#[test]
fn zero_double_fact_is_one() {
    assert_eq!(0u32.double_factorial(), 1u32)
}

#[test]
fn one_double_fact_is_two() {
    assert_eq!(1u32.double_factorial(), 1u32)
}

#[test]
fn two_double_fact_is_two() {
    assert_eq!(2u32.double_factorial(), 2u32)
}

#[test]
fn ten_double_fact() {
    assert_eq!(10u32.double_factorial(), 3840u32);
}

#[test]
fn seven_double_fact() {
    assert_eq!(7u32.double_factorial(), 105u32);
}

#[test]
fn too_large_safe_double_fact() {
    assert_eq!(100u32.checked_double_factorial(), None)
}

#[test]
fn factorials_range() {
    for n in 2..=34u128 {
        let p = n.factorial();
        let mut p_prime = 1u128;
        for i in 2..=n {
            p_prime *= i;
        }
        assert_eq!(p_prime, p, "mismatch for iteration {n}");
    }
}

#[test]
fn psw_factorials_range_bigint() {
    let sieve = Sieve::new(2000);
    let mut p_prime = big(1);
    for n in 2..=2000usize {
        p_prime = p_prime.checked_mul_by(&big(n)).unwrap();
        let p = big(n).psw_factorial(&sieve).unwrap();
        assert_eq!(p_prime, p, "mismatch for iteration {n}");
    }
}

#[test]
fn crazy_big_factorial() {
    let sieve = Sieve::new(8000);
    let n = 8000usize;
    let p = big(n).psw_factorial(&sieve).unwrap();
    let mut p_prime = big(1);
    for i in 2..=n {
        p_prime = p_prime.checked_mul_by(&big(i)).unwrap();
    }
    assert_eq!(p_prime, p, "mismatch for iteration {n}");
}

#[test]
fn factorials_across_all_strategies() {
    // Crosses the table boundary and the linear/sieve crossover: the
    // dispatcher must match the plain product in every band.
    let mut p_prime = big(1);
    for n in 1..=150usize {
        p_prime = p_prime.checked_mul_by(&big(n)).unwrap();
        assert_eq!(big(n).factorial(), p_prime, "mismatch for iteration {n}");
    }
}

#[test]
fn psw_matches_checked_small() {
    // The caller-supplied-sieve path must agree with the dispatcher for
    // every n the sieve covers, including values inside the table.
    let sieve = Sieve::new(200);
    for n in 0..=200usize {
        assert_eq!(
            big(n).psw_factorial(&sieve),
            big(n).checked_factorial(),
            "mismatch for iteration {n}"
        );
    }
}

#[test]
fn repeated_calls_identical() {
    // Determinism: one sieve, repeated calls, identical results.
    let sieve = Sieve::new(500);
    let first = big(500).psw_factorial(&sieve).unwrap();
    let second = big(500).psw_factorial(&sieve).unwrap();
    let third = big(500).psw_factorial(&sieve).unwrap();
    assert_eq!(first, second);
    assert_eq!(second, third);
}

#[test]
fn shared_sieve_for_two_operands() {
    // One sieve sized to the larger operand serves both.
    let sieve = Sieve::new(180);
    assert_eq!(big(50).psw_factorial(&sieve).unwrap(), big(50).factorial());
    assert_eq!(big(180).psw_factorial(&sieve).unwrap(), big(180).factorial());
}

#[test]
fn overflow_boundary_u32() {
    // 12! is the largest factorial a 32-bit operand can hold.
    assert_eq!(12u32.checked_factorial(), Some(479_001_600));
    assert_eq!(13u32.checked_factorial(), None);
}

#[test]
fn overflow_boundary_u64() {
    // 20! is the largest factorial a 64-bit operand can hold.
    assert_eq!(20u64.checked_factorial(), Some(2_432_902_008_176_640_000));
    assert_eq!(21u64.checked_factorial(), None);
}

#[test]
fn overflow_boundary_u128() {
    // 34! is the largest factorial a 128-bit operand can hold; 35 falls
    // to the linear band and must still report overflow.
    assert_eq!(
        34u128.checked_factorial(),
        Some(295_232_799_039_604_140_847_618_609_643_520_000_000)
    );
    assert_eq!(35u128.checked_factorial(), None);
    assert_eq!(200u128.checked_factorial(), None);
}

#[test]
fn double_fact_bignum() {
    // 33!! == 6332659870762850625, which no longer fits in 32 bits.
    assert_eq!(33u64.double_factorial(), 6_332_659_870_762_850_625);
    let b = big(33).checked_double_factorial().unwrap();
    let mut expected = big(1);
    let mut i = 33usize;
    while i >= 2 {
        expected = expected.checked_mul_by(&big(i)).unwrap();
        i -= 2;
    }
    expected = expected.checked_mul_by(&big(1)).unwrap();
    assert_eq!(b, expected);
}

#[test]
fn double_fact_overflow_boundary_u32() {
    // 20!! fits a 32-bit operand, 21!! does not.
    assert_eq!(20u32.checked_double_factorial(), Some(3_715_891_200));
    assert_eq!(21u32.checked_double_factorial(), None);
}
