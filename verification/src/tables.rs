use vstd::prelude::*;
use crate::arith::{fact, lemma_fact_increases, lemma_fact_at_least_n, lemma_fact_pos};
use crate::operand::Operand;

verus! {

/// The number of entries in the small-factorial table: every `n` whose
/// exact factorial fits in 128 bits.
pub const FACT_TABLE_LEN: usize = 35;

/// The factorials of `0` through `34`, as literal data: entry `i` is `i!`.
/// Looking one up costs O(1); the values are proved equal to `fact`.
pub fn small_factorial_at(i: usize) -> (r: u128)
    requires
        i < FACT_TABLE_LEN,
    ensures
        r as nat == fact(i as nat),
{
    proof {
        lemma_small_factorial_values();
    }
    match i {
        0 => 1,
        1 => 1,
        2 => 2,
        3 => 6,
        4 => 24,
        5 => 120,
        6 => 720,
        7 => 5040,
        8 => 40320,
        9 => 362880,
        10 => 3628800,
        11 => 39916800,
        12 => 479001600,
        13 => 6227020800,
        14 => 87178291200,
        15 => 1307674368000,
        16 => 20922789888000,
        17 => 355687428096000,
        18 => 6402373705728000,
        19 => 121645100408832000,
        20 => 2432902008176640000,
        21 => 51090942171709440000,
        22 => 1124000727777607680000,
        23 => 25852016738884976640000,
        24 => 620448401733239439360000,
        25 => 15511210043330985984000000,
        26 => 403291461126605635584000000,
        27 => 10888869450418352160768000000,
        28 => 304888344611713860501504000000,
        29 => 8841761993739701954543616000000,
        30 => 265252859812191058636308480000000,
        31 => 8222838654177922817725562880000000,
        32 => 263130836933693530167218012160000000,
        33 => 8683317618811886495518194401280000000,
        _ => 295232799039604140847618609643520000000,
    }
}

/// The exact value of each tabulated factorial.
proof fn lemma_small_factorial_values()
    ensures
        fact(0) == 1,
        fact(1) == 1,
        fact(2) == 2,
        fact(3) == 6,
        fact(4) == 24,
        fact(5) == 120,
        fact(6) == 720,
        fact(7) == 5040,
        fact(8) == 40320,
        fact(9) == 362880,
        fact(10) == 3628800,
        fact(11) == 39916800,
        fact(12) == 479001600,
        fact(13) == 6227020800,
        fact(14) == 87178291200,
        fact(15) == 1307674368000,
        fact(16) == 20922789888000,
        fact(17) == 355687428096000,
        fact(18) == 6402373705728000,
        fact(19) == 121645100408832000,
        fact(20) == 2432902008176640000,
        fact(21) == 51090942171709440000,
        fact(22) == 1124000727777607680000,
        fact(23) == 25852016738884976640000,
        fact(24) == 620448401733239439360000,
        fact(25) == 15511210043330985984000000,
        fact(26) == 403291461126605635584000000,
        fact(27) == 10888869450418352160768000000,
        fact(28) == 304888344611713860501504000000,
        fact(29) == 8841761993739701954543616000000,
        fact(30) == 265252859812191058636308480000000,
        fact(31) == 8222838654177922817725562880000000,
        fact(32) == 263130836933693530167218012160000000,
        fact(33) == 8683317618811886495518194401280000000,
        fact(34) == 295232799039604140847618609643520000000,
{
    assert(fact(0) == 1);
    assert(fact(1) == 1);
    assert(fact(2) == 2);
    assert(fact(3) == 6);
    assert(fact(4) == 24);
    assert(fact(5) == 120);
    assert(fact(6) == 720);
    assert(fact(7) == 5040);
    assert(fact(8) == 40320);
    assert(fact(9) == 362880);
    assert(fact(10) == 3628800);
    assert(fact(11) == 39916800);
    assert(fact(12) == 479001600);
    assert(fact(13) == 6227020800);
    assert(fact(14) == 87178291200);
    assert(fact(15) == 1307674368000);
    assert(fact(16) == 20922789888000);
    assert(fact(17) == 355687428096000);
    assert(fact(18) == 6402373705728000);
    assert(fact(19) == 121645100408832000);
    assert(fact(20) == 2432902008176640000);
    assert(fact(21) == 51090942171709440000);
    assert(fact(22) == 1124000727777607680000);
    assert(fact(23) == 25852016738884976640000);
    assert(fact(24) == 620448401733239439360000);
    assert(fact(25) == 15511210043330985984000000);
    assert(fact(26) == 403291461126605635584000000);
    assert(fact(27) == 10888869450418352160768000000);
    assert(fact(28) == 304888344611713860501504000000);
    assert(fact(29) == 8841761993739701954543616000000);
    assert(fact(30) == 265252859812191058636308480000000);
    assert(fact(31) == 8222838654177922817725562880000000);
    assert(fact(32) == 263130836933693530167218012160000000);
    assert(fact(33) == 8683317618811886495518194401280000000);
    assert(fact(34) == 295232799039604140847618609643520000000);
}

/// `n!` by plain iterative multiplication, starting from the largest
/// tabulated factorial: the dispatcher's middle strategy, which avoids
/// building a sieve for moderate `n`.
#[verifier::loop_isolation(false)]
pub(crate) fn linear_factorial<T: Operand>(n: usize) -> (r: Option<T>)
    requires
        FACT_TABLE_LEN - 1 <= n,
    ensures
        r matches Some(v) ==> v.val() == fact(n as nat),
        r is Some <==> T::representable(fact(n as nat)),
{
    proof {
        lemma_fact_increases((FACT_TABLE_LEN - 1) as nat, n as nat);
    }
    let mut acc = match T::from_wide(small_factorial_at(FACT_TABLE_LEN - 1)) {
        Some(a) => a,
        None => {
            proof {
                if T::representable(fact(n as nat)) {
                    T::lemma_representable_down(fact((FACT_TABLE_LEN - 1) as nat), fact(n as nat));
                }
            }
            return None;
        }
    };
    let mut j: usize = FACT_TABLE_LEN - 1;
    while j < n
        invariant
            FACT_TABLE_LEN - 1 <= j <= n,
            acc.val() == fact(j as nat),
        decreases n - j,
    {
        proof {
            lemma_fact_increases((j + 1) as nat, n as nat);
            lemma_fact_at_least_n((j + 1) as nat);
            lemma_fact_pos(j as nat);
            vstd::arithmetic::mul::lemma_mul_is_commutative((j + 1) as int, fact(j as nat) as int);
        }
        let tj = match T::from_index(j + 1) {
            Some(t) => t,
            None => {
                proof {
                    if T::representable(fact(n as nat)) {
                        T::lemma_representable_down((j + 1) as nat, fact(n as nat));
                    }
                }
                return None;
            }
        };
        acc = match acc.checked_mul_by(&tj) {
            Some(a) => a,
            None => {
                proof {
                    if T::representable(fact(n as nat)) {
                        T::lemma_representable_down(fact((j + 1) as nat), fact(n as nat));
                    }
                }
                return None;
            }
        };
        j = j + 1;
    }
    proof {
        acc.lemma_val_representable();
    }
    Some(acc)
}

} // verus!
