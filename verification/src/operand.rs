use vstd::prelude::*;
use vstd::arithmetic::power2::pow2;

verus! {

/// The numeric capability that the factorial engine is generic over: an
/// unsigned integer value with zero/one, ordering, checked multiplication,
/// and lossless conversion to and from machine-sized indices.
///
/// `val` is the mathematical value an operand holds, and `representable`
/// says which mathematical values the operand type can hold at all: a
/// bounded range for fixed-width integers, everything for an
/// arbitrary-precision type.
pub trait Operand: Sized {
    /// The mathematical value that this operand holds.
    spec fn val(&self) -> nat;

    /// Whether the operand type can hold the value `v`.
    spec fn representable(v: nat) -> bool;

    /// Every operand holds a representable value.
    proof fn lemma_val_representable(&self)
        ensures
            Self::representable(self.val()),
    ;

    /// Representability is downward closed: a type that can hold `w` can
    /// hold anything below it.
    proof fn lemma_representable_down(v: nat, w: nat)
        requires
            v <= w,
            Self::representable(w),
        ensures
            Self::representable(v),
    ;

    /// The operand holding 1.
    fn one() -> (r: Self)
        ensures
            r.val() == 1,
    ;

    /// Converts a machine-sized index into an operand, if it fits.
    fn from_index(n: usize) -> (r: Option<Self>)
        ensures
            r matches Some(v) ==> v.val() == n,
            r is Some <==> Self::representable(n as nat),
    ;

    /// Converts a table entry into an operand, if it fits.
    fn from_wide(v: u128) -> (r: Option<Self>)
        ensures
            r matches Some(w) ==> w.val() == v,
            r is Some <==> Self::representable(v as nat),
    ;

    /// Converts this operand back into a machine-sized index, if it fits.
    fn to_index(&self) -> (r: Option<usize>)
        ensures
            r matches Some(m) ==> m == self.val(),
            r is Some <==> self.val() <= usize::MAX,
    ;

    /// Compares two operands.
    fn le(&self, other: &Self) -> (r: bool)
        ensures
            r <==> self.val() <= other.val(),
    ;

    /// Whether this operand holds an even value.
    fn is_even(&self) -> (r: bool)
        ensures
            r <==> self.val() % 2 == 0,
    ;

    /// Checked multiplication: the exact product, or `None` exactly when
    /// the product does not fit.
    fn checked_mul_by(&self, other: &Self) -> (r: Option<Self>)
        ensures
            r matches Some(v) ==> v.val() == self.val() * other.val(),
            r is Some <==> Self::representable(self.val() * other.val()),
    ;

    /// Checked addition: the exact sum, or `None` exactly when the sum
    /// does not fit.
    fn checked_add_to(&self, other: &Self) -> (r: Option<Self>)
        ensures
            r matches Some(v) ==> v.val() == self.val() + other.val(),
            r is Some <==> Self::representable((self.val() + other.val()) as nat),
    ;

    /// Checked multiplication by `2^e`.
    fn checked_mul_pow2(&self, e: usize) -> (r: Option<Self>)
        ensures
            r matches Some(v) ==> v.val() == self.val() * pow2(e as nat),
            r is Some <==> Self::representable(self.val() * pow2(e as nat)),
    ;
}

impl Operand for u32 {
    open spec fn val(&self) -> nat {
        *self as nat
    }

    open spec fn representable(v: nat) -> bool {
        v <= u32::MAX
    }

    proof fn lemma_val_representable(&self) {
    }

    proof fn lemma_representable_down(v: nat, w: nat) {
    }

    fn one() -> (r: Self) {
        1
    }

    fn from_index(n: usize) -> (r: Option<Self>) {
        if n <= u32::MAX as usize {
            Some(n as u32)
        } else {
            None
        }
    }

    fn from_wide(v: u128) -> (r: Option<Self>) {
        if v <= u32::MAX as u128 {
            Some(v as u32)
        } else {
            None
        }
    }

    fn to_index(&self) -> (r: Option<usize>) {
        Some(*self as usize)
    }

    fn le(&self, other: &Self) -> (r: bool) {
        *self <= *other
    }

    fn is_even(&self) -> (r: bool) {
        *self % 2 == 0
    }

    fn checked_mul_by(&self, other: &Self) -> (r: Option<Self>) {
        self.checked_mul(*other)
    }

    fn checked_add_to(&self, other: &Self) -> (r: Option<Self>) {
        self.checked_add(*other)
    }

    fn checked_mul_pow2(&self, e: usize) -> (r: Option<Self>) {
        let mut acc = *self;
        let mut k: usize = 0;
        proof {
            vstd::arithmetic::power2::lemma2_to64();
        }
        while k < e
            invariant
                k <= e,
                acc as nat == *self as nat * pow2(k as nat),
            decreases e - k,
        {
            proof {
                lemma_mul_pow2_step(*self as nat, k as nat, e as nat, acc as nat);
            }
            match acc.checked_mul(2) {
                Some(doubled) => {
                    acc = doubled;
                    k = k + 1;
                }
                None => {
                    return None;
                }
            }
        }
        Some(acc)
    }
}

impl Operand for u64 {
    open spec fn val(&self) -> nat {
        *self as nat
    }

    open spec fn representable(v: nat) -> bool {
        v <= u64::MAX
    }

    proof fn lemma_val_representable(&self) {
    }

    proof fn lemma_representable_down(v: nat, w: nat) {
    }

    fn one() -> (r: Self) {
        1
    }

    fn from_index(n: usize) -> (r: Option<Self>) {
        Some(n as u64)
    }

    fn from_wide(v: u128) -> (r: Option<Self>) {
        if v <= u64::MAX as u128 {
            Some(v as u64)
        } else {
            None
        }
    }

    fn to_index(&self) -> (r: Option<usize>) {
        if *self <= usize::MAX as u64 {
            Some(*self as usize)
        } else {
            None
        }
    }

    fn le(&self, other: &Self) -> (r: bool) {
        *self <= *other
    }

    fn is_even(&self) -> (r: bool) {
        *self % 2 == 0
    }

    fn checked_mul_by(&self, other: &Self) -> (r: Option<Self>) {
        self.checked_mul(*other)
    }

    fn checked_add_to(&self, other: &Self) -> (r: Option<Self>) {
        self.checked_add(*other)
    }

    fn checked_mul_pow2(&self, e: usize) -> (r: Option<Self>) {
        let mut acc = *self;
        let mut k: usize = 0;
        proof {
            vstd::arithmetic::power2::lemma2_to64();
        }
        while k < e
            invariant
                k <= e,
                acc as nat == *self as nat * pow2(k as nat),
            decreases e - k,
        {
            proof {
                lemma_mul_pow2_step(*self as nat, k as nat, e as nat, acc as nat);
            }
            match acc.checked_mul(2) {
                Some(doubled) => {
                    acc = doubled;
                    k = k + 1;
                }
                None => {
                    return None;
                }
            }
        }
        Some(acc)
    }
}

impl Operand for u128 {
    open spec fn val(&self) -> nat {
        *self as nat
    }

    open spec fn representable(v: nat) -> bool {
        v <= u128::MAX
    }

    proof fn lemma_val_representable(&self) {
    }

    proof fn lemma_representable_down(v: nat, w: nat) {
    }

    fn one() -> (r: Self) {
        1
    }

    fn from_index(n: usize) -> (r: Option<Self>) {
        Some(n as u128)
    }

    fn from_wide(v: u128) -> (r: Option<Self>) {
        Some(v)
    }

    fn to_index(&self) -> (r: Option<usize>) {
        if *self <= usize::MAX as u128 {
            Some(*self as usize)
        } else {
            None
        }
    }

    fn le(&self, other: &Self) -> (r: bool) {
        *self <= *other
    }

    fn is_even(&self) -> (r: bool) {
        *self % 2 == 0
    }

    fn checked_mul_by(&self, other: &Self) -> (r: Option<Self>) {
        self.checked_mul(*other)
    }

    fn checked_add_to(&self, other: &Self) -> (r: Option<Self>) {
        self.checked_add(*other)
    }

    fn checked_mul_pow2(&self, e: usize) -> (r: Option<Self>) {
        let mut acc = *self;
        let mut k: usize = 0;
        proof {
            vstd::arithmetic::power2::lemma2_to64();
        }
        while k < e
            invariant
                k <= e,
                acc as nat == *self as nat * pow2(k as nat),
            decreases e - k,
        {
            proof {
                lemma_mul_pow2_step(*self as nat, k as nat, e as nat, acc as nat);
            }
            match acc.checked_mul(2) {
                Some(doubled) => {
                    acc = doubled;
                    k = k + 1;
                }
                None => {
                    return None;
                }
            }
        }
        Some(acc)
    }
}

/// One doubling step of multiplication by a power of two: relates
/// `v * 2^k` doubled to `v * 2^(k+1)`, and a failed doubling to the
/// unrepresentability of the full product `v * 2^e`.
proof fn lemma_mul_pow2_step(v: nat, k: nat, e: nat, acc: nat)
    requires
        k < e,
        acc == v * pow2(k),
    ensures
        acc * 2 == v * pow2((k + 1) as nat),
        v * pow2((k + 1) as nat) <= v * pow2(e),
{
    vstd::arithmetic::power2::lemma_pow2_unfold((k + 1) as nat);
    vstd::arithmetic::mul::lemma_mul_is_associative(v as int, pow2(k) as int, 2);
    vstd::arithmetic::mul::lemma_mul_is_commutative(v as int, 2 * pow2(k) as int);
    if k + 1 < e {
        vstd::arithmetic::power2::lemma_pow2_strictly_increases((k + 1) as nat, e);
    }
    if v > 0 {
        vstd::arithmetic::mul::lemma_mul_left_inequality(
            v as int,
            pow2((k + 1) as nat) as int,
            pow2(e) as int,
        );
    }
}

} // verus!
