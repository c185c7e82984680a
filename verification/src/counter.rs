//! Counters that stop at their maximum, and when to report them.

use vstd::prelude::*;

verus! {

/// `n`, held at the largest value a counter can show.
pub open spec fn capped(n: int) -> u64 {
    if n > u64::MAX {
        u64::MAX
    } else {
        n as u64
    }
}

/// The sum of two counters.
pub fn sum(a: u64, b: u64) -> (total: u64)
    ensures
        total == capped(a + b),
{
    if b > u64::MAX - a {
        u64::MAX
    } else {
        a + b
    }
}

/// The product of two counters.
pub fn product(a: u64, b: u64) -> (total: u64)
    ensures
        total == capped(a * b),
{
    proof {
        assert(0 <= a * b <= 0xffff_ffff_ffff_ffff * 0xffff_ffff_ffff_ffff) by (nonlinear_arith)
            requires
                0 <= a <= 0xffff_ffff_ffff_ffff,
                0 <= b <= 0xffff_ffff_ffff_ffff,
        ;
    }
    let wide: u128 = a as u128 * b as u128;
    if wide > u64::MAX as u128 {
        u64::MAX
    } else {
        wide as u64
    }
}

/// The powers of two: one, and the doubles of powers of two.
pub open spec fn is_power_of_two(n: nat) -> bool
    decreases n,
{
    if n <= 1 {
        n == 1
    } else {
        n % 2 == 0 && is_power_of_two(n / 2)
    }
}

/// Whether `n` is a power of two.
///
/// Reporting a repeated event only then keeps the log informative without
/// letting it grow with the event.
pub fn power_of_two(n: u64) -> (yes: bool)
    ensures
        yes == is_power_of_two(n as nat),
{
    let mut rest: u64 = n;
    while rest > 1
        invariant
            is_power_of_two(n as nat) == is_power_of_two(rest as nat),
        decreases rest,
    {
        if rest % 2 != 0 {
            return false;
        }
        rest = rest / 2;
    }
    rest == 1
}

/// A counter shows every number that it can hold as it is, and its maximum for
/// any other.
pub proof fn counters_stop_at_their_maximum(n: int)
    requires
        n >= 0,
    ensures
        n <= 0xffff_ffff_ffff_ffff ==> capped(n) == n,
        n > 0xffff_ffff_ffff_ffff ==> capped(n) == 0xffff_ffff_ffff_ffff,
{
}

/// The numbers at which a repeated event is reported are exactly the powers of
/// two.
pub proof fn reports_come_at_the_powers_of_two(n: nat)
    ensures
        is_power_of_two(n) <==> exists|k: nat| n == #[trigger] vstd::arithmetic::power2::pow2(k),
    decreases n,
{
    vstd::arithmetic::power2::lemma2_to64();
    if n <= 1 {
        if n == 0 {
            assert forall|k: nat| n != #[trigger] vstd::arithmetic::power2::pow2(k) by {
                vstd::arithmetic::power2::lemma_pow2_pos(k);
            }
        }
    } else {
        reports_come_at_the_powers_of_two(n / 2);
        if n % 2 == 0 && is_power_of_two(n / 2) {
            let k = choose|k: nat| n / 2 == #[trigger] vstd::arithmetic::power2::pow2(k);
            vstd::arithmetic::power2::lemma_pow2_unfold(k + 1);
            assert(n == vstd::arithmetic::power2::pow2(k + 1));
        }
        if exists|k: nat| n == #[trigger] vstd::arithmetic::power2::pow2(k) {
            let k = choose|k: nat| n == #[trigger] vstd::arithmetic::power2::pow2(k);
            vstd::arithmetic::power2::lemma_pow2_unfold(k);
            assert(n / 2 == vstd::arithmetic::power2::pow2((k - 1) as nat));
        }
    }
}

} // verus!
