//! Utility functions.
use vstd::arithmetic::div_mod::{
    lemma_fundamental_div_mod, lemma_mod_bound, lemma_mod_multiples_basic,
};
use vstd::arithmetic::power2::{lemma2_to64, lemma_pow2_pos, lemma_pow2_unfold, pow2};
use vstd::bits::{lemma_u64_low_bits_mask_is_mod, low_bits_mask};
use vstd::prelude::*;

verus! {

pub open spec fn power_of_two(x: int) -> bool {
    exists|n: nat| x == #[trigger] pow2(n)
}

/// The least multiple of `b` that is not below `a`.
pub open spec fn round_up(a: int, b: int) -> int {
    ((a + b - 1) / b) * b
}

pub open spec fn max(a: int, b: int) -> int {
    if a >= b {
        a
    } else {
        b
    }
}

pub proof fn lemma_power_of_two_pos(x: int)
    requires
        power_of_two(x),
    ensures
        x >= 1,
{
    let n = choose|n: nat| x == #[trigger] pow2(n);
    lemma_pow2_pos(n);
}

proof fn lemma_mask_is_power_of_two(x: u64)
    requires
        x != 0,
        x & ((x - 1) as u64) == 0,
    ensures
        power_of_two(x as int),
    decreases x,
{
    if x == 1 {
        lemma2_to64();
        assert(pow2(0) == 1);
    } else {
        assert(x % 2 == 0 && (x / 2) != 0 && (x / 2) & (((x / 2) - 1) as u64) == 0)
            by (bit_vector)
            requires
                x > 1,
                x & ((x - 1) as u64) == 0,
        ;
        lemma_mask_is_power_of_two(x / 2);
        let n = choose|n: nat| x / 2 == #[trigger] pow2(n);
        lemma_pow2_unfold(n + 1);
        assert(x == pow2(n + 1));
    }
}

proof fn lemma_power_of_two_is_mask(x: u64, n: nat)
    requires
        x == pow2(n),
    ensures
        x != 0,
        x & ((x - 1) as u64) == 0,
    decreases n,
{
    if n == 0 {
        lemma2_to64();
        assert(1u64 & (1u64 - 1) as u64 == 0) by (bit_vector);
    } else {
        lemma_pow2_unfold(n);
        let y = pow2((n - 1) as nat) as u64;
        lemma_power_of_two_is_mask(y, (n - 1) as nat);
        assert(x == 2 * y);
        assert(x & ((x - 1) as u64) == 0) by (bit_vector)
            requires
                x == 2 * y,
                y != 0,
                y & ((y - 1) as u64) == 0,
        ;
    }
}

/// Whether `x` is a power of two.
pub fn is_power_of_two(x: u64) -> (r: bool)
    ensures
        r == power_of_two(x as int),
{
    proof {
        if x != 0 && x & ((x - 1) as u64) == 0 {
            lemma_mask_is_power_of_two(x);
        }
        if power_of_two(x as int) {
            let n = choose|n: nat| x as int == #[trigger] pow2(n);
            lemma_power_of_two_is_mask(x, n);
        }
    }
    x != 0 && x & (x - 1) == 0
}

/// `round_up` is what its name says, for any step.
pub proof fn law_round_up(a: int, b: int)
    requires
        b >= 1,
    ensures
        round_up(a, b) % b == 0,
        a <= round_up(a, b) < a + b,
        forall|m: int| a <= m && #[trigger] (m % b) == 0 ==> round_up(a, b) <= m,
        a % b == 0 ==> round_up(a, b) == a,
{
    let q = (a + b - 1) / b;
    lemma_fundamental_div_mod(a + b - 1, b);
    lemma_mod_bound(a + b - 1, b);
    lemma_mod_multiples_basic(q, b);
    assert(b * q == q * b) by (nonlinear_arith);
    assert forall|m: int| a <= m && #[trigger] (m % b) == 0 implies round_up(a, b) <= m by {
        lemma_fundamental_div_mod(m, b);
        let k = m / b;
        if q > k {
            assert(q * b >= (k + 1) * b) by (nonlinear_arith)
                requires
                    q >= k + 1,
                    b >= 1,
            ;
            assert((k + 1) * b == b * k + b) by (nonlinear_arith);
        } else {
            assert(q * b <= b * k) by (nonlinear_arith)
                requires
                    q <= k,
                    b >= 1,
            ;
        }
    }
}

/// Clearing the low bits of `a + b - 1` rounds `a` up, for `b` a power of two.
pub proof fn lemma_align_mask(a: u64, b: u64)
    requires
        power_of_two(b as int),
        a + b - 1 <= u64::MAX,
    ensures
        ((a + b - 1) as u64) & !((b - 1) as u64) == round_up(a as int, b as int),
{
    lemma_power_of_two_pos(b as int);
    let x = (a + b - 1) as u64;
    lemma_mask_down(x, b);
    lemma_fundamental_div_mod(x as int, b as int);
    assert(b * (x as int / b as int) == (x as int / b as int) * b) by (nonlinear_arith);
}

/// Clearing the low bits of `x` rounds it down, for `b` a power of two.
pub proof fn lemma_mask_down(x: u64, b: u64)
    requires
        power_of_two(b as int),
    ensures
        x & !((b - 1) as u64) == x - x % b,
        (x & !((b - 1) as u64)) % b == 0,
        x & ((b - 1) as u64) == x % b,
{
    let n = choose|n: nat| b as int == #[trigger] pow2(n);
    let m = (b - 1) as u64;
    lemma_pow2_pos(n);
    assert(n < 64) by {
        if n >= 64 {
            lemma_pow2_ge(n, 64);
            lemma2_to64();
        }
    }
    lemma_u64_low_bits_mask_is_mod(x, n);
    assert(low_bits_mask(n) == m);
    assert(x & m <= x && x & !m == x - (x & m)) by (bit_vector);
    lemma_fundamental_div_mod(x as int, b as int);
    let q = x as int / b as int;
    assert(x - x % b == q * b) by {
        assert(b * q == q * b) by (nonlinear_arith);
    }
    lemma_mod_multiples_basic(q, b as int);
}

proof fn lemma_pow2_ge(n: nat, k: nat)
    requires
        n >= k,
    ensures
        pow2(n) >= pow2(k),
    decreases n - k,
{
    if n > k {
        lemma_pow2_ge((n - 1) as nat, k);
        lemma_pow2_unfold(n);
    }
}

/// The powers of two that the driver aligns to.
pub proof fn lemma_powers_of_two()
    ensures
        power_of_two(1),
        power_of_two(2),
        power_of_two(4),
        power_of_two(8),
        power_of_two(16),
        power_of_two(32),
        power_of_two(64),
        power_of_two(0x80),
        power_of_two(0x1000),
        power_of_two(0x4000),
        power_of_two(0x8000),
{
    lemma2_to64();
    assert(1 == pow2(0));
    assert(2 == pow2(1));
    assert(4 == pow2(2));
    assert(8 == pow2(3));
    assert(16 == pow2(4));
    assert(32 == pow2(5));
    assert(64 == pow2(6));
    assert(0x80 == pow2(7));
    assert(0x1000 == pow2(12));
    assert(0x4000 == pow2(14));
    assert(0x8000 == pow2(15));
}

/// Rounds `a` up to a multiple of `b`, a power of two. For another `b` the result has
/// no such meaning.
pub fn align(a: u64, b: u64) -> (r: u64)
    requires
        b >= 1,
        a + b <= u64::MAX,
    ensures
        r == ((a + b - 1) as u64) & !((b - 1) as u64),
        power_of_two(b as int) ==> r == round_up(a as int, b as int),
{
    proof {
        if power_of_two(b as int) {
            lemma_align_mask(a, b);
        }
    }
    (a + b - 1) & !(b - 1)
}

/// `align` for 32-bit numbers.
pub fn align_u32(a: u32, b: u32) -> (r: u32)
    requires
        b >= 1,
        a + b <= u32::MAX,
    ensures
        r == ((a + b - 1) as u32) & !((b - 1) as u32),
        power_of_two(b as int) ==> r == round_up(a as int, b as int),
{
    proof {
        let x = (a + b - 1) as u32;
        let m = (b - 1) as u32;
        assert((x & !m) as u64 == (x as u64) & !(m as u64)) by (bit_vector);
        if power_of_two(b as int) {
            lemma_align_mask(a as u64, b as u64);
        }
    }
    (a + b - 1) & !(b - 1)
}

pub fn max_u64(a: u64, b: u64) -> (r: u64)
    ensures
        r == max(a as int, b as int),
{
    if a >= b {
        a
    } else {
        b
    }
}

/// The low half of a number.
pub open spec fn low32(x: u64) -> u32 {
    (x % 0x1_0000_0000) as u32
}

pub fn low_half(x: u64) -> (r: u32)
    ensures
        r == low32(x),
{
    assert(x as u32 == x % 0x1_0000_0000) by (bit_vector);
    x as u32
}

/// Aligning gives the least multiple that is not smaller, for a power of two, in either
/// width.
pub proof fn law_align_is_least(a: u64, b: u64, r: u64, c: u32, d: u32, s: u32, m: int)
    requires
        a + b <= u64::MAX,
        c + d <= u32::MAX,
        power_of_two(b as int),
        power_of_two(d as int),
        call_ensures(align, (a, b), r),
        call_ensures(align_u32, (c, d), s),
    ensures
        r as int % b as int == 0,
        a <= r < a + b,
        s as int % d as int == 0,
        c <= s < c + d,
        a <= m && m % b as int == 0 ==> r <= m,
        c <= m && m % d as int == 0 ==> s <= m,
{
    lemma_power_of_two_pos(b as int);
    lemma_power_of_two_pos(d as int);
    law_round_up(a as int, b as int);
    law_round_up(c as int, d as int);
}

/// The larger of two numbers, the low half of one, and whether one is a power of two.
pub proof fn law_numbers(a: u64, b: u64, larger: u64, half: u32, power: bool)
    requires
        call_ensures(max_u64, (a, b), larger),
        call_ensures(low_half, (a,), half),
        call_ensures(is_power_of_two, (a,), power),
    ensures
        larger >= a && larger >= b,
        larger == a || larger == b,
        (a - half) % 0x1_0000_0000 == 0,
        power <==> exists|n: nat| a == #[trigger] pow2(n),
{
}

} // verus!
