//! Small deterministic integer operations shared by the fixed-point types.

use vstd::prelude::*;
use vstd::arithmetic::power2::*;
use vstd::arithmetic::div_mod::*;
use vstd::arithmetic::mul::*;
use vstd::bits::*;

verus! {

/// `value` limited to the inclusive range `lo..=hi`.
pub open spec fn clamp_spec(value: int, lo: int, hi: int) -> int {
    if value < lo {
        lo
    } else if value > hi {
        hi
    } else {
        value
    }
}

/// Division by `2^shift` rounding half away from zero.
pub open spec fn round_shift_spec(value: int, shift: nat) -> int
    recommends
        shift >= 1,
{
    if value < 0 {
        -((-value + pow2((shift - 1) as nat)) / pow2(shift) as int)
    } else {
        (value + pow2((shift - 1) as nat)) / pow2(shift) as int
    }
}

/// Integer division rounding toward zero, as Rust's `/` does.
pub open spec fn trunc_div(a: int, b: int) -> int
    recommends
        b > 0,
{
    if a < 0 {
        -((-a) / b)
    } else {
        a / b
    }
}

/// `round(value * 2^shift / denominator)`, halves rounded up, saturated to `u64`.
pub open spec fn div_round_shift_spec(value: nat, denominator: nat, shift: nat) -> int {
    let exact: int = (2 * value * pow2(shift) + denominator) as int / (2 * denominator) as int;
    if exact > u64::MAX {
        u64::MAX as int
    } else {
        exact
    }
}

/// Floor square root.
pub open spec fn is_isqrt(value: int, root: int) -> bool {
    &&& root >= 0
    &&& root * root <= value
    &&& value < (root + 1) * (root + 1)
}

/// The floor square root of a non-negative value.
pub open spec fn isqrt_spec(value: int) -> int {
    choose|root: int| is_isqrt(value, root)
}

/// The floor square root is unique, so `isqrt_spec` names it.
pub proof fn lemma_isqrt_spec(value: int, root: int)
    requires
        is_isqrt(value, root),
    ensures
        isqrt_spec(value) == root,
{
    let other = isqrt_spec(value);
    assert(is_isqrt(value, other));
    if other < root {
        assert((other + 1) * (other + 1) <= root * root) by (nonlinear_arith)
            requires other + 1 <= root, other >= 0;
    }
    if root < other {
        assert((root + 1) * (root + 1) <= other * other) by (nonlinear_arith)
            requires root + 1 <= other, root >= 0;
    }
}

/// Narrows a wide signed integer into an inclusive `i32` range.
pub trait ClampToI32 {
    fn clamp_to_i32(self, min: i32, max: i32) -> (r: i32)
        requires
            min <= max,
    ;
}

impl ClampToI32 for i64 {
    #[inline(always)]
    fn clamp_to_i32(self, min: i32, max: i32) -> (r: i32)
        ensures
            r == clamp_spec(self as int, min as int, max as int),
    {
        if self < min as i64 {
            min
        } else if self > max as i64 {
            max
        } else {
            self as i32
        }
    }
}

/// `round(self * 2^shift / denominator)` for wide unsigned numerators.
pub trait DivRoundShift {
    fn div_round_shift_saturating(self, denominator: u128, shift: u32) -> (r: u64)
        requires
            0 < denominator,
            shift < 64,
    ;
}

proof fn lemma_u64_shift_bounds(shift: u32)
    requires
        shift < 64,
    ensures
        (u64::MAX >> shift) as int == pow2((64 - shift) as nat) - 1,
        pow2(shift as nat) * pow2((64 - shift) as nat) == pow2(64),
        pow2(64) == u64::MAX + 1,
        pow2(shift as nat) >= 1,
{
    lemma2_to64_rest();
    lemma_pow2_adds(shift as nat, (64 - shift) as nat);
    lemma_pow2_pos(shift as nat);
    lemma_u64_shr_is_div(u64::MAX, shift as u64);
    let p = pow2(shift as nat) as int;
    let q = pow2((64 - shift) as nat) as int;
    assert(u64::MAX as int == p * q - 1);
    assert((p * q - 1) / p == q - 1) by {
        assert(p * q - 1 == (q - 1) * p + (p - 1)) by (nonlinear_arith);
        lemma_fundamental_div_mod_converse(p * q - 1, p, q - 1, p - 1);
    }
}

proof fn lemma_long_division_step(value: nat, denominator: nat, done: nat, quotient: nat, remainder: nat)
    requires
        denominator > 0,
        quotient == value * pow2(done) / denominator,
        remainder == value * pow2(done) % denominator,
    ensures
        2 * quotient + (if 2 * remainder >= denominator { 1nat } else { 0nat })
            == value * pow2(done + 1) / denominator,
        (if 2 * remainder >= denominator { (2 * remainder - denominator) as nat } else { 2 * remainder })
            == value * pow2(done + 1) % denominator,
{
    let n = value * pow2(done);
    lemma_pow2_unfold(done + 1);
    assert(value * pow2(done + 1) == 2 * n) by {
        lemma_mul_is_associative(value as int, 2, pow2(done) as int);
        lemma_mul_is_commutative(value as int, 2);
        lemma_mul_is_associative(2, value as int, pow2(done) as int);
    }
    lemma_fundamental_div_mod(n as int, denominator as int);
    lemma_mod_bound(n as int, denominator as int);
    let bit: nat = if 2 * remainder >= denominator { 1 } else { 0 };
    let r2: int = 2 * remainder - bit * denominator;
    assert(2 * n == (2 * quotient + bit) * denominator + r2) by (nonlinear_arith)
        requires
            n == denominator * quotient + remainder,
            r2 == 2 * remainder - bit * denominator,
    ;
    assert(0 <= r2 < denominator);
    lemma_fundamental_div_mod_converse((2 * n) as int, denominator as int, (2 * quotient + bit) as int, r2);
}

impl DivRoundShift for u128 {
    fn div_round_shift_saturating(self, denominator: u128, shift: u32) -> (r: u64)
        ensures
            r == div_round_shift_spec(self as nat, denominator as nat, shift as nat),
    {
        let integer = self / denominator;
        proof {
            lemma_u64_shift_bounds(shift);
        }
        if integer > (u64::MAX >> shift) as u128 {
            proof {
                let p = pow2(shift as nat);
                let q = pow2((64 - shift) as nat);
                let v = self as int;
                let d = denominator as int;
                lemma_fundamental_div_mod(v, d);
                lemma_mod_bound(v, d);
                assert(integer >= q);
                assert(v >= d * q) by (nonlinear_arith)
                    requires
                        v == d * (integer as int) + v % d,
                        v % d >= 0,
                        integer >= q,
                        d > 0,
                ;
                assert(2 * v * p + d >= 2 * d * pow2(64)) by (nonlinear_arith)
                    requires
                        v >= d * q,
                        p * q == pow2(64),
                        p >= 1,
                        d > 0,
                ;
                lemma_div_is_ordered(2 * d * pow2(64), 2 * v * p + d, 2 * d);
                assert((2 * d * pow2(64)) / (2 * d) == pow2(64)) by {
                    lemma_div_by_multiple(pow2(64) as int, 2 * d);
                    lemma_mul_is_commutative(pow2(64) as int, 2 * d);
                }
            }
            return u64::MAX;
        }
        proof {
            let p = pow2(shift as nat);
            lemma_mul_upper_bound(integer as int, (pow2((64 - shift) as nat) - 1) as int, p as int, p as int);
            assert(p * (pow2((64 - shift) as nat) - 1) == pow2(64) - p) by (nonlinear_arith)
                requires
                    p * pow2((64 - shift) as nat) == pow2(64),
            ;
            lemma_mul_is_commutative(integer as int, p as int);
            lemma_u64_shl_is_mul(integer as u64, shift as u64);
        }
        let mut result = (integer as u64) << shift;
        let mut remainder = self % denominator;
        let mut bit = shift;
        proof {
            lemma_pow2_pos(shift as nat);
            lemma2_to64();
            assert(self as nat * pow2(0) == self as nat);
        }
        while bit > 0
            invariant
                0 <= bit <= shift < 64,
                0 < denominator,
                integer == self / denominator,
                integer <= (u64::MAX >> shift) as u128,
                (u64::MAX >> shift) as int == pow2((64 - shift) as nat) - 1,
                remainder == (self as nat * pow2((shift - bit) as nat)) % (denominator as nat),
                result as int == ((self as nat * pow2((shift - bit) as nat)) / (denominator as nat))
                    * pow2(bit as nat),
            decreases bit,
        {
            let ghost done = (shift - bit) as nat;
            let ghost old_result = result;
            let ghost q = (self as nat * pow2(done)) / (denominator as nat);
            bit = bit - 1;
            proof {
                lemma_long_division_step(self as nat, denominator as nat, done, q, remainder as nat);
                lemma_mod_bound((self as nat * pow2(done)) as int, denominator as int);
                lemma_pow2_unfold(bit as nat + 1);
            }
            let ghost half_step = remainder;
            let ghost pb = pow2(bit as nat);
            proof {
                lemma_pow2_pos(bit as nat);
                lemma_pow2_strictly_increases(bit as nat, 64);
                lemma2_to64_rest();
                lemma_u64_shl_is_mul(1u64, bit as u64);
                assert(old_result as int == (q * 2) * pb) by {
                    lemma_mul_is_associative(q as int, 2, pb as int);
                }
            }
            if remainder >= denominator - remainder {
                remainder = remainder - (denominator - remainder);
                proof {
                    let qq = (q * 2) as int;
                    assert(old_result % (1u64 << bit) == 0 && (old_result / (1u64 << bit)) % 2 == 0) by {
                        lemma_mod_multiples_basic(qq, pb as int);
                        lemma_div_multiples_vanish(qq, pb as int);
                        lemma_mul_is_commutative(qq, pb as int);
                    }
                    lemma_or_adds_bit(old_result, bit);
                }
                result = result | (1u64 << bit);
                proof {
                    assert(result as int == old_result as int + pb);
                }
            } else {
                remainder = remainder * 2;
            }
            assert(remainder == (if 2 * half_step >= denominator { (2 * half_step - denominator) as nat } else { 2 * half_step as nat }));
            proof {
                let q2 = (self as nat * pow2(done + 1)) / (denominator as nat);
                assert(done + 1 == (shift - bit) as nat);
                let b: int = if result == old_result { 0 } else { 1 };
                assert(q2 == 2 * q + b);
                assert(result as int == q2 * pb) by (nonlinear_arith)
                    requires
                        old_result as int == (q * 2) * pb,
                        result as int == old_result as int + b * pb,
                        q2 == 2 * q + b,
                ;
            }
        }
        proof {
            let n = self as nat * pow2(shift as nat);
            let d = denominator as nat;
            let q = n / d;
            lemma_fundamental_div_mod(n as int, d as int);
            lemma_mod_bound(n as int, d as int);
            assert(pow2(0) == 1) by { lemma2_to64(); }
            let up: nat = if remainder * 2 >= denominator { 1 } else { 0 };
            assert(2 * n + d == (q + up) * (2 * d) + (2 * remainder + d - 2 * d * up)) by (nonlinear_arith)
                requires
                    n == d * q + remainder,
            ;
            lemma_fundamental_div_mod_converse((2 * n + d) as int, (2 * d) as int, (q + up) as int,
                (2 * remainder + d - 2 * d * up) as int);
            assert(2 * (self as nat) * pow2(shift as nat) == 2 * n) by {
                lemma_mul_is_associative(2, self as int, pow2(shift as nat) as int);
            }
        }
        let ghost exact = (2 * (self as nat) * pow2(shift as nat) + denominator as nat) as int
            / (2 * (denominator as nat)) as int;
        proof {
            let n = self as nat * pow2(shift as nat);
            let d = denominator as nat;
            assert(result as int == n / d) by {
                assert(bit == 0);
                assert((shift - bit) as nat == shift as nat);
                lemma_mul_basics((n / d) as int);
            }
            assert(exact == (n / d) + (if remainder * 2 >= denominator { 1int } else { 0int }));
        }
        if remainder >= denominator - remainder {
            result = result.saturating_add(1);
        }
        result
    }
}

proof fn lemma_or_adds_bit(value: u64, bit: u32)
    requires
        bit < 64,
        value % (1u64 << bit) == 0,
        (value / (1u64 << bit)) % 2 == 0,
    ensures
        (value | (1u64 << bit)) as int == value as int + (1u64 << bit) as int,
{
    assert((value | (1u64 << bit)) == value + (1u64 << bit)) by (bit_vector)
        requires
            bit < 64,
            value % (1u64 << bit) == 0,
            (value / (1u64 << bit)) % 2 == 0,
    ;
}

/// Signed division by `2^shift`, rounding half away from zero.
pub trait RoundShift {
    fn round_shift(self, shift: u32) -> (r: i64)
        requires
            1 <= shift <= 63,
    ;
}

impl RoundShift for i64 {
    #[inline(always)]
    fn round_shift(self, shift: u32) -> (r: i64)
        ensures
            r == round_shift_spec(self as int, shift as nat),
    {
        let magnitude: u64 = if self < 0 {
            (-(self + 1)) as u64 + 1
        } else {
            self as u64
        };
        proof {
            lemma_pow2_strictly_increases((shift - 1) as nat, 63);
            lemma2_to64_rest();
            lemma_u64_shl_is_mul(1u64, (shift - 1) as u64);
        }
        let half = 1u64 << (shift - 1);
        let sum = magnitude + half;
        proof {
            lemma_u64_shr_is_div(sum, shift as u64);
            lemma_pow2_unfold(shift as nat);
            lemma_pow2_pos((shift - 1) as nat);
            if shift - 1 < 62 {
                lemma_pow2_strictly_increases((shift - 1) as nat, 62);
            }
            assert(sum as int / pow2(shift as nat) as int <= 0x7fff_ffff_ffff_ffff) by {
                lemma_div_is_ordered(sum as int, 0xc000_0000_0000_0000int, pow2(shift as nat) as int);
                lemma_div_is_ordered_by_denominator(0xc000_0000_0000_0000int, 2, pow2(shift as nat) as int);
            }
        }
        let rounded = sum >> shift;
        if self < 0 {
            -(rounded as i64)
        } else {
            rounded as i64
        }
    }
}

/// A rounded shift of a bounded value is bounded by the shifted bound plus one.
pub proof fn lemma_round_shift_bound(value: int, shift: nat, bound: int)
    requires
        1 <= shift <= 63,
        -bound <= value <= bound,
    ensures
        -(bound / pow2(shift) as int + 1) <= round_shift_spec(value, shift) <= bound / pow2(shift) as int + 1,
        0 <= round_shift_spec(value, shift) || value < 0,
        round_shift_spec(value, shift) <= 0 || value > 0,
{
    let p = pow2(shift) as int;
    let h = pow2((shift - 1) as nat) as int;
    lemma_pow2_unfold(shift);
    lemma_pow2_pos((shift - 1) as nat);
    let m = if value < 0 { -value } else { value };
    lemma_div_is_ordered(m + h, bound + p, p);
    lemma_div_is_ordered(0, m + h, p);
    assert((bound + p) / p == bound / p + 1) by {
        lemma_div_plus_one(bound, p);
    }
    if value == 0 {
        lemma_basic_div(h, p);
    }
}

/// Arithmetic right shift of a signed value is floor division by a power of two.
pub proof fn lemma_i64_shr_is_floor_div(value: i64, shift: u64)
    requires
        shift < 63,
    ensures
        (value >> shift) as int == value as int / pow2(shift as nat) as int,
        pow2(shift as nat) > 0,
{
    lemma_pow2_pos(shift as nat);
    let p = pow2(shift as nat) as int;
    if value >= 0 {
        let u = value as u64;
        lemma_u64_shr_is_div(u, shift);
        assert((value >> shift) as int == (u >> shift) as int) by (bit_vector)
            requires
                value >= 0,
                u == value as u64,
        ;
    } else {
        let u = (-(value + 1)) as u64;
        lemma_u64_shr_is_div(u, shift);
        assert((value >> shift) as int == -((u >> shift) as int) - 1) by (bit_vector)
            requires
                value < 0,
                u == (-(value + 1)) as u64,
                shift < 63,
        ;
        // floor((-u - 1) / p) == -(u / p) - 1
        let q = u as int / p;
        let r = u as int % p;
        lemma_fundamental_div_mod(u as int, p);
        lemma_mod_bound(u as int, p);
        assert(value as int == (-q - 1) * p + (p - 1 - r)) by (nonlinear_arith)
            requires
                value as int == -(u as int) - 1,
                u as int == p * q + r,
        ;
        lemma_fundamental_div_mod_converse(value as int, p, -q - 1, p - 1 - r);
    }
}

/// Floor square root by bisection; identical on every target.
pub fn isqrt_u64(value: u64) -> (root: u64)
    ensures
        is_isqrt(value as int, root as int),
        root as int == isqrt_spec(value as int),
        root < 0x1_0000_0000,
{
    let mut lo: u64 = 0;
    let mut hi: u64 = 0x1_0000_0000;
    while hi - lo > 1
        invariant
            lo < hi <= 0x1_0000_0000,
            lo * lo <= value,
            value < hi * hi,
        decreases hi - lo,
    {
        let mid = lo + (hi - lo) / 2;
        proof {
            assert(mid < 0x1_0000_0000);
            lemma_mul_upper_bound(mid as int, 0xffff_ffff, mid as int, 0xffff_ffff);
        }
        if mid * mid <= value {
            lo = mid;
        } else {
            hi = mid;
        }
    }
    proof {
        assert(hi == lo + 1);
        lemma_isqrt_spec(value as int, lo as int);
    }
    lo
}

} // verus!
