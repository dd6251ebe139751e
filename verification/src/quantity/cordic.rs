//! Integer CORDIC sine and cosine in Q30, with a proof that the rotation it
//! produces never expands a vector.

use vstd::prelude::*;
use vstd::arithmetic::div_mod::*;
use vstd::arithmetic::mul::*;
use vstd::arithmetic::power2::*;

use crate::ops::lemma_i64_shr_is_floor_div;

verus! {

/// Inverse CORDIC gain in Q30, reduced by a guard of 128 units so that every
/// non-cardinal rotation is conservatively non-expanding.
pub const CORDIC_GAIN_Q30: i64 = 652_032_746;

/// One in Q30.
pub const ONE_Q30: i32 = 0x4000_0000;

/// The squared Q30 length of a rotation, `2^60`.
pub open spec fn unit_q60() -> int {
    0x1000_0000_0000_0000
}

/// Rotation step angles `atan(2^-i)` in the binary-angle scale of `2^31` per half turn.
pub open spec fn cordic_angle_spec(index: int) -> int {
    if index == 0 { 536_870_912 }
    else if index == 1 { 316_933_406 }
    else if index == 2 { 167_458_907 }
    else if index == 3 { 85_004_756 }
    else if index == 4 { 42_667_331 }
    else if index == 5 { 21_354_465 }
    else if index == 6 { 10_679_838 }
    else if index == 7 { 5_340_245 }
    else if index == 8 { 2_670_163 }
    else if index == 9 { 1_335_087 }
    else if index == 10 { 667_544 }
    else if index == 11 { 333_772 }
    else if index == 12 { 166_886 }
    else if index == 13 { 83_443 }
    else if index == 14 { 41_722 }
    else if index == 15 { 20_861 }
    else if index == 16 { 10_430 }
    else if index == 17 { 5_215 }
    else if index == 18 { 2_608 }
    else if index == 19 { 1_304 }
    else if index == 20 { 652 }
    else if index == 21 { 326 }
    else if index == 22 { 163 }
    else if index == 23 { 81 }
    else if index == 24 { 41 }
    else if index == 25 { 20 }
    else if index == 26 { 10 }
    else if index == 27 { 5 }
    else if index == 28 { 3 }
    else { 1 }
}

fn cordic_angle(index: u32) -> (a: i64)
    requires
        index < 31,
    ensures
        a == cordic_angle_spec(index as int),
        0 < a <= 0x4000_0000,
{
    match index {
        0 => 536_870_912,
        1 => 316_933_406,
        2 => 167_458_907,
        3 => 85_004_756,
        4 => 42_667_331,
        5 => 21_354_465,
        6 => 10_679_838,
        7 => 5_340_245,
        8 => 2_670_163,
        9 => 1_335_087,
        10 => 667_544,
        11 => 333_772,
        12 => 166_886,
        13 => 83_443,
        14 => 41_722,
        15 => 20_861,
        16 => 10_430,
        17 => 5_215,
        18 => 2_608,
        19 => 1_304,
        20 => 652,
        21 => 326,
        22 => 163,
        23 => 81,
        24 => 41,
        25 => 20,
        26 => 10,
        27 => 5,
        28 => 3,
        _ => 1,
    }
}

/// The CORDIC iterations from step `index` to the last step, with arithmetic
/// shifts written as floor divisions. Returns `(cos, sin)`.
pub open spec fn cordic_iterate(cos: int, sin: int, z: int, index: nat) -> (int, int)
    decreases 31 - index,
{
    if index >= 31 {
        (cos, sin)
    } else {
        let p = pow2(index) as int;
        let angle = cordic_angle_spec(index as int);
        if z >= 0 {
            cordic_iterate(cos - sin / p, sin + cos / p, z - angle, index + 1)
        } else {
            cordic_iterate(cos + sin / p, sin - cos / p, z + angle, index + 1)
        }
    }
}

/// The signed angle folded into `[-2^30, 2^30]`, and the sign that undoes the fold.
pub open spec fn cordic_fold(raw: u32) -> (int, int) {
    let z = if raw >= 0x8000_0000 { raw as int - 0x1_0000_0000 } else { raw as int };
    if z > 0x4000_0000 {
        (z - 0x8000_0000, -1)
    } else if z < -0x4000_0000 {
        (z + 0x8000_0000, -1)
    } else {
        (z, 1)
    }
}

/// `[sin, cos]` in Q30 for a binary angle: exact at the four cardinal
/// angles, otherwise the deterministic CORDIC result.
pub open spec fn sin_cos_spec(raw: u32) -> (int, int) {
    if raw == 0 {
        (0, 0x4000_0000)
    } else if raw == 0x4000_0000 {
        (0x4000_0000, 0)
    } else if raw == 0x8000_0000 {
        (0, -0x4000_0000)
    } else if raw == 0xc000_0000 {
        (-0x4000_0000, 0)
    } else {
        let (z, sign) = cordic_fold(raw);
        let (cos, sin) = cordic_iterate(CORDIC_GAIN_Q30 as int, 0, z, 0);
        (sin * sign, cos * sign)
    }
}

/// Upper bounds on `cos^2 + sin^2` before each CORDIC step.
pub open spec fn cordic_norm_bound(index: int) -> int {
    if index == 0 { 425146701856300516 }
    else if index == 1 { 850293407401055250 }
    else if index == 2 { 1062866763163515557 }
    else if index == 3 { 1129295939506209172 }
    else if index == 4 { 1146941191942431494 }
    else if index == 5 { 1151421434191889942 }
    else if index == 6 { 1152545872316086725 }
    else if index == 7 { 1152827258669646524 }
    else if index == 8 { 1152897624722111163 }
    else if index == 9 { 1152915219592610689 }
    else if index == 10 { 1152919620658072265 }
    else if index == 11 { 1152920723207871303 }
    else if index == 12 { 1152921001124082522 }
    else if index == 13 { 1152921072881286927 }
    else if index == 14 { 1152921093098553107 }
    else if index == 15 { 1152921100430769729 }
    else if index == 16 { 1152921104541734900 }
    else if index == 17 { 1152921107847478723 }
    else if index == 18 { 1152921110952135002 }
    else if index == 19 { 1152921114006972357 }
    else if index == 20 { 1152921117050269592 }
    else if index == 21 { 1152921120092515359 }
    else if index == 22 { 1152921123138167555 }
    else if index == 23 { 1152921126192011031 }
    else if index == 24 { 1152921129262582213 }
    else if index == 25 { 1152921132366695362 }
    else if index == 26 { 1152921135537914216 }
    else if index == 27 { 1152921138843349989 }
    else if index == 28 { 1152921142417221009 }
    else if index == 29 { 1152921146527962886 }
    else if index == 30 { 1152921151712446575 }
    else { 1152921159044413912 }
}

/// Upper bounds on `|cos| + |sin|` before each CORDIC step: `sqrt(2 * norm) + 1`.
pub open spec fn cordic_sum_bound(index: int) -> int {
    if index == 0 { 922113553 }
    else if index == 1 { 1304065495 }
    else if index == 2 { 1457989550 }
    else if index == 3 { 1502861231 }
    else if index == 4 { 1514556828 }
    else if index == 5 { 1517512066 }
    else if index == 6 { 1518252860 }
    else if index == 7 { 1518438184 }
    else if index == 8 { 1518484524 }
    else if index == 9 { 1518496112 }
    else if index == 10 { 1518499010 }
    else if index == 11 { 1518499736 }
    else if index == 12 { 1518499919 }
    else if index == 13 { 1518499966 }
    else if index == 14 { 1518499979 }
    else if index == 15 { 1518499984 }
    else if index == 16 { 1518499987 }
    else if index == 17 { 1518499989 }
    else if index == 18 { 1518499991 }
    else if index == 19 { 1518499993 }
    else if index == 20 { 1518499995 }
    else if index == 21 { 1518499997 }
    else if index == 22 { 1518499999 }
    else if index == 23 { 1518500001 }
    else if index == 24 { 1518500003 }
    else if index == 25 { 1518500005 }
    else if index == 26 { 1518500007 }
    else if index == 27 { 1518500010 }
    else if index == 28 { 1518500012 }
    else if index == 29 { 1518500015 }
    else { 1518500018 }
}

/// The bound table is consistent with the one-step growth bound.
proof fn lemma_bound_table(index: int)
    requires
        0 <= index < 31,
    ensures
        cordic_sum_bound(index) >= 0,
        cordic_sum_bound(index) * cordic_sum_bound(index) >= 2 * cordic_norm_bound(index),
        cordic_norm_bound(index + 1) >= cordic_norm_bound(index)
            + (cordic_norm_bound(index) + 2 * pow2(index as nat) * cordic_sum_bound(index))
                / (pow2(index as nat) * pow2(index as nat)) as int
            + 2 + 2 * cordic_sum_bound(index) + 4 * pow2(index as nat),
        cordic_norm_bound(index) <= cordic_norm_bound(index + 1) <= unit_q60(),
{
    lemma2_to64();
    let b = cordic_norm_bound(index);
    let s = cordic_sum_bound(index);
    let p = pow2(index as nat) as int;
    assert(s * s >= 2 * b && b + (b + 2 * p * s) / (p * p) + 2 + 2 * s + 4 * p <= cordic_norm_bound(index + 1)) by (nonlinear_arith)
        requires
            index == 0 ==> (b == 425146701856300516 && s == 922113553 && p == 1 && cordic_norm_bound(index + 1) == 850293407401055250),
            index == 1 ==> (b == 850293407401055250 && s == 1304065495 && p == 2 && cordic_norm_bound(index + 1) == 1062866763163515557),
            index == 2 ==> (b == 1062866763163515557 && s == 1457989550 && p == 4 && cordic_norm_bound(index + 1) == 1129295939506209172),
            index == 3 ==> (b == 1129295939506209172 && s == 1502861231 && p == 8 && cordic_norm_bound(index + 1) == 1146941191942431494),
            index == 4 ==> (b == 1146941191942431494 && s == 1514556828 && p == 16 && cordic_norm_bound(index + 1) == 1151421434191889942),
            index == 5 ==> (b == 1151421434191889942 && s == 1517512066 && p == 32 && cordic_norm_bound(index + 1) == 1152545872316086725),
            index == 6 ==> (b == 1152545872316086725 && s == 1518252860 && p == 64 && cordic_norm_bound(index + 1) == 1152827258669646524),
            index == 7 ==> (b == 1152827258669646524 && s == 1518438184 && p == 128 && cordic_norm_bound(index + 1) == 1152897624722111163),
            index == 8 ==> (b == 1152897624722111163 && s == 1518484524 && p == 256 && cordic_norm_bound(index + 1) == 1152915219592610689),
            index == 9 ==> (b == 1152915219592610689 && s == 1518496112 && p == 512 && cordic_norm_bound(index + 1) == 1152919620658072265),
            index == 10 ==> (b == 1152919620658072265 && s == 1518499010 && p == 1024 && cordic_norm_bound(index + 1) == 1152920723207871303),
            index == 11 ==> (b == 1152920723207871303 && s == 1518499736 && p == 2048 && cordic_norm_bound(index + 1) == 1152921001124082522),
            index == 12 ==> (b == 1152921001124082522 && s == 1518499919 && p == 4096 && cordic_norm_bound(index + 1) == 1152921072881286927),
            index == 13 ==> (b == 1152921072881286927 && s == 1518499966 && p == 8192 && cordic_norm_bound(index + 1) == 1152921093098553107),
            index == 14 ==> (b == 1152921093098553107 && s == 1518499979 && p == 16384 && cordic_norm_bound(index + 1) == 1152921100430769729),
            index == 15 ==> (b == 1152921100430769729 && s == 1518499984 && p == 32768 && cordic_norm_bound(index + 1) == 1152921104541734900),
            index == 16 ==> (b == 1152921104541734900 && s == 1518499987 && p == 65536 && cordic_norm_bound(index + 1) == 1152921107847478723),
            index == 17 ==> (b == 1152921107847478723 && s == 1518499989 && p == 131072 && cordic_norm_bound(index + 1) == 1152921110952135002),
            index == 18 ==> (b == 1152921110952135002 && s == 1518499991 && p == 262144 && cordic_norm_bound(index + 1) == 1152921114006972357),
            index == 19 ==> (b == 1152921114006972357 && s == 1518499993 && p == 524288 && cordic_norm_bound(index + 1) == 1152921117050269592),
            index == 20 ==> (b == 1152921117050269592 && s == 1518499995 && p == 1048576 && cordic_norm_bound(index + 1) == 1152921120092515359),
            index == 21 ==> (b == 1152921120092515359 && s == 1518499997 && p == 2097152 && cordic_norm_bound(index + 1) == 1152921123138167555),
            index == 22 ==> (b == 1152921123138167555 && s == 1518499999 && p == 4194304 && cordic_norm_bound(index + 1) == 1152921126192011031),
            index == 23 ==> (b == 1152921126192011031 && s == 1518500001 && p == 8388608 && cordic_norm_bound(index + 1) == 1152921129262582213),
            index == 24 ==> (b == 1152921129262582213 && s == 1518500003 && p == 16777216 && cordic_norm_bound(index + 1) == 1152921132366695362),
            index == 25 ==> (b == 1152921132366695362 && s == 1518500005 && p == 33554432 && cordic_norm_bound(index + 1) == 1152921135537914216),
            index == 26 ==> (b == 1152921135537914216 && s == 1518500007 && p == 67108864 && cordic_norm_bound(index + 1) == 1152921138843349989),
            index == 27 ==> (b == 1152921138843349989 && s == 1518500010 && p == 134217728 && cordic_norm_bound(index + 1) == 1152921142417221009),
            index == 28 ==> (b == 1152921142417221009 && s == 1518500012 && p == 268435456 && cordic_norm_bound(index + 1) == 1152921146527962886),
            index == 29 ==> (b == 1152921146527962886 && s == 1518500015 && p == 536870912 && cordic_norm_bound(index + 1) == 1152921151712446575),
            index == 30 ==> (b == 1152921151712446575 && s == 1518500018 && p == 1073741824 && cordic_norm_bound(index + 1) == 1152921159044413912),
            0 <= index < 31,
    ;
}

/// One CORDIC step grows `cos^2 + sin^2` by at most the table's bound.
proof fn lemma_cordic_step(cos: int, sin: int, p: int, bound: int, sum: int, next: int, positive: bool)
    requires
        p >= 1,
        cos * cos + sin * sin <= bound,
        sum >= 0,
        sum * sum >= 2 * bound,
        next >= bound + (bound + 2 * p * sum) / (p * p) + 2 + 2 * sum + 4 * p,
    ensures
        positive ==> (cos - sin / p) * (cos - sin / p) + (sin + cos / p) * (sin + cos / p) <= next,
        !positive ==> (cos + sin / p) * (cos + sin / p) + (sin - cos / p) * (sin - cos / p) <= next,
{
    let a = sin / p;
    let r = sin % p;
    let b = cos / p;
    let q = cos % p;
    lemma_fundamental_div_mod(sin, p);
    lemma_fundamental_div_mod(cos, p);
    lemma_mod_bound(sin, p);
    lemma_mod_bound(cos, p);
    let abs_sin = if sin < 0 { -sin } else { sin };
    let abs_cos = if cos < 0 { -cos } else { cos };
    let abs_a = if a < 0 { -a } else { a };
    let abs_b = if b < 0 { -b } else { b };
    // |cos| + |sin| <= sum
    assert(abs_sin * abs_sin == sin * sin) by (nonlinear_arith)
        requires abs_sin == sin || abs_sin == -sin;
    assert(abs_cos * abs_cos == cos * cos) by (nonlinear_arith)
        requires abs_cos == cos || abs_cos == -cos;
    assert(abs_sin + abs_cos <= sum) by (nonlinear_arith)
        requires
            abs_sin * abs_sin == sin * sin,
            abs_cos * abs_cos == cos * cos,
            abs_sin >= 0,
            abs_cos >= 0,
            cos * cos + sin * sin <= bound,
            sum * sum >= 2 * bound,
            sum >= 0,
    {
        assert((abs_sin + abs_cos) * (abs_sin + abs_cos) <= 2 * (abs_sin * abs_sin + abs_cos * abs_cos))
            by (nonlinear_arith)
            requires abs_sin >= 0, abs_cos >= 0;
        if abs_sin + abs_cos > sum {
            assert((abs_sin + abs_cos) * (abs_sin + abs_cos) > sum * sum) by (nonlinear_arith)
                requires abs_sin + abs_cos > sum, sum >= 0;
        }
    }
    // p * |a| <= |sin| + p, and likewise for b
    assert(p * abs_a <= abs_sin + p) by (nonlinear_arith)
        requires
            sin == p * a + r,
            0 <= r < p,
            abs_a == a || abs_a == -a,
            abs_a >= 0,
            abs_sin == sin || abs_sin == -sin,
            abs_sin >= 0,
    ;
    assert(p * abs_b <= abs_cos + p) by (nonlinear_arith)
        requires
            cos == p * b + q,
            0 <= q < p,
            abs_b == b || abs_b == -b,
            abs_b >= 0,
            abs_cos == cos || abs_cos == -cos,
            abs_cos >= 0,
    ;
    // the cross term: sin * b - cos * a == r * b - q * a, bounded by p (|a| + |b|)
    let cross = sin * b - cos * a;
    assert(cross == r * b - q * a) by (nonlinear_arith)
        requires
            sin == p * a + r,
            cos == p * b + q,
            cross == sin * b - cos * a,
    ;
    assert(-(sum + 2 * p) <= cross <= sum + 2 * p) by (nonlinear_arith)
        requires
            cross == r * b - q * a,
            0 <= r < p,
            0 <= q < p,
            abs_a == a || abs_a == -a,
            abs_a >= 0,
            abs_b == b || abs_b == -b,
            abs_b >= 0,
            p * abs_a + p * abs_b <= sum + 2 * p,
    ;
    // a^2 + b^2 <= (bound + 2 p sum) / p^2 + 2
    let squares = a * a + b * b;
    let pp = p * p;
    let big_a = p * abs_a;
    let big_b = p * abs_b;
    assert(big_a >= 0 && big_b >= 0) by (nonlinear_arith)
        requires big_a == p * abs_a, big_b == p * abs_b, p >= 1, abs_a >= 0, abs_b >= 0;
    assert(big_a * big_a <= abs_sin * abs_sin + 2 * p * abs_sin + pp) by (nonlinear_arith)
        requires big_a <= abs_sin + p, big_a >= 0, pp == p * p;
    assert(big_b * big_b <= abs_cos * abs_cos + 2 * p * abs_cos + pp) by (nonlinear_arith)
        requires big_b <= abs_cos + p, big_b >= 0, pp == p * p;
    assert(abs_a * abs_a == a * a) by (nonlinear_arith)
        requires abs_a == a || abs_a == -a;
    assert(abs_b * abs_b == b * b) by (nonlinear_arith)
        requires abs_b == b || abs_b == -b;
    assert(big_a * big_a + big_b * big_b == squares * pp) by (nonlinear_arith)
        requires
            big_a == p * abs_a,
            big_b == p * abs_b,
            abs_a * abs_a == a * a,
            abs_b * abs_b == b * b,
            squares == a * a + b * b,
            pp == p * p,
    {
        assert(big_a * big_a == pp * (abs_a * abs_a)) by (nonlinear_arith)
            requires big_a == p * abs_a, pp == p * p;
        assert(big_b * big_b == pp * (abs_b * abs_b)) by (nonlinear_arith)
            requires big_b == p * abs_b, pp == p * p;
    }
    assert(2 * p * abs_sin + 2 * p * abs_cos <= 2 * p * sum) by (nonlinear_arith)
        requires abs_sin + abs_cos <= sum, p >= 1;
    assert(squares * pp <= bound + 2 * p * sum + 2 * pp);
    assert(pp >= 1) by (nonlinear_arith) requires p >= 1, pp == p * p;
    assert(squares <= (bound + 2 * p * sum) / pp + 2) by {
        lemma_div_is_ordered(squares * pp, bound + 2 * p * sum + 2 * pp, pp);
        lemma_div_by_multiple(squares, pp);
        lemma_div_plus_one(bound + 2 * p * sum + pp, pp);
        lemma_div_plus_one(bound + 2 * p * sum, pp);
    }
    if positive {
        assert((cos - a) * (cos - a) + (sin + b) * (sin + b) == cos * cos + sin * sin + squares + 2 * cross)
            by (nonlinear_arith)
            requires squares == a * a + b * b, cross == sin * b - cos * a;
    } else {
        assert((cos + a) * (cos + a) + (sin - b) * (sin - b) == cos * cos + sin * sin + squares - 2 * cross)
            by (nonlinear_arith)
            requires squares == a * a + b * b, cross == sin * b - cos * a;
    }
}

/// Every remaining CORDIC step keeps `cos^2 + sin^2` within the bound table.
proof fn lemma_cordic_iterate_bound(cos: int, sin: int, z: int, index: nat)
    requires
        index <= 31,
        cos * cos + sin * sin <= cordic_norm_bound(index as int),
    ensures
        ({
            let (c, s) = cordic_iterate(cos, sin, z, index);
            c * c + s * s <= unit_q60()
        }),
    decreases 31 - index,
{
    if index >= 31 {
        lemma_bound_table(30);
    } else {
        lemma_bound_table(index as int);
        let p = pow2(index) as int;
        lemma_pow2_pos(index);
        lemma_cordic_step(cos, sin, p, cordic_norm_bound(index as int), cordic_sum_bound(index as int),
            cordic_norm_bound(index as int + 1), z >= 0);
        let angle = cordic_angle_spec(index as int);
        if z >= 0 {
            lemma_cordic_iterate_bound(cos - sin / p, sin + cos / p, z - angle, index + 1);
        } else {
            lemma_cordic_iterate_bound(cos + sin / p, sin - cos / p, z + angle, index + 1);
        }
    }
}

/// The specified sine and cosine never describe a vector longer than one.
pub proof fn lemma_sin_cos_spec_bound(raw: u32)
    ensures
        sin_cos_spec(raw).0 * sin_cos_spec(raw).0 + sin_cos_spec(raw).1 * sin_cos_spec(raw).1 <= unit_q60(),
        -0x4000_0000 <= sin_cos_spec(raw).0 <= 0x4000_0000,
        -0x4000_0000 <= sin_cos_spec(raw).1 <= 0x4000_0000,
{
    let (z, sign) = cordic_fold(raw);
    if raw != 0 && raw != 0x4000_0000 && raw != 0x8000_0000 && raw != 0xc000_0000 {
        lemma_bound_table(0);
        lemma_cordic_iterate_bound(CORDIC_GAIN_Q30 as int, 0, z, 0);
        let (cos, sin) = cordic_iterate(CORDIC_GAIN_Q30 as int, 0, z, 0);
        assert((sin * sign) * (sin * sign) + (cos * sign) * (cos * sign) == sin * sin + cos * cos)
            by (nonlinear_arith)
            requires sign == 1 || sign == -1;
        assert(sin * sin <= unit_q60()) by (nonlinear_arith)
            requires cos * cos + sin * sin <= unit_q60();
        assert(cos * cos <= unit_q60()) by (nonlinear_arith)
            requires cos * cos + sin * sin <= unit_q60();
        lemma_square_bound(sin, unit_q60());
        lemma_square_bound(cos, unit_q60());
    } else {
        assert(0x4000_0000int * 0x4000_0000int == unit_q60());
        assert((-0x4000_0000int) * (-0x4000_0000int) == unit_q60());
    }
}

/// Turning half a turn further reverses the direction: the sine and cosine
/// of `raw + π` are those of `raw`, negated.
pub proof fn lemma_half_turn_negates(raw: u32)
    ensures
        sin_cos_spec(((raw as int + 0x8000_0000) % 0x1_0000_0000) as u32)
            == (-sin_cos_spec(raw).0, -sin_cos_spec(raw).1),
{
    let opposite = ((raw as int + 0x8000_0000) % 0x1_0000_0000) as u32;
    if raw < 0x8000_0000 {
        assert(opposite == raw + 0x8000_0000);
    } else {
        assert(opposite == raw - 0x8000_0000);
    }
    let (z, sign) = cordic_fold(raw);
    let (z2, sign2) = cordic_fold(opposite);
    if raw != 0 && raw != 0x4000_0000 && raw != 0x8000_0000 && raw != 0xc000_0000 {
        assert(z2 == z && sign2 == -sign);
        let (cos, sin) = cordic_iterate(CORDIC_GAIN_Q30 as int, 0, z, 0);
        assert(sin * sign2 == -(sin * sign)) by (nonlinear_arith)
            requires sign2 == -sign;
        assert(cos * sign2 == -(cos * sign)) by (nonlinear_arith)
            requires sign2 == -sign;
    }
}

/// A coordinate whose square is at most `2^60` lies in `[-2^30, 2^30]`.
pub proof fn lemma_square_bound(value: int, square_bound: int)
    requires
        value * value <= square_bound,
        square_bound <= 0x1000_0000_0000_0000,
    ensures
        -0x4000_0000 <= value <= 0x4000_0000,
{
    if value > 0x4000_0000 || value < -0x4000_0000 {
        assert(value * value > 0x1000_0000_0000_0000) by (nonlinear_arith)
            requires value > 0x4000_0000 || value < -0x4000_0000;
    }
}

/// Returns `[sin, cos]` of a binary angle as signed Q30 values.
///
/// Cardinal angles are exact. Every other angle uses deterministic integer
/// CORDIC, and the result never exceeds one in length:
/// `sin^2 + cos^2 <= 2^60`.
pub fn sin_cos_q30(raw: u32) -> (r: [i32; 2])
    ensures
        (r[0] as int, r[1] as int) == sin_cos_spec(raw),
        r[0] * r[0] + r[1] * r[1] <= unit_q60(),
        -0x4000_0000 <= r[0] <= 0x4000_0000,
        -0x4000_0000 <= r[1] <= 0x4000_0000,
{
    if raw == 0 {
        return [0, ONE_Q30];
    } else if raw == 0x4000_0000 {
        return [ONE_Q30, 0];
    } else if raw == 0x8000_0000 {
        return [0, -ONE_Q30];
    } else if raw == 0xc000_0000 {
        return [-ONE_Q30, 0];
    }
    let signed = raw as i32;
    proof {
        assert((raw as i32) as int == if raw >= 0x8000_0000 { raw as int - 0x1_0000_0000 } else { raw as int })
            by (bit_vector);
    }
    let mut z = signed as i64;
    let mut sign: i64 = 1;
    if z > 0x4000_0000 {
        z -= 0x8000_0000;
        sign = -1;
    } else if z < -0x4000_0000 {
        z += 0x8000_0000;
        sign = -1;
    }
    let ghost start = cordic_fold(raw);
    assert(start == (z as int, sign as int));

    let mut cos: i64 = CORDIC_GAIN_Q30;
    let mut sin: i64 = 0;
    let mut shift: u32 = 0;
    while shift < 31
        invariant
            shift <= 31,
            cos * cos + sin * sin <= cordic_norm_bound(shift as int),
            -(shift as int + 1) * 0x4000_0000 <= z <= (shift as int + 1) * 0x4000_0000,
            cordic_iterate(cos as int, sin as int, z as int, shift as nat)
                == cordic_iterate(CORDIC_GAIN_Q30 as int, 0, start.0, 0),
        decreases 31 - shift,
    {
        proof {
            lemma_bound_table(shift as int);
            assert(cos * cos <= cordic_norm_bound(shift as int)) by (nonlinear_arith)
                requires cos * cos + sin * sin <= cordic_norm_bound(shift as int);
            assert(sin * sin <= cordic_norm_bound(shift as int)) by (nonlinear_arith)
                requires cos * cos + sin * sin <= cordic_norm_bound(shift as int);
            lemma_square_bound(cos as int, cordic_norm_bound(shift as int));
            lemma_square_bound(sin as int, cordic_norm_bound(shift as int));
            lemma_i64_shr_is_floor_div(sin, shift as u64);
            lemma_i64_shr_is_floor_div(cos, shift as u64);
            lemma_cordic_step(
                cos as int,
                sin as int,
                pow2(shift as nat) as int,
                cordic_norm_bound(shift as int),
                cordic_sum_bound(shift as int),
                cordic_norm_bound(shift as int + 1),
                z >= 0,
            );
            lemma_div_is_ordered_by_denominator(0x4000_0000, 1, pow2(shift as nat) as int);
            lemma_div_is_ordered(cos as int, 0x4000_0000, pow2(shift as nat) as int);
            lemma_div_is_ordered(-0x4000_0000, cos as int, pow2(shift as nat) as int);
            lemma_div_is_ordered(sin as int, 0x4000_0000, pow2(shift as nat) as int);
            lemma_div_is_ordered(-0x4000_0000, sin as int, pow2(shift as nat) as int);
            lemma_div_pos_is_pos(0x4000_0000, pow2(shift as nat) as int);
            assert(-0x4000_0000int / (pow2(shift as nat) as int) >= -0x4000_0000) by {
                lemma_div_is_ordered(-0x4000_0000 * (pow2(shift as nat) as int), -0x4000_0000, pow2(shift as nat) as int);
                lemma_div_multiples_vanish(-0x4000_0000, pow2(shift as nat) as int);
                lemma_mul_is_commutative(-0x4000_0000, pow2(shift as nat) as int);
                assert(-0x4000_0000 * (pow2(shift as nat) as int) <= -0x4000_0000) by (nonlinear_arith)
                    requires pow2(shift as nat) >= 1;
            }
        }
        let angle = cordic_angle(shift);
        let old_cos = cos;
        if z >= 0 {
            cos -= sin >> shift;
            sin += old_cos >> shift;
            z -= angle;
        } else {
            cos += sin >> shift;
            sin -= old_cos >> shift;
            z += angle;
        }
        shift += 1;
    }
    proof {
        lemma_bound_table(30);
        assert(cos * cos <= cordic_norm_bound(31)) by (nonlinear_arith)
            requires cos * cos + sin * sin <= cordic_norm_bound(31);
        assert(sin * sin <= cordic_norm_bound(31)) by (nonlinear_arith)
            requires cos * cos + sin * sin <= cordic_norm_bound(31);
        lemma_square_bound(cos as int, cordic_norm_bound(31));
        lemma_square_bound(sin as int, cordic_norm_bound(31));
        assert((sin * sign) * (sin * sign) + (cos * sign) * (cos * sign) == sin * sin + cos * cos)
            by (nonlinear_arith)
            requires sign == 1 || sign == -1;
    }
    [(sin * sign) as i32, (cos * sign) as i32]
}

} // verus!
