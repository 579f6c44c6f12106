//! Exponential decay in fixed point: the fraction `2^(-t / half_life)` that
//! is left of a pressure difference after the time `t`.
//!
//! The elapsed time is first counted in half-lives. Each whole half-life
//! halves the fraction; the rest of the time is split into the binary
//! fractions 1/2, 1/4, ... of a half-life, and for each one that is present
//! the fraction is multiplied by the matching root of one half.
use vstd::prelude::*;
use crate::UNIT;
use crate::zh16c::COEFF_UNIT;

verus! {

/// The decay fraction one: a factor `f` stands for `f / 2^62`.
pub const FACTOR_ONE: u64 = 4_611_686_018_427_387_904;

/// One half-life, in the units in which elapsed half-lives are counted
/// (`2^32` to the half-life).
pub const HALF_LIFE_ONE: u64 = 4_294_967_296;

/// Number of binary fractions of a half-life that are told apart.
pub const ROOT_COUNT: usize = 32;

/// `ROOTS_OF_HALF[j]` is `2^(-1 / 2^(j + 1))` as a factor, rounded down:
/// the square root of one half, its square root, and so on.
pub const ROOTS_OF_HALF: [u64; 32] = [
    3_260_954_456_333_195_553,
    3_877_950_241_171_266_237,
    4_228_934_724_888_366_667,
    4_416_165_660_797_809_419,
    4_512_867_096_753_504_462,
    4_562_008_997_483_360_349,
    4_586_780_255_215_411_730,
    4_599_216_278_082_138_665,
    4_605_446_927_862_164_404,
    4_608_565_417_332_308_034,
    4_610_125_453_837_388_245,
    4_610_905_670_110_601_999,
    4_611_295_827_762_151_833,
    4_611_490_918_967_884_500,
    4_611_588_467_665_893_036,
    4_611_637_242_788_701_950,
    4_611_661_630_543_559_956,
    4_611_673_824_469_352_644,
    4_611_679_921_444_339_947,
    4_611_682_969_934_856_343,
    4_611_684_494_180_870_228,
    4_611_685_256_304_066_092,
    4_611_685_637_365_711_254,
    4_611_685_827_896_545_643,
    4_611_685_923_161_965_789,
    4_611_685_970_794_676_600,
    4_611_685_994_611_032_190,
    4_611_686_006_519_210_032,
    4_611_686_012_473_298_964,
    4_611_686_015_450_343_433,
    4_611_686_016_938_865_668,
    4_611_686_017_683_126_786,
];

/// The `j`-th root of the table, as a mathematical integer.
pub open spec fn root_of_half(j: int) -> int {
    ROOTS_OF_HALF[j] as int
}

/// The elapsed time in half-lives, in units of `1 / 2^32`, rounded down.
/// `half_life` is in ten-thousandths of a minute, `minutes` in billionths.
pub open spec fn half_lives_elapsed(half_life: int, minutes: int) -> int {
    (minutes * (COEFF_UNIT * HALF_LIFE_ONE)) / (UNIT * half_life)
}

/// Multiplies `acc` by the root of one half of every binary fraction of a
/// half-life that `fraction` holds, from the `j`-th downwards. `fraction`
/// is less than one half-life; its leading binary digit is the `j`-th
/// fraction, and doubling it brings up the next. Each product is rounded
/// down.
pub open spec fn fold_roots(acc: int, fraction: int, j: int) -> int
    decreases 32 - j,
{
    if j < 0 || j >= 32 {
        acc
    } else if 2 * fraction >= HALF_LIFE_ONE {
        fold_roots(acc * root_of_half(j) / (FACTOR_ONE as int), 2 * fraction - HALF_LIFE_ONE, j + 1)
    } else {
        fold_roots(acc, 2 * fraction, j + 1)
    }
}

/// `value` halved `times` times, each time rounded down.
pub open spec fn halved(value: int, times: int) -> int
    decreases times,
{
    if times <= 0 {
        value
    } else {
        halved(value / 2, times - 1)
    }
}

/// The factor left after `elapsed` half-lives (in units of `1 / 2^32`).
pub open spec fn decay_after(elapsed: int) -> int {
    halved(
        fold_roots(FACTOR_ONE as int, elapsed % (HALF_LIFE_ONE as int), 0),
        elapsed / (HALF_LIFE_ONE as int),
    )
}

/// The decay factor of a compartment with the given half-life after
/// `minutes`: `2^(-minutes / half_life)` in units of `1 / 2^62`.
pub open spec fn decay(half_life: int, minutes: int) -> int {
    decay_after(half_lives_elapsed(half_life, minutes))
}

/// Every root of the table is a positive factor below one, and more than
/// one half.
pub proof fn lemma_root_range(j: int)
    requires
        0 <= j < 32,
    ensures
        FACTOR_ONE / 2 < root_of_half(j) < FACTOR_ONE,
{
    assert(j == 0 || j == 1 || j == 2 || j == 3 || j == 4 || j == 5 || j == 6 || j == 7 || j == 8
        || j == 9 || j == 10 || j == 11 || j == 12 || j == 13 || j == 14 || j == 15 || j == 16
        || j == 17 || j == 18 || j == 19 || j == 20 || j == 21 || j == 22 || j == 23 || j == 24
        || j == 25 || j == 26 || j == 27 || j == 28 || j == 29 || j == 30 || j == 31);
}

/// A product with a factor of at most one, rounded down, is at most the
/// value that was multiplied.
pub proof fn lemma_factor_shrinks(value: int, factor: int)
    requires
        0 <= value,
        0 <= factor <= FACTOR_ONE,
    ensures
        0 <= value * factor / (FACTOR_ONE as int) <= value,
        value * factor <= value * FACTOR_ONE,
{
    assert(0 <= value * factor <= value * FACTOR_ONE) by (nonlinear_arith)
        requires
            0 <= value,
            0 <= factor <= FACTOR_ONE,
    ;
    vstd::arithmetic::div_mod::lemma_div_is_ordered(value * factor, value * FACTOR_ONE, FACTOR_ONE as int);
    vstd::arithmetic::div_mod::lemma_div_is_ordered(0, value * factor, FACTOR_ONE as int);
    vstd::arithmetic::div_mod::lemma_div_multiples_vanish(value, FACTOR_ONE as int);
    assert(value * FACTOR_ONE == FACTOR_ONE * value) by (nonlinear_arith);
}

/// Folding roots never raises the factor and keeps it non-negative.
pub proof fn lemma_fold_roots_range(acc: int, fraction: int, j: int)
    requires
        0 <= acc,
        0 <= j,
    ensures
        0 <= fold_roots(acc, fraction, j) <= acc,
    decreases 32 - j,
{
    if j < 32 {
        lemma_root_range(j);
        if 2 * fraction >= HALF_LIFE_ONE {
            lemma_factor_shrinks(acc, root_of_half(j));
            lemma_fold_roots_range(acc * root_of_half(j) / (FACTOR_ONE as int), 2 * fraction - HALF_LIFE_ONE, j + 1);
        } else {
            lemma_fold_roots_range(acc, 2 * fraction, j + 1);
        }
    }
}

/// With no binary fraction present the factor is unchanged.
pub proof fn lemma_fold_roots_of_zero(acc: int, j: int)
    requires
        0 <= j,
    ensures
        fold_roots(acc, 0, j) == acc,
    decreases 32 - j,
{
    if j < 32 {
        lemma_fold_roots_of_zero(acc, j + 1);
    }
}

/// Halving never raises a non-negative value and keeps it non-negative.
pub proof fn lemma_halved_range(value: int, times: int)
    requires
        0 <= value,
    ensures
        0 <= halved(value, times) <= value,
    decreases times,
{
    if times > 0 {
        lemma_halved_range(value / 2, times - 1);
    }
}

/// Zero stays zero however often it is halved.
pub proof fn lemma_halved_zero(times: int)
    ensures
        halved(0, times) == 0,
    decreases times,
{
    if times > 0 {
        lemma_halved_zero(times - 1);
    }
}

/// The decay factor is a fraction between zero and one.
pub proof fn lemma_decay_range(half_life: int, minutes: int)
    requires
        0 < half_life,
        0 <= minutes,
    ensures
        0 <= decay(half_life, minutes) <= FACTOR_ONE,
{
    let x = half_lives_elapsed(half_life, minutes);
    lemma_fold_roots_range(FACTOR_ONE as int, x % (HALF_LIFE_ONE as int), 0);
    lemma_halved_range(
        fold_roots(FACTOR_ONE as int, x % (HALF_LIFE_ONE as int), 0),
        x / (HALF_LIFE_ONE as int),
    );
}

/// A product with a factor below one, rounded down, is less than the
/// positive value that was multiplied.
pub proof fn lemma_factor_shrinks_strictly(value: int, factor: int)
    requires
        0 < value,
        0 <= factor < FACTOR_ONE,
    ensures
        value * factor / (FACTOR_ONE as int) < value,
{
    assert(value * factor <= value * FACTOR_ONE - value) by (nonlinear_arith)
        requires
            0 < value,
            0 <= factor <= FACTOR_ONE - 1,
    ;
    assert(value * FACTOR_ONE - value < value * FACTOR_ONE);
    vstd::arithmetic::div_mod::lemma_div_is_ordered(
        value * factor,
        value * FACTOR_ONE - 1,
        FACTOR_ONE as int,
    );
    vstd::arithmetic::div_mod::lemma_fundamental_div_mod(value * FACTOR_ONE - 1, FACTOR_ONE as int);
    vstd::arithmetic::div_mod::lemma_mod_bound(value * FACTOR_ONE - 1, FACTOR_ONE as int);
    let q = (value * FACTOR_ONE - 1) / (FACTOR_ONE as int);
    assert(q < value) by (nonlinear_arith)
        requires
            FACTOR_ONE * q <= value * FACTOR_ONE - 1,
            FACTOR_ONE > 0,
    ;
}

/// Where a binary fraction of a half-life is present, folding the roots
/// lowers a positive factor. The fraction at the `j`-th step has been
/// doubled `j` times.
pub proof fn lemma_fold_roots_lowers(acc: int, fraction: int, j: nat)
    requires
        0 < acc,
        j <= 32,
        0 < fraction < HALF_LIFE_ONE,
        fraction % (vstd::arithmetic::power2::pow2(j) as int) == 0,
    ensures
        fold_roots(acc, fraction, j as int) < acc,
    decreases 32 - j,
{
    let weight = vstd::arithmetic::power2::pow2(j) as int;
    vstd::arithmetic::power2::lemma_pow2_pos(j);
    vstd::arithmetic::div_mod::lemma_fundamental_div_mod(fraction, weight);
    let count = fraction / weight;
    assert(count >= 1 && fraction == weight * count) by (nonlinear_arith)
        requires
            fraction == weight * count + 0,
            fraction > 0,
            weight > 0,
    ;
    if j == 32 {
        vstd::arithmetic::power2::lemma2_to64();
        assert(fraction >= weight) by (nonlinear_arith)
            requires
                fraction == weight * count,
                count >= 1,
                weight > 0,
        ;
    } else {
        lemma_root_range(j as int);
        if 2 * fraction >= HALF_LIFE_ONE {
            lemma_factor_shrinks_strictly(acc, root_of_half(j as int));
            lemma_factor_shrinks(acc, root_of_half(j as int));
            lemma_fold_roots_range(
                acc * root_of_half(j as int) / (FACTOR_ONE as int),
                2 * fraction - HALF_LIFE_ONE,
                j as int + 1,
            );
        } else {
            vstd::arithmetic::power2::lemma_pow2_unfold(j + 1);
            let next = vstd::arithmetic::power2::pow2(j + 1) as int;
            assert(2 * fraction == next * count) by (nonlinear_arith)
                requires
                    fraction == weight * count,
                    next == 2 * weight,
            ;
            vstd::arithmetic::div_mod::lemma_mod_multiples_basic(count, next);
            assert(count * next == next * count) by (nonlinear_arith);
            lemma_fold_roots_lowers(acc, 2 * fraction, j + 1);
        }
    }
}

/// As soon as any time has passed that the count of half-lives can
/// tell, the decay factor is below one.
pub proof fn lemma_decay_below_one(half_life: int, minutes: int)
    requires
        0 < half_life,
        0 < half_lives_elapsed(half_life, minutes),
    ensures
        0 <= decay(half_life, minutes) < FACTOR_ONE,
{
    let x = half_lives_elapsed(half_life, minutes);
    let fraction = x % (HALF_LIFE_ONE as int);
    let whole = x / (HALF_LIFE_ONE as int);
    let folded = fold_roots(FACTOR_ONE as int, fraction, 0);
    lemma_fold_roots_range(FACTOR_ONE as int, fraction, 0);
    lemma_halved_range(folded, whole);
    vstd::arithmetic::div_mod::lemma_fundamental_div_mod(x, HALF_LIFE_ONE as int);
    vstd::arithmetic::div_mod::lemma_mod_bound(x, HALF_LIFE_ONE as int);
    if fraction > 0 {
        vstd::arithmetic::power2::lemma2_to64();
        lemma_fold_roots_lowers(FACTOR_ONE as int, fraction, 0);
    } else {
        assert(whole >= 1) by (nonlinear_arith)
            requires
                x == HALF_LIFE_ONE * whole,
                x > 0,
                HALF_LIFE_ONE > 0,
        ;
        lemma_halved_range(folded / 2, whole - 1);
    }
}

/// Each root of the table is the square root of the one before it, and
/// the first is the square root of one half, to within one unit of the
/// last place.
pub proof fn lemma_roots_are_square_roots(j: int)
    requires
        0 <= j < 32,
    ensures
        ({
            let before = if j == 0 {
                (FACTOR_ONE / 2) as int
            } else {
                root_of_half(j - 1)
            };
            (root_of_half(j) - 1) * (root_of_half(j) - 1) <= FACTOR_ONE * before < (root_of_half(j) + 1)
                * (root_of_half(j) + 1)
        }),
{
    if j == 0 {
        assert(3_260_954_456_333_195_552int * 3_260_954_456_333_195_552int <= 4_611_686_018_427_387_904int * 2_305_843_009_213_693_952int);
        assert(4_611_686_018_427_387_904int * 2_305_843_009_213_693_952int < 3_260_954_456_333_195_554int * 3_260_954_456_333_195_554int);
    }
    if j == 1 {
        assert(3_877_950_241_171_266_236int * 3_877_950_241_171_266_236int <= 4_611_686_018_427_387_904int * 3_260_954_456_333_195_553int);
        assert(4_611_686_018_427_387_904int * 3_260_954_456_333_195_553int < 3_877_950_241_171_266_238int * 3_877_950_241_171_266_238int);
    }
    if j == 2 {
        assert(4_228_934_724_888_366_666int * 4_228_934_724_888_366_666int <= 4_611_686_018_427_387_904int * 3_877_950_241_171_266_237int);
        assert(4_611_686_018_427_387_904int * 3_877_950_241_171_266_237int < 4_228_934_724_888_366_668int * 4_228_934_724_888_366_668int);
    }
    if j == 3 {
        assert(4_416_165_660_797_809_418int * 4_416_165_660_797_809_418int <= 4_611_686_018_427_387_904int * 4_228_934_724_888_366_667int);
        assert(4_611_686_018_427_387_904int * 4_228_934_724_888_366_667int < 4_416_165_660_797_809_420int * 4_416_165_660_797_809_420int);
    }
    if j == 4 {
        assert(4_512_867_096_753_504_461int * 4_512_867_096_753_504_461int <= 4_611_686_018_427_387_904int * 4_416_165_660_797_809_419int);
        assert(4_611_686_018_427_387_904int * 4_416_165_660_797_809_419int < 4_512_867_096_753_504_463int * 4_512_867_096_753_504_463int);
    }
    if j == 5 {
        assert(4_562_008_997_483_360_348int * 4_562_008_997_483_360_348int <= 4_611_686_018_427_387_904int * 4_512_867_096_753_504_462int);
        assert(4_611_686_018_427_387_904int * 4_512_867_096_753_504_462int < 4_562_008_997_483_360_350int * 4_562_008_997_483_360_350int);
    }
    if j == 6 {
        assert(4_586_780_255_215_411_729int * 4_586_780_255_215_411_729int <= 4_611_686_018_427_387_904int * 4_562_008_997_483_360_349int);
        assert(4_611_686_018_427_387_904int * 4_562_008_997_483_360_349int < 4_586_780_255_215_411_731int * 4_586_780_255_215_411_731int);
    }
    if j == 7 {
        assert(4_599_216_278_082_138_664int * 4_599_216_278_082_138_664int <= 4_611_686_018_427_387_904int * 4_586_780_255_215_411_730int);
        assert(4_611_686_018_427_387_904int * 4_586_780_255_215_411_730int < 4_599_216_278_082_138_666int * 4_599_216_278_082_138_666int);
    }
    if j == 8 {
        assert(4_605_446_927_862_164_403int * 4_605_446_927_862_164_403int <= 4_611_686_018_427_387_904int * 4_599_216_278_082_138_665int);
        assert(4_611_686_018_427_387_904int * 4_599_216_278_082_138_665int < 4_605_446_927_862_164_405int * 4_605_446_927_862_164_405int);
    }
    if j == 9 {
        assert(4_608_565_417_332_308_033int * 4_608_565_417_332_308_033int <= 4_611_686_018_427_387_904int * 4_605_446_927_862_164_404int);
        assert(4_611_686_018_427_387_904int * 4_605_446_927_862_164_404int < 4_608_565_417_332_308_035int * 4_608_565_417_332_308_035int);
    }
    if j == 10 {
        assert(4_610_125_453_837_388_244int * 4_610_125_453_837_388_244int <= 4_611_686_018_427_387_904int * 4_608_565_417_332_308_034int);
        assert(4_611_686_018_427_387_904int * 4_608_565_417_332_308_034int < 4_610_125_453_837_388_246int * 4_610_125_453_837_388_246int);
    }
    if j == 11 {
        assert(4_610_905_670_110_601_998int * 4_610_905_670_110_601_998int <= 4_611_686_018_427_387_904int * 4_610_125_453_837_388_245int);
        assert(4_611_686_018_427_387_904int * 4_610_125_453_837_388_245int < 4_610_905_670_110_602_000int * 4_610_905_670_110_602_000int);
    }
    if j == 12 {
        assert(4_611_295_827_762_151_832int * 4_611_295_827_762_151_832int <= 4_611_686_018_427_387_904int * 4_610_905_670_110_601_999int);
        assert(4_611_686_018_427_387_904int * 4_610_905_670_110_601_999int < 4_611_295_827_762_151_834int * 4_611_295_827_762_151_834int);
    }
    if j == 13 {
        assert(4_611_490_918_967_884_499int * 4_611_490_918_967_884_499int <= 4_611_686_018_427_387_904int * 4_611_295_827_762_151_833int);
        assert(4_611_686_018_427_387_904int * 4_611_295_827_762_151_833int < 4_611_490_918_967_884_501int * 4_611_490_918_967_884_501int);
    }
    if j == 14 {
        assert(4_611_588_467_665_893_035int * 4_611_588_467_665_893_035int <= 4_611_686_018_427_387_904int * 4_611_490_918_967_884_500int);
        assert(4_611_686_018_427_387_904int * 4_611_490_918_967_884_500int < 4_611_588_467_665_893_037int * 4_611_588_467_665_893_037int);
    }
    if j == 15 {
        assert(4_611_637_242_788_701_949int * 4_611_637_242_788_701_949int <= 4_611_686_018_427_387_904int * 4_611_588_467_665_893_036int);
        assert(4_611_686_018_427_387_904int * 4_611_588_467_665_893_036int < 4_611_637_242_788_701_951int * 4_611_637_242_788_701_951int);
    }
    if j == 16 {
        assert(4_611_661_630_543_559_955int * 4_611_661_630_543_559_955int <= 4_611_686_018_427_387_904int * 4_611_637_242_788_701_950int);
        assert(4_611_686_018_427_387_904int * 4_611_637_242_788_701_950int < 4_611_661_630_543_559_957int * 4_611_661_630_543_559_957int);
    }
    if j == 17 {
        assert(4_611_673_824_469_352_643int * 4_611_673_824_469_352_643int <= 4_611_686_018_427_387_904int * 4_611_661_630_543_559_956int);
        assert(4_611_686_018_427_387_904int * 4_611_661_630_543_559_956int < 4_611_673_824_469_352_645int * 4_611_673_824_469_352_645int);
    }
    if j == 18 {
        assert(4_611_679_921_444_339_946int * 4_611_679_921_444_339_946int <= 4_611_686_018_427_387_904int * 4_611_673_824_469_352_644int);
        assert(4_611_686_018_427_387_904int * 4_611_673_824_469_352_644int < 4_611_679_921_444_339_948int * 4_611_679_921_444_339_948int);
    }
    if j == 19 {
        assert(4_611_682_969_934_856_342int * 4_611_682_969_934_856_342int <= 4_611_686_018_427_387_904int * 4_611_679_921_444_339_947int);
        assert(4_611_686_018_427_387_904int * 4_611_679_921_444_339_947int < 4_611_682_969_934_856_344int * 4_611_682_969_934_856_344int);
    }
    if j == 20 {
        assert(4_611_684_494_180_870_227int * 4_611_684_494_180_870_227int <= 4_611_686_018_427_387_904int * 4_611_682_969_934_856_343int);
        assert(4_611_686_018_427_387_904int * 4_611_682_969_934_856_343int < 4_611_684_494_180_870_229int * 4_611_684_494_180_870_229int);
    }
    if j == 21 {
        assert(4_611_685_256_304_066_091int * 4_611_685_256_304_066_091int <= 4_611_686_018_427_387_904int * 4_611_684_494_180_870_228int);
        assert(4_611_686_018_427_387_904int * 4_611_684_494_180_870_228int < 4_611_685_256_304_066_093int * 4_611_685_256_304_066_093int);
    }
    if j == 22 {
        assert(4_611_685_637_365_711_253int * 4_611_685_637_365_711_253int <= 4_611_686_018_427_387_904int * 4_611_685_256_304_066_092int);
        assert(4_611_686_018_427_387_904int * 4_611_685_256_304_066_092int < 4_611_685_637_365_711_255int * 4_611_685_637_365_711_255int);
    }
    if j == 23 {
        assert(4_611_685_827_896_545_642int * 4_611_685_827_896_545_642int <= 4_611_686_018_427_387_904int * 4_611_685_637_365_711_254int);
        assert(4_611_686_018_427_387_904int * 4_611_685_637_365_711_254int < 4_611_685_827_896_545_644int * 4_611_685_827_896_545_644int);
    }
    if j == 24 {
        assert(4_611_685_923_161_965_788int * 4_611_685_923_161_965_788int <= 4_611_686_018_427_387_904int * 4_611_685_827_896_545_643int);
        assert(4_611_686_018_427_387_904int * 4_611_685_827_896_545_643int < 4_611_685_923_161_965_790int * 4_611_685_923_161_965_790int);
    }
    if j == 25 {
        assert(4_611_685_970_794_676_599int * 4_611_685_970_794_676_599int <= 4_611_686_018_427_387_904int * 4_611_685_923_161_965_789int);
        assert(4_611_686_018_427_387_904int * 4_611_685_923_161_965_789int < 4_611_685_970_794_676_601int * 4_611_685_970_794_676_601int);
    }
    if j == 26 {
        assert(4_611_685_994_611_032_189int * 4_611_685_994_611_032_189int <= 4_611_686_018_427_387_904int * 4_611_685_970_794_676_600int);
        assert(4_611_686_018_427_387_904int * 4_611_685_970_794_676_600int < 4_611_685_994_611_032_191int * 4_611_685_994_611_032_191int);
    }
    if j == 27 {
        assert(4_611_686_006_519_210_031int * 4_611_686_006_519_210_031int <= 4_611_686_018_427_387_904int * 4_611_685_994_611_032_190int);
        assert(4_611_686_018_427_387_904int * 4_611_685_994_611_032_190int < 4_611_686_006_519_210_033int * 4_611_686_006_519_210_033int);
    }
    if j == 28 {
        assert(4_611_686_012_473_298_963int * 4_611_686_012_473_298_963int <= 4_611_686_018_427_387_904int * 4_611_686_006_519_210_032int);
        assert(4_611_686_018_427_387_904int * 4_611_686_006_519_210_032int < 4_611_686_012_473_298_965int * 4_611_686_012_473_298_965int);
    }
    if j == 29 {
        assert(4_611_686_015_450_343_432int * 4_611_686_015_450_343_432int <= 4_611_686_018_427_387_904int * 4_611_686_012_473_298_964int);
        assert(4_611_686_018_427_387_904int * 4_611_686_012_473_298_964int < 4_611_686_015_450_343_434int * 4_611_686_015_450_343_434int);
    }
    if j == 30 {
        assert(4_611_686_016_938_865_667int * 4_611_686_016_938_865_667int <= 4_611_686_018_427_387_904int * 4_611_686_015_450_343_433int);
        assert(4_611_686_018_427_387_904int * 4_611_686_015_450_343_433int < 4_611_686_016_938_865_669int * 4_611_686_016_938_865_669int);
    }
    if j == 31 {
        assert(4_611_686_017_683_126_785int * 4_611_686_017_683_126_785int <= 4_611_686_018_427_387_904int * 4_611_686_016_938_865_668int);
        assert(4_611_686_018_427_387_904int * 4_611_686_016_938_865_668int < 4_611_686_017_683_126_787int * 4_611_686_017_683_126_787int);
    }
}

/// No time, no decay: after zero minutes the factor is exactly one.
pub proof fn lemma_decay_of_no_time(half_life: int)
    requires
        0 < half_life,
    ensures
        decay(half_life, 0) == FACTOR_ONE,
{
    assert(0 * (COEFF_UNIT * HALF_LIFE_ONE) == 0);
    assert(UNIT * half_life > 0) by (nonlinear_arith)
        requires
            half_life > 0,
    ;
    vstd::arithmetic::div_mod::lemma_div_basics_1(UNIT * half_life);
    assert(half_lives_elapsed(half_life, 0) == 0);
    lemma_fold_roots_of_zero(FACTOR_ONE as int, 0);
}

/// After a whole number of half-lives the factor is one, halved that many
/// times: nothing is lost to rounding.
pub proof fn lemma_decay_of_whole_half_lives(half_life: int, count: int)
    requires
        0 < half_life,
        0 <= count,
    ensures
        decay(half_life, count * half_life * (UNIT / COEFF_UNIT)) == halved(FACTOR_ONE as int, count),
{
    let minutes = count * half_life * (UNIT / COEFF_UNIT);
    let d = UNIT * half_life;
    assert(d > 0) by (nonlinear_arith)
        requires
            d == UNIT * half_life,
            half_life > 0,
    ;
    assert(minutes * (COEFF_UNIT * HALF_LIFE_ONE) == (count * HALF_LIFE_ONE) * d) by (nonlinear_arith)
        requires
            minutes == count * half_life * 100_000,
            d == 1_000_000_000 * half_life,
            COEFF_UNIT == 10_000,
    ;
    vstd::arithmetic::div_mod::lemma_div_multiples_vanish(count * HALF_LIFE_ONE, d);
    assert(d * (count * HALF_LIFE_ONE) == (count * HALF_LIFE_ONE) * d) by (nonlinear_arith);
    let x = half_lives_elapsed(half_life, minutes);
    assert(x == count * HALF_LIFE_ONE);
    vstd::arithmetic::div_mod::lemma_div_multiples_vanish(count, HALF_LIFE_ONE as int);
    vstd::arithmetic::div_mod::lemma_mod_multiples_basic(count, HALF_LIFE_ONE as int);
    assert(HALF_LIFE_ONE * count == count * HALF_LIFE_ONE) by (nonlinear_arith);
    lemma_fold_roots_of_zero(FACTOR_ONE as int, 0);
}

/// Computes the decay factor `2^(-minutes / half_life)`.
pub fn decay_factor(half_life: u64, minutes: u64) -> (factor: u64)
    requires
        0 < half_life,
    ensures
        factor == decay(half_life as int, minutes as int),
        factor <= FACTOR_ONE,
        minutes == 0 ==> factor == FACTOR_ONE,
{
    proof {
        lemma_decay_range(half_life as int, minutes as int);
        if minutes == 0 {
            lemma_decay_of_no_time(half_life as int);
        }
        assert(0 <= minutes * (COEFF_UNIT * HALF_LIFE_ONE) <= 0xffff_ffff_ffff_ffff * (COEFF_UNIT
            * HALF_LIFE_ONE)) by (nonlinear_arith)
            requires
                0 <= minutes <= 0xffff_ffff_ffff_ffff,
        ;
        assert(0 < UNIT * half_life <= UNIT * 0xffff_ffff_ffff_ffff) by (nonlinear_arith)
            requires
                0 < half_life <= 0xffff_ffff_ffff_ffff,
        ;
    }
    let scaled: u128 = (minutes as u128) * ((COEFF_UNIT as u128) * (HALF_LIFE_ONE as u128));
    let span: u128 = (UNIT as u128) * (half_life as u128);
    let elapsed: u128 = scaled / span;
    let whole: u128 = elapsed / (HALF_LIFE_ONE as u128);
    let mut fraction: u64 = (elapsed % (HALF_LIFE_ONE as u128)) as u64;
    let mut acc: u64 = FACTOR_ONE;
    let mut j: usize = 0;
    while j < ROOT_COUNT
        invariant
            0 <= j <= 32,
            acc <= FACTOR_ONE,
            fraction < HALF_LIFE_ONE,
            fold_roots(acc as int, fraction as int, j as int) == fold_roots(
                FACTOR_ONE as int,
                (elapsed % (HALF_LIFE_ONE as u128)) as int,
                0,
            ),
        decreases 32 - j,
    {
        let doubled: u64 = 2 * fraction;
        if doubled >= HALF_LIFE_ONE {
            let root: u64 = ROOTS_OF_HALF[j];
            proof {
                lemma_root_range(j as int);
                lemma_factor_shrinks(acc as int, root as int);
            }
            let product: u128 = (acc as u128) * (root as u128);
            acc = (product / (FACTOR_ONE as u128)) as u64;
            fraction = doubled - HALF_LIFE_ONE;
        } else {
            fraction = doubled;
        }
        j = j + 1;
    }
    let ghost folded: int = acc as int;
    let mut done: u128 = 0;
    while done < whole && acc > 0
        invariant
            done <= whole,
            acc <= FACTOR_ONE,
            halved(acc as int, whole - done) == halved(folded, whole as int),
        decreases acc,
    {
        acc = acc / 2;
        done = done + 1;
    }
    proof {
        if done < whole {
            lemma_halved_zero(whole - done);
        }
    }
    acc
}

} // verus!
