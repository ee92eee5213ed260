//! The sine of an angle of up to half a right angle, in fixed point.

use vstd::prelude::*;

verus! {

/// One, as a fraction in fixed point.
pub const FRACTION_ONE: u128 = 1_000_000_000_000_000_000;

/// A right angle, in units of angle. The unit is chosen so that an angle
/// that grows by 60 degrees over half a bat's height is twice the distance.
pub const RIGHT_ANGLE: i64 = 225_000_000_000;

/// Half a right angle.
pub const HALF_RIGHT_ANGLE: i64 = 112_500_000_000;

/// Four right angles.
pub const FULL_TURN: i64 = 900_000_000_000;

/// An angle of `ANGLE_SCALE` units in radians, as a fraction in fixed point,
/// rounded down: pi over twice a right angle's units, times `ANGLE_SCALE`.
pub const ANGLE_RATE: u128 = 6_981_317_007_977_318_307;

/// The number of units of angle that `ANGLE_RATE` stands for.
pub const ANGLE_SCALE: u128 = 1_000_000_000_000;

/// The sine of half a right angle as a fraction in fixed point, rounded
/// down: the largest fraction whose square is at most a half.
pub const SINE_OF_HALF_RIGHT: u128 = 707_106_781_186_547_524;

/// One step of the sine's series: one less the `c`-th part of `w` times `f`,
/// all three fractions in fixed point.
pub open spec fn series_step(w: int, f: int, c: int) -> int {
    FRACTION_ONE - w * f / (c * FRACTION_ONE)
}

/// The sine of `angle` as a fraction in fixed point: the sine's series up to
/// the eleventh power of the angle in radians, `u - u^3/3! + u^5/5! - ... -
/// u^11/11!`, summed from the inside with every quotient rounded down, and
/// held to the sine of half a right angle.
pub open spec fn sine(angle: int) -> int {
    let u = angle * ANGLE_RATE / (ANGLE_SCALE as int);
    let w = u * u / (FRACTION_ONE as int);
    let f5 = series_step(w, FRACTION_ONE as int, 110);
    let f4 = series_step(w, f5, 72);
    let f3 = series_step(w, f4, 42);
    let f2 = series_step(w, f3, 20);
    let f1 = series_step(w, f2, 6);
    let v = u * f1 / (FRACTION_ONE as int);
    if v > SINE_OF_HALF_RIGHT {
        SINE_OF_HALF_RIGHT as int
    } else {
        v
    }
}

/// The sine of an angle of up to half a right angle is a fraction whose
/// square is at most a half.
pub proof fn lemma_sine_is_short(angle: int)
    requires
        0 <= angle <= HALF_RIGHT_ANGLE,
    ensures
        0 <= sine(angle) <= SINE_OF_HALF_RIGHT,
        2 * (sine(angle) * sine(angle)) <= FRACTION_ONE * FRACTION_ONE,
{
    let u = angle * ANGLE_RATE / (ANGLE_SCALE as int);
    assert(0 <= u <= 785_398_163_397_448_310) by (nonlinear_arith)
        requires
            0 <= angle <= 112_500_000_000,
            u == angle * 6_981_317_007_977_318_307 / 1_000_000_000_000,
    ;
    let w = u * u / (FRACTION_ONE as int);
    assert(0 <= w <= 1_000_000_000_000_000_000) by (nonlinear_arith)
        requires
            0 <= u <= 785_398_163_397_448_310,
            w == u * u / 1_000_000_000_000_000_000,
    ;
    let f5 = series_step(w, FRACTION_ONE as int, 110);
    lemma_series_step(w, FRACTION_ONE as int, 110);
    let f4 = series_step(w, f5, 72);
    lemma_series_step(w, f5, 72);
    let f3 = series_step(w, f4, 42);
    lemma_series_step(w, f4, 42);
    let f2 = series_step(w, f3, 20);
    lemma_series_step(w, f3, 20);
    let f1 = series_step(w, f2, 6);
    lemma_series_step(w, f2, 6);
    let v = u * f1 / (FRACTION_ONE as int);
    assert(0 <= v) by (nonlinear_arith)
        requires
            0 <= u,
            0 <= f1,
            v == u * f1 / 1_000_000_000_000_000_000,
    ;
    let s = sine(angle);
    assert(2 * (s * s) <= FRACTION_ONE * FRACTION_ONE) by (nonlinear_arith)
        requires
            0 <= s <= 707_106_781_186_547_524,
            FRACTION_ONE == 1_000_000_000_000_000_000,
    ;
}

/// A step of the series takes fractions of at most one to a fraction of at
/// most one.
pub proof fn lemma_series_step(w: int, f: int, c: int)
    requires
        0 <= w <= FRACTION_ONE,
        0 <= f <= FRACTION_ONE,
        1 <= c,
    ensures
        0 <= series_step(w, f, c) <= FRACTION_ONE,
        0 <= w * f <= FRACTION_ONE * FRACTION_ONE,
{
    let one = FRACTION_ONE as int;
    assert(0 <= w * f <= one * one && 0 <= w * f / (c * one) <= one) by (nonlinear_arith)
        requires
            0 <= w <= one,
            0 <= f <= one,
            1 <= c,
            one == 1_000_000_000_000_000_000,
    ;
}

/// The sine of no angle is nothing.
pub proof fn lemma_sine_of_nothing()
    ensures
        sine(0) == 0,
{
    let u = 0 * ANGLE_RATE / (ANGLE_SCALE as int);
    let w = u * u / (FRACTION_ONE as int);
    let f5 = series_step(w, FRACTION_ONE as int, 110);
    let f4 = series_step(w, f5, 72);
    let f3 = series_step(w, f4, 42);
    let f2 = series_step(w, f3, 20);
    let f1 = series_step(w, f2, 6);
    assert(u * f1 / (FRACTION_ONE as int) == 0) by (nonlinear_arith)
        requires
            u == 0,
    ;
}

/// The sine of 30 degrees in fixed point falls short of a half by 35 656
/// parts in a million million million.
pub proof fn lemma_sine_of_thirty_degrees()
    ensures
        sine(75_000_000_000) == 499_999_999_999_964_344,
{
    let one = FRACTION_ONE as int;
    let u = 75_000_000_000 * ANGLE_RATE / (ANGLE_SCALE as int);
    assert(u == 523_598_775_598_298_873);
    let w = u * u / one;
    assert(w == 274_155_677_808_037_739) by (nonlinear_arith)
        requires
            u == 523_598_775_598_298_873,
            w == u * u / 1_000_000_000_000_000_000,
    ;
    let f5 = series_step(w, one, 110);
    assert(f5 == 997_507_675_656_290_567) by (nonlinear_arith)
        requires
            w == 274_155_677_808_037_739,
            f5 == 1_000_000_000_000_000_000 - w * 1_000_000_000_000_000_000 / 110_000_000_000_000_000_000int,
    ;
    let f4 = series_step(w, f5, 72);
    assert(f4 == 996_201_772_320_301_798) by (nonlinear_arith)
        requires
            w == 274_155_677_808_037_739,
            f5 == 997_507_675_656_290_567,
            f4 == 1_000_000_000_000_000_000 - w * f5 / 72_000_000_000_000_000_000int,
    ;
    let f3 = series_step(w, f4, 42);
    assert(f3 == 993_497_276_854_189_505) by (nonlinear_arith)
        requires
            w == 274_155_677_808_037_739,
            f4 == 996_201_772_320_301_798,
            f3 == 1_000_000_000_000_000_000 - w * f4 / 42_000_000_000_000_000_000int,
    ;
    let f2 = series_step(w, f3, 20);
    assert(f2 == 986_381_354_033_179_998) by (nonlinear_arith)
        requires
            w == 274_155_677_808_037_739,
            f3 == 993_497_276_854_189_505,
            f2 == 1_000_000_000_000_000_000 - w * f3 / 20_000_000_000_000_000_000int,
    ;
    let f1 = series_step(w, f2, 6);
    assert(f1 == 954_929_658_551_303_917) by (nonlinear_arith)
        requires
            w == 274_155_677_808_037_739,
            f2 == 986_381_354_033_179_998,
            f1 == 1_000_000_000_000_000_000 - w * f2 / 6_000_000_000_000_000_000int,
    ;
    let v = u * f1 / one;
    assert(v == 499_999_999_999_964_344) by (nonlinear_arith)
        requires
            u == 523_598_775_598_298_873,
            f1 == 954_929_658_551_303_917,
            v == u * f1 / 1_000_000_000_000_000_000,
    ;
}

/// The sine of half a right angle in fixed point falls short of the largest
/// fraction whose square is at most a half by 6 928 089 parts in a million
/// million million.
pub proof fn lemma_sine_of_half_a_right_angle()
    ensures
        sine(HALF_RIGHT_ANGLE as int) == SINE_OF_HALF_RIGHT - 6_928_089,
{
    let one = FRACTION_ONE as int;
    let u = 112_500_000_000 * ANGLE_RATE / (ANGLE_SCALE as int);
    assert(u == 785_398_163_397_448_309);
    let w = u * u / one;
    assert(w == 616_850_275_068_084_912) by (nonlinear_arith)
        requires
            u == 785_398_163_397_448_309,
            w == u * u / 1_000_000_000_000_000_000,
    ;
    let f5 = series_step(w, one, 110);
    assert(f5 == 994_392_270_226_653_774) by (nonlinear_arith)
        requires
            w == 616_850_275_068_084_912,
            f5 == 1_000_000_000_000_000_000 - w * 1_000_000_000_000_000_000 / 110_000_000_000_000_000_000int,
    ;
    let f4 = series_step(w, f5, 72);
    assert(f4 == 991_480_678_535_904_323) by (nonlinear_arith)
        requires
            w == 616_850_275_068_084_912,
            f5 == 994_392_270_226_653_774,
            f4 == 1_000_000_000_000_000_000 - w * f5 / 72_000_000_000_000_000_000int,
    ;
    let f3 = series_step(w, f4, 42);
    assert(f3 == 985_438_211_207_629_428) by (nonlinear_arith)
        requires
            w == 616_850_275_068_084_912,
            f4 == 991_480_678_535_904_323,
            f3 == 1_000_000_000_000_000_000 - w * f4 / 42_000_000_000_000_000_000int,
    ;
    let f2 = series_step(w, f3, 20);
    assert(f2 == 969_606_608_417_698_612) by (nonlinear_arith)
        requires
            w == 616_850_275_068_084_912,
            f3 == 985_438_211_207_629_428,
            f2 == 1_000_000_000_000_000_000 - w * f3 / 20_000_000_000_000_000_000int,
    ;
    let f1 = series_step(w, f2, 6);
    assert(f1 == 900_316_316_148_284_953) by (nonlinear_arith)
        requires
            w == 616_850_275_068_084_912,
            f2 == 969_606_608_417_698_612,
            f1 == 1_000_000_000_000_000_000 - w * f2 / 6_000_000_000_000_000_000int,
    ;
    let v = u * f1 / one;
    assert(v == 707_106_781_179_619_435) by (nonlinear_arith)
        requires
            u == 785_398_163_397_448_309,
            f1 == 900_316_316_148_284_953,
            v == u * f1 / 1_000_000_000_000_000_000,
    ;
}

/// One step of the sine's series.
fn step(w: u128, f: u128, c: u128) -> (g: u128)
    requires
        w <= FRACTION_ONE,
        f <= FRACTION_ONE,
        1 <= c <= 110,
    ensures
        g == series_step(w as int, f as int, c as int),
        g <= FRACTION_ONE,
{
    proof {
        lemma_series_step(w as int, f as int, c as int);
        assert(FRACTION_ONE * FRACTION_ONE == 1_000_000_000_000_000_000_000_000_000_000_000_000)
            by (nonlinear_arith);
        assert(0 < c * FRACTION_ONE <= 110_000_000_000_000_000_000) by (nonlinear_arith)
            requires
                1 <= c <= 110,
        ;
    }
    FRACTION_ONE - w * f / (c * FRACTION_ONE)
}

/// The sine of an angle of up to half a right angle, as a fraction in fixed
/// point.
pub fn fixed_sine(angle: u64) -> (v: u64)
    requires
        angle <= HALF_RIGHT_ANGLE,
    ensures
        v == sine(angle as int),
        v <= SINE_OF_HALF_RIGHT,
{
    proof {
        lemma_sine_is_short(angle as int);
    }
    assert(0 <= angle * ANGLE_RATE <= 112_500_000_000 * 6_981_317_007_977_318_307
        && angle * ANGLE_RATE / (ANGLE_SCALE as int) <= 785_398_163_397_448_310) by (nonlinear_arith)
        requires
            0 <= angle <= 112_500_000_000,
    ;
    let u: u128 = (angle as u128) * ANGLE_RATE / ANGLE_SCALE;
    assert(0 <= u * u <= 1_000_000_000_000_000_000_000_000_000_000_000_000 && u * u
        / 1_000_000_000_000_000_000 <= 1_000_000_000_000_000_000) by (nonlinear_arith)
        requires
            0 <= u <= 785_398_163_397_448_310,
    ;
    let w: u128 = u * u / FRACTION_ONE;
    let f5: u128 = step(w, FRACTION_ONE, 110);
    let f4: u128 = step(w, f5, 72);
    let f3: u128 = step(w, f4, 42);
    let f2: u128 = step(w, f3, 20);
    let f1: u128 = step(w, f2, 6);
    assert(0 <= u * f1 <= 1_000_000_000_000_000_000_000_000_000_000_000_000) by (nonlinear_arith)
        requires
            0 <= u <= 785_398_163_397_448_310,
            0 <= f1 <= 1_000_000_000_000_000_000,
    ;
    let v: u128 = u * f1 / FRACTION_ONE;
    if v > SINE_OF_HALF_RIGHT {
        SINE_OF_HALF_RIGHT as u64
    } else {
        v as u64
    }
}

} // verus!
