//! The ball: it flies, bounces off the top and bottom of the screen and off
//! the bats, and leaves the screen at its left or right edge.

use vstd::prelude::*;
use crate::angles::{
    fixed_sine,
    lemma_sine_of_nothing,
    lemma_sine_of_thirty_degrees,
    lemma_sine_is_short,
    sine,
    FRACTION_ONE,
    FULL_TURN,
    HALF_RIGHT_ANGLE,
    RIGHT_ANGLE,
};
use crate::bat::{Bat, BatView};
use crate::chance::draw_between;
use crate::geometry::{saturated, Motion, Rect, Region, Screen, Velocity};
use crate::roots::{
    is_nearest_root,
    lemma_legs_keep_length,
    lemma_nearest_root,
    lemma_parts_within_a_unit,
    nearest_root,
    nearest_sqrt,
    rounds,
    within_a_unit,
};
use crate::units::{
    BALL_RADIUS,
    BALL_SIDE,
    BALL_SPEED,
    BAT_HALF_HEIGHT,
    POSITION_LIMIT,
    SAMPLE_SPAN,
    SERVE_ATTEMPTS,
    SPEED_LIMIT,
};

verus! {

/// The square of the speed at which a ball is served.
pub const SQUARE_OF_BALL_SPEED: u128 = 490_000_000_000;

/// The model of a ball: the square that bounds it and its velocity.
pub struct BallView {
    pub rect: Region,
    pub velocity: Motion,
}

impl BallView {
    /// The square has a ball's size and lies where positions can lie, and
    /// the speed is within the limit of speeds.
    pub open spec fn wf(self) -> bool {
        &&& self.rect.w == BALL_SIDE
        &&& self.rect.h == BALL_SIDE
        &&& -POSITION_LIMIT <= self.rect.x <= POSITION_LIMIT
        &&& -POSITION_LIMIT <= self.rect.y <= POSITION_LIMIT
        &&& self.velocity.speed() <= SPEED_LIMIT
    }
}

/// The ball after `dt` microseconds of free flight.
pub open spec fn advanced(b: BallView, dt: u32) -> BallView {
    BallView {
        rect: Region {
            x: saturated(b.rect.x + b.velocity.x * dt),
            y: saturated(b.rect.y + b.velocity.y * dt),
            w: b.rect.w,
            h: b.rect.h,
        },
        velocity: b.velocity,
    }
}

/// The ball touches or has passed the left or the right edge of the screen.
pub open spec fn exits(b: BallView, screen: Screen) -> bool {
    b.rect.left() <= 0 || b.rect.right() >= screen.width
}

/// The ball after the top and bottom of the screen have had their say: one
/// that has passed either is put back on it with its vertical speed reversed.
pub open spec fn reflected(b: BallView, screen: Screen) -> BallView {
    if b.rect.top() < 0 {
        BallView { rect: b.rect.at_height(0), velocity: b.velocity.mirrored() }
    } else if b.rect.bottom() > screen.height {
        BallView { rect: b.rect.at_height(screen.height - b.rect.h), velocity: b.velocity.mirrored() }
    } else {
        b
    }
}

/// How far the centre of the bat lies below the centre of the ball.
pub open spec fn offset(b: BallView, bat: Region) -> int {
    (bat.y + BAT_HALF_HEIGHT) - (b.rect.y + BALL_RADIUS)
}

/// The centres of ball and bat are no further apart vertically than they
/// can be while the two touch.
pub open spec fn within_reach(b: BallView, bat: Region) -> bool {
    -(BAT_HALF_HEIGHT + BALL_RADIUS) <= offset(b, bat) <= BAT_HALF_HEIGHT + BALL_RADIUS
}

/// The angle to the horizontal at which a ball leaves a bat at offset `d`.
/// It grows in proportion to the distance of the two centres, from nothing
/// where they are level to 60 degrees at either end of the bat, and on
/// beyond the ends. In units of angle it is twice that distance.
pub open spec fn angle_at(d: int) -> int {
    if d < 0 {
        -2 * d
    } else {
        2 * d
    }
}

/// The part of a velocity of magnitude `length` that lies across an angle
/// of up to half a right angle: `length` times the angle's sine, rounded to
/// nearest.
pub open spec fn part_at(length: nat, angle: int) -> int {
    (2 * length * sine(angle) + FRACTION_ONE) / (2 * FRACTION_ONE)
}

/// The size of a number.
pub open spec fn magnitude(v: int) -> nat {
    if v < 0 {
        (-v) as nat
    } else {
        v as nat
    }
}

/// The velocity of magnitude `length` whose shorter part is `short`, to the
/// right and down. The longer part is what `short` leaves of the magnitude,
/// rounded to nearest. Where the velocity is `steep` its horizontal part is
/// the shorter one.
pub open spec fn parts(length: nat, short: int, steep: bool) -> Motion {
    let long = nearest_root((length * length - short * short) as nat) as int;
    if steep {
        Motion { x: short, y: long }
    } else {
        Motion { x: long, y: short }
    }
}

/// The velocity of magnitude `length` whose shorter part is `short`, in the
/// given directions.
pub open spec fn heading(
    length: nat,
    short: int,
    steep: bool,
    leftward: bool,
    upward: bool,
) -> Motion {
    let v = parts(length, short, steep);
    Motion {
        x: if leftward {
            -v.x
        } else {
            v.x
        },
        y: if upward {
            -v.y
        } else {
            v.y
        },
    }
}

/// The velocity of magnitude `length` at an angle `within` a right angle to
/// the horizontal: the magnitude times the angle's cosine and sine. Up to
/// half a right angle the vertical part is the magnitude times the angle's
/// sine; beyond, the horizontal part is the magnitude times the sine of
/// what the angle leaves of a right angle, which is the angle's cosine.
pub open spec fn raised(length: nat, within: int) -> Motion {
    if within > HALF_RIGHT_ANGLE {
        parts(length, part_at(length, RIGHT_ANGLE - within), true)
    } else {
        parts(length, part_at(length, within), false)
    }
}

/// The velocity of magnitude `length` at any `angle` to the horizontal that
/// is not negative: the magnitude times the angle's cosine and sine, each
/// with its sign. Whole right angles turn the velocity of what is left of
/// the angle by a quarter each.
pub open spec fn turned(length: nat, angle: int) -> Motion {
    let reduced = angle % (FULL_TURN as int);
    let quarter = reduced / (RIGHT_ANGLE as int);
    let v = raised(length, reduced % (RIGHT_ANGLE as int));
    if quarter == 0 {
        v
    } else if quarter == 1 {
        Motion { x: -v.y, y: v.x }
    } else if quarter == 2 {
        Motion { x: -v.x, y: -v.y }
    } else {
        Motion { x: v.y, y: -v.x }
    }
}

/// The ball after a bat has sent it back. It keeps its place and its speed.
/// Its velocity is the speed times the cosine and the sine of the angle
/// that the offset asks for; the horizontal part is reversed where the ball
/// came moving right or not at all, the vertical where the bat's centre
/// lies below the ball's.
pub open spec fn deflected(b: BallView, bat: Region) -> BallView {
    let d = offset(b, bat);
    let v = turned(b.velocity.speed(), angle_at(d));
    BallView {
        rect: b.rect,
        velocity: Motion {
            x: if b.velocity.x < 0 {
                v.x
            } else {
                -v.x
            },
            y: if d > 0 {
                -v.y
            } else {
                v.y
            },
        },
    }
}

/// The square of the sine of an angle of up to a right angle, as a fraction
/// of `FRACTION_ONE` squared. Beyond half a right angle it is what the
/// square of the cosine leaves of one.
pub open spec fn sine_squared(angle: int) -> nat {
    if angle > HALF_RIGHT_ANGLE {
        (FRACTION_ONE * FRACTION_ONE - sine(RIGHT_ANGLE - angle) * sine(RIGHT_ANGLE - angle)) as nat
    } else {
        (sine(angle) * sine(angle)) as nat
    }
}

/// The square of the cosine of an angle of up to a right angle: what the
/// square of the sine leaves of one.
pub open spec fn cosine_squared(angle: int) -> nat {
    (FRACTION_ONE * FRACTION_ONE - sine_squared(angle)) as nat
}

/// The ball after the bats have had their say: the first bat sends back a
/// ball that touches it and moves left, the second one that touches it and
/// moves right, and never both.
pub open spec fn answered(b: BallView, first: Region, second: Region) -> BallView {
    if b.rect.overlaps(first) && b.velocity.x < 0 {
        deflected(b, first)
    } else if b.rect.overlaps(second) && b.velocity.x > 0 {
        deflected(b, second)
    } else {
        b
    }
}

/// The ball after a frame of `dt` microseconds. One that leaves the screen
/// sideways is only moved.
pub open spec fn flown(
    b: BallView,
    dt: u32,
    first: Region,
    second: Region,
    screen: Screen,
) -> BallView {
    let a = advanced(b, dt);
    if exits(a, screen) {
        a
    } else {
        answered(reflected(a, screen), first, second)
    }
}

/// The square that bounds a ball in the middle of the screen.
pub open spec fn centred(screen: Screen) -> Region {
    Region {
        x: screen.width / 2 - BALL_RADIUS,
        y: screen.height / 2 - BALL_RADIUS,
        w: BALL_SIDE as int,
        h: BALL_SIDE as int,
    }
}

/// The shorter part of the velocity of a serve in the direction
/// (`sx`, `sy`): the serving speed times the smaller of the two coordinates
/// over the direction's length, rounded to nearest after its square was
/// rounded down.
pub open spec fn serve_part(sx: int, sy: int) -> int {
    let least = if sx * sx < sy * sy {
        sx * sx
    } else {
        sy * sy
    };
    nearest_root((SQUARE_OF_BALL_SPEED * least / (sx * sx + sy * sy)) as nat) as int
}

/// The ball as it is served in the direction (`sx`, `sy`), which is not
/// (0, 0): in the middle of the screen, at the serving speed.
pub open spec fn served(screen: Screen, sx: int, sy: int) -> BallView {
    BallView {
        rect: centred(screen),
        velocity: heading(
            BALL_SPEED as nat,
            serve_part(sx, sy),
            sx * sx < sy * sy,
            sx < 0,
            sy < 0,
        ),
    }
}

/// The ball is a serve in one of the directions that can be drawn.
pub open spec fn is_serve(b: BallView, screen: Screen) -> bool {
    exists|sx: int, sy: int|
        {
            &&& -SAMPLE_SPAN <= sx <= SAMPLE_SPAN
            &&& -SAMPLE_SPAN <= sy <= SAMPLE_SPAN
            &&& (sx != 0 || sy != 0)
            &&& b == #[trigger] served(screen, sx, sy)
        }
}

/// The shorter part of a serve is a rounding of the serving speed times the
/// smaller coordinate over the direction's length.
pub proof fn lemma_serve_part_rounds(sx: int, sy: int)
    requires
        sx != 0 || sy != 0,
    ensures
        0 <= serve_part(sx, sy) <= BALL_SPEED,
        0 <= SQUARE_OF_BALL_SPEED * (if sx * sx < sy * sy {
            sx * sx
        } else {
            sy * sy
        }) / (sx * sx + sy * sy) <= SQUARE_OF_BALL_SPEED,
        sx * sx < sy * sy ==> rounds(
            serve_part(sx, sy) as nat,
            BALL_SPEED as nat,
            (sx * sx) as nat,
            (sx * sx + sy * sy) as nat,
        ),
        sx * sx >= sy * sy ==> rounds(
            serve_part(sx, sy) as nat,
            BALL_SPEED as nat,
            (sy * sy) as nat,
            (sx * sx + sy * sy) as nat,
        ),
{
    let xx = sx * sx;
    let yy = sy * sy;
    assert(0 <= xx && 0 <= yy && 0 < xx + yy) by (nonlinear_arith)
        requires
            xx == sx * sx,
            yy == sy * sy,
            sx != 0 || sy != 0,
    ;
    let least = if xx < yy {
        xx
    } else {
        yy
    };
    let n = xx + yy;
    let all = SQUARE_OF_BALL_SPEED as int;
    let q = all * least / n;
    assert(0 <= q && 2 * q <= all && q * n <= all * least < (q + 1) * n) by (nonlinear_arith)
        requires
            q == all * least / n,
            0 <= least,
            2 * least <= n,
            0 < n,
            all == 490_000_000_000,
    ;
    lemma_nearest_root(q as nat);
    let c = nearest_root(q as nat);
    let l = BALL_SPEED as nat;
    assert(c <= 700_000) by (nonlinear_arith)
        requires
            c > 0 ==> c * c - c < q,
            2 * q <= 490_000_000_000,
    ;
    assert(l * l == all) by (nonlinear_arith)
        requires
            l == 700_000,
            all == 490_000_000_000,
    ;
    assert(rounds(c, l, least as nat, n as nat)) by (nonlinear_arith)
        requires
            l * l == all,
            q * n <= all * least < (q + 1) * n,
            q <= c * c + c,
            c > 0 ==> c * c - c < q,
            0 < n,
            0 <= least,
    ;
}

/// A serve is well formed and has the serving speed.
pub proof fn lemma_served_at_speed(screen: Screen, sx: int, sy: int)
    requires
        screen.wf(),
        sx != 0 || sy != 0,
    ensures
        served(screen, sx, sy).wf(),
        served(screen, sx, sy).velocity.speed() == BALL_SPEED,
{
    lemma_serve_part_rounds(sx, sy);
    lemma_heading_keeps_speed(
        BALL_SPEED as nat,
        serve_part(sx, sy),
        sx * sx < sy * sy,
        sx < 0,
        sy < 0,
    );
}

/// Each part of a serve's velocity is within one unit of speed of the
/// serving speed times its coordinate of the direction over the
/// direction's length, and points the way its coordinate does.
pub proof fn lemma_served_within_a_unit(screen: Screen, sx: int, sy: int)
    requires
        sx != 0 || sy != 0,
    ensures
        within_a_unit(
            magnitude(served(screen, sx, sy).velocity.x),
            BALL_SPEED as nat,
            (sx * sx) as nat,
            (sx * sx + sy * sy) as nat,
        ),
        within_a_unit(
            magnitude(served(screen, sx, sy).velocity.y),
            BALL_SPEED as nat,
            (sy * sy) as nat,
            (sx * sx + sy * sy) as nat,
        ),
        served(screen, sx, sy).velocity.x <= 0 <==> sx < 0 || served(screen, sx, sy).velocity.x == 0,
        served(screen, sx, sy).velocity.y <= 0 <==> sy < 0 || served(screen, sx, sy).velocity.y == 0,
{
    lemma_serve_part_rounds(sx, sy);
    let xx = sx * sx;
    let yy = sy * sy;
    assert(0 <= xx && 0 <= yy && 0 < xx + yy) by (nonlinear_arith)
        requires
            xx == sx * sx,
            yy == sy * sy,
            sx != 0 || sy != 0,
    ;
    let n = (xx + yy) as nat;
    let c = serve_part(sx, sy) as nat;
    lemma_legs_keep_length(BALL_SPEED as nat, c);
    if xx < yy {
        lemma_parts_within_a_unit(BALL_SPEED as nat, c, xx as nat, n);
        assert((n - xx as nat) as nat == yy as nat);
    } else {
        lemma_parts_within_a_unit(BALL_SPEED as nat, c, yy as nat, n);
        assert((n - yy as nat) as nat == xx as nat);
    }
}

/// In a frame in which the ball stays on the screen, moves left and comes
/// to touch the first bat, that bat sends it back, once, wherever the second
/// bat is; the ball then moves right or not at all.
pub proof fn lemma_first_bat_answers_alone(
    b: BallView,
    dt: u32,
    first: BatView,
    second: BatView,
    screen: Screen,
)
    requires
        b.wf(),
        first.wf(),
        b.velocity.x < 0,
        !exits(advanced(b, dt), screen),
        reflected(advanced(b, dt), screen).rect.overlaps(first.rect),
    ensures
        flown(b, dt, first.rect, second.rect, screen) == deflected(
            reflected(advanced(b, dt), screen),
            first.rect,
        ),
        flown(b, dt, first.rect, second.rect, screen).velocity.x >= 0,
{
    let r = reflected(advanced(b, dt), screen);
    lemma_deflected_turns_round(r, first.rect);
}

/// A frame leaves a ball well formed and at the speed that it had, whether
/// it meets an edge of the screen, a bat or nothing at all.
pub proof fn lemma_flight_keeps_speed(
    b: BallView,
    dt: u32,
    first: BatView,
    second: BatView,
    screen: Screen,
)
    requires
        b.wf(),
        first.wf(),
        second.wf(),
        screen.wf(),
    ensures
        flown(b, dt, first.rect, second.rect, screen).wf(),
        flown(b, dt, first.rect, second.rect, screen).velocity.speed() == b.velocity.speed(),
{
    let a = advanced(b, dt);
    let r = reflected(a, screen);
    let y = b.velocity.y;
    assert((-y) * (-y) == y * y) by (nonlinear_arith);
    if r.rect.overlaps(first.rect) {
        lemma_deflected_keeps_speed(r, first.rect);
    }
    if r.rect.overlaps(second.rect) {
        lemma_deflected_keeps_speed(r, second.rect);
    }
}

/// A hit on the middle of a bat sends the ball back level: all its speed is
/// horizontal.
pub proof fn lemma_centre_hit_is_level(b: BallView, bat: Region)
    requires
        offset(b, bat) == 0,
    ensures
        deflected(b, bat).velocity.y == 0,
        deflected(b, bat).velocity.x == if b.velocity.x >= 0 {
            -(b.velocity.speed() as int)
        } else {
            b.velocity.speed() as int
        },
{
    lemma_deflected_turns_round(b, bat);
    let length = b.velocity.speed();
    lemma_sine_of_nothing();
    assert(part_at(length, 0) == 0 && length * length - 0 * 0 == length * length) by (nonlinear_arith)
        requires
            part_at(length, 0) == (2 * length * 0 + FRACTION_ONE) / (2 * FRACTION_ONE),
            FRACTION_ONE == 1_000_000_000_000_000_000,
    ;
    assert(is_nearest_root(length * length, length)) by (nonlinear_arith);
    lemma_nearest_root(length * length);
}

/// A hit on either end of a bat sends the ball back at 60 degrees to the
/// horizontal: half its speed is horizontal, rounded down, and what that
/// leaves of it is vertical.
pub proof fn lemma_end_hit_is_steep(b: BallView, bat: Region)
    requires
        b.wf(),
        offset(b, bat) == BAT_HALF_HEIGHT || offset(b, bat) == -BAT_HALF_HEIGHT,
    ensures
        deflected(b, bat).velocity == heading(
            b.velocity.speed(),
            b.velocity.speed() as int / 2,
            true,
            b.velocity.x >= 0,
            offset(b, bat) > 0,
        ),
        deflected(b, bat).velocity.speed() == b.velocity.speed(),
{
    let length = b.velocity.speed();
    lemma_deflected_turns_round(b, bat);
    lemma_sine_of_thirty_degrees();
    assert(part_at(length, 75_000_000_000) == length / 2) by (nonlinear_arith)
        requires
            0 <= length <= 268_435_456,
            part_at(length, 75_000_000_000) == (2 * length * 499_999_999_999_964_344
                + 1_000_000_000_000_000_000) / (2 * 1_000_000_000_000_000_000),
    ;
    lemma_deflected_keeps_speed(b, bat);
}

/// A speed is within a bound exactly if its square is within the bound's
/// square and the bound.
pub proof fn lemma_speed_bound(v: Motion, bound: nat)
    ensures
        v.speed() <= bound <==> v.speed_squared() <= bound * bound + bound,
{
    let s = v.speed_squared();
    let r = v.speed();
    lemma_nearest_root(s);
    assert(r <= bound <==> s <= bound * bound + bound) by (nonlinear_arith)
        requires
            s <= r * r + r,
            r > 0 ==> r * r - r < s,
    ;
}

/// Neither part of a velocity is larger than its speed.
pub proof fn lemma_parts_within_speed(v: Motion, bound: nat)
    requires
        v.speed() <= bound,
    ensures
        -bound <= v.x <= bound,
        -bound <= v.y <= bound,
{
    lemma_speed_bound(v, bound);
    let x = v.x;
    let y = v.y;
    assert(-bound <= x <= bound && -bound <= y <= bound) by (nonlinear_arith)
        requires
            x * x + y * y <= bound * bound + bound,
            bound >= 0,
    ;
}

/// The part across an angle of up to half a right angle is a rounding of
/// the magnitude times the angle's sine, and no larger than the magnitude.
pub proof fn lemma_part_rounds(length: nat, angle: int)
    requires
        0 <= angle <= HALF_RIGHT_ANGLE,
    ensures
        0 <= part_at(length, angle) <= length,
        rounds(
            part_at(length, angle) as nat,
            length,
            (sine(angle) * sine(angle)) as nat,
            (FRACTION_ONE * FRACTION_ONE) as nat,
        ),
{
    lemma_sine_is_short(angle);
    let one = FRACTION_ONE as int;
    let s = sine(angle);
    let c = part_at(length, angle);
    let twice = 2 * length * s;
    assert(0 <= twice && 0 <= c <= length && (2 * c - 1) * one <= twice < (2 * c + 1) * one)
        by (nonlinear_arith)
        requires
            0 <= s <= one,
            one == 1_000_000_000_000_000_000,
            twice == 2 * length * s,
            c == (twice + one) / (2 * one),
    ;
    assert(4 * (length * length * (s * s)) == twice * twice) by (nonlinear_arith)
        requires
            twice == 2 * length * s,
    ;
    let low = (2 * c - 1) * one;
    let high = (2 * c + 1) * one;
    assert(twice * twice < high * high && (c > 0 ==> low * low <= twice * twice))
        by (nonlinear_arith)
        requires
            0 <= twice < high,
            c > 0 ==> 0 <= low <= twice,
    ;
    assert(high * high == (4 * (c * c) + 4 * c + 1) * (one * one) && low * low == (4 * (c * c) - 4
        * c + 1) * (one * one) && one * one > 0) by (nonlinear_arith)
        requires
            high == (2 * c + 1) * one,
            low == (2 * c - 1) * one,
            one > 0,
    ;
    let den = one * one;
    let x = length * length * (s * s);
    assert(x < (c * c + c + 1) * den && (c > 0 ==> (c * c - c) * den < x)) by (nonlinear_arith)
        requires
            4 * x < (4 * (c * c) + 4 * c + 1) * den,
            c > 0 ==> (4 * (c * c) - 4 * c + 1) * den <= 4 * x,
            den > 0,
    ;
    assert(s * s >= 0) by (nonlinear_arith);
}

/// The two parts have the magnitude they were made with.
pub proof fn lemma_parts_keep_speed(length: nat, short: int, steep: bool)
    requires
        0 <= short <= length,
    ensures
        parts(length, short, steep).speed() == length,
        0 <= parts(length, short, steep).x <= length,
        0 <= parts(length, short, steep).y <= length,
{
    lemma_legs_keep_length(length, short as nat);
    let long = nearest_root((length * length - short * short) as nat) as int;
    let v = parts(length, short, steep);
    assert(v.x * v.x + v.y * v.y == short * short + long * long) by (nonlinear_arith)
        requires
            v.x == short && v.y == long || v.x == long && v.y == short,
    ;
}

/// A heading has the magnitude it was made with.
pub proof fn lemma_heading_keeps_speed(
    length: nat,
    short: int,
    steep: bool,
    leftward: bool,
    upward: bool,
)
    requires
        0 <= short <= length,
    ensures
        heading(length, short, steep, leftward, upward).speed() == length,
{
    lemma_parts_keep_speed(length, short, steep);
    let p = parts(length, short, steep);
    let v = heading(length, short, steep, leftward, upward);
    assert(v.x * v.x + v.y * v.y == p.x * p.x + p.y * p.y) by (nonlinear_arith)
        requires
            v.x == p.x || v.x == -p.x,
            v.y == p.y || v.y == -p.y,
    ;
}

/// A velocity at any angle has the magnitude it was made with.
pub proof fn lemma_turned_keeps_speed(length: nat, angle: int)
    requires
        0 <= angle,
    ensures
        turned(length, angle).speed() == length,
{
    let reduced = angle % (FULL_TURN as int);
    let within = reduced % (RIGHT_ANGLE as int);
    if within > HALF_RIGHT_ANGLE {
        lemma_part_rounds(length, RIGHT_ANGLE - within);
        lemma_parts_keep_speed(length, part_at(length, RIGHT_ANGLE - within), true);
    } else {
        lemma_part_rounds(length, within);
        lemma_parts_keep_speed(length, part_at(length, within), false);
    }
    let p = raised(length, within);
    let v = turned(length, angle);
    assert(v.x * v.x + v.y * v.y == p.x * p.x + p.y * p.y) by (nonlinear_arith)
        requires
            (v.x == p.x || v.x == -p.x) && (v.y == p.y || v.y == -p.y) || (v.x == p.y || v.x
                == -p.y) && (v.y == p.x || v.y == -p.x),
    ;
}

/// A bat sends the ball back at the speed at which it came, wherever the
/// two are.
pub proof fn lemma_deflected_keeps_speed(b: BallView, bat: Region)
    ensures
        deflected(b, bat).velocity.speed() == b.velocity.speed(),
{
    let length = b.velocity.speed();
    let angle = angle_at(offset(b, bat));
    lemma_turned_keeps_speed(length, angle);
    let p = turned(length, angle);
    let v = deflected(b, bat).velocity;
    assert(v.x * v.x + v.y * v.y == p.x * p.x + p.y * p.y) by (nonlinear_arith)
        requires
            v.x == p.x || v.x == -p.x,
            v.y == p.y || v.y == -p.y,
    ;
}

/// A bat that the ball can touch turns it round: a ball that came moving
/// left leaves moving right or not at all, and the other way round. It is
/// sent along the heading of its angle.
pub proof fn lemma_deflected_turns_round(b: BallView, bat: Region)
    requires
        within_reach(b, bat),
    ensures
        b.velocity.x < 0 ==> deflected(b, bat).velocity.x >= 0,
        b.velocity.x >= 0 ==> deflected(b, bat).velocity.x <= 0,
        deflected(b, bat).velocity == heading(
            b.velocity.speed(),
            part_at(
                b.velocity.speed(),
                if angle_at(offset(b, bat)) > HALF_RIGHT_ANGLE {
                    RIGHT_ANGLE - angle_at(offset(b, bat))
                } else {
                    angle_at(offset(b, bat))
                },
            ),
            angle_at(offset(b, bat)) > HALF_RIGHT_ANGLE,
            b.velocity.x >= 0,
            offset(b, bat) > 0,
        ),
{
    let length = b.velocity.speed();
    let angle = angle_at(offset(b, bat));
    assert(angle % (FULL_TURN as int) == angle);
    assert(angle / (RIGHT_ANGLE as int) == 0);
    assert(angle % (RIGHT_ANGLE as int) == angle);
    if angle > HALF_RIGHT_ANGLE {
        lemma_part_rounds(length, RIGHT_ANGLE - angle);
        lemma_parts_keep_speed(length, part_at(length, RIGHT_ANGLE - angle), true);
    } else {
        lemma_part_rounds(length, angle);
        lemma_parts_keep_speed(length, part_at(length, angle), false);
    }
}

/// A bat sends the ball back at the angle that its offset asks for: the
/// horizontal part of the new velocity is within one unit of speed of the
/// speed times the angle's cosine, and the vertical part within one unit of
/// the speed times the angle's sine.
pub proof fn lemma_deflected_within_a_unit(b: BallView, bat: Region)
    requires
        within_reach(b, bat),
    ensures
        within_a_unit(
            magnitude(deflected(b, bat).velocity.x),
            b.velocity.speed(),
            cosine_squared(angle_at(offset(b, bat))),
            (FRACTION_ONE * FRACTION_ONE) as nat,
        ),
        within_a_unit(
            magnitude(deflected(b, bat).velocity.y),
            b.velocity.speed(),
            sine_squared(angle_at(offset(b, bat))),
            (FRACTION_ONE * FRACTION_ONE) as nat,
        ),
{
    let length = b.velocity.speed();
    let angle = angle_at(offset(b, bat));
    let steep = angle > HALF_RIGHT_ANGLE;
    let across = if steep {
        RIGHT_ANGLE - angle
    } else {
        angle
    };
    lemma_deflected_turns_round(b, bat);
    lemma_part_rounds(length, across);
    lemma_sine_is_short(across);
    let s = sine(across);
    let num = (s * s) as nat;
    let den = (FRACTION_ONE * FRACTION_ONE) as nat;
    assert(s * s >= 0 && den > 0) by (nonlinear_arith)
        requires
            den == FRACTION_ONE * FRACTION_ONE,
            FRACTION_ONE == 1_000_000_000_000_000_000,
    ;
    lemma_parts_within_a_unit(length, part_at(length, across) as nat, num, den);
    lemma_legs_keep_length(length, part_at(length, across) as nat);
    assert((den - (den - num) as nat) as nat == num);
}

/// `v`, or the nearest coordinate that a position can have.
fn saturate(v: i64) -> (held: i64)
    ensures
        held == saturated(v as int),
{
    if v < -POSITION_LIMIT {
        -POSITION_LIMIT
    } else if v > POSITION_LIMIT {
        POSITION_LIMIT
    } else {
        v
    }
}

/// One coordinate of a direction, drawn by chance between minus the span
/// and the span. It is drawn from nothing up to twice the span and then
/// moved down by the span, so that the generator's cutting off towards
/// nothing favours no coordinate.
fn draw_coordinate() -> (drawn: i32)
    ensures
        -SAMPLE_SPAN <= drawn <= SAMPLE_SPAN,
{
    let raw: i32 = draw_between(0, 2 * SAMPLE_SPAN + 1);
    let kept: i32 = if raw > 2 * SAMPLE_SPAN {
        2 * SAMPLE_SPAN
    } else {
        raw
    };
    kept - SAMPLE_SPAN
}

/// The ball.
#[derive(Clone, Copy, Debug)]
pub struct Ball {
    rect: Rect,
    velocity: Velocity,
}

impl Ball {
    /// The ball's model.
    pub closed spec fn view(&self) -> BallView {
        BallView { rect: self.rect@, velocity: self.velocity@ }
    }

    /// The ball's model is well formed.
    pub open spec fn wf(&self) -> bool {
        self@.wf()
    }

    /// The ball whose bounding square has its corner at (`x`, `y`) and which
    /// moves at `velocity`, where the corner lies where positions can lie
    /// and the speed is within the limit of speeds.
    pub fn with_state(x: i64, y: i64, velocity: Velocity) -> (made: Option<Ball>)
        ensures
            made.is_some() <==> (BallView {
                rect: Region { x: x as int, y: y as int, w: BALL_SIDE as int, h: BALL_SIDE as int },
                velocity: velocity@,
            }).wf(),
            made.is_some() ==> made.unwrap()@ == (BallView {
                rect: Region { x: x as int, y: y as int, w: BALL_SIDE as int, h: BALL_SIDE as int },
                velocity: velocity@,
            }),
    {
        if x < -POSITION_LIMIT || x > POSITION_LIMIT || y < -POSITION_LIMIT || y > POSITION_LIMIT {
            return None;
        }
        if velocity.x < -SPEED_LIMIT || velocity.x > SPEED_LIMIT || velocity.y < -SPEED_LIMIT
            || velocity.y > SPEED_LIMIT {
            proof {
                if velocity@.speed() <= SPEED_LIMIT {
                    lemma_parts_within_speed(velocity@, SPEED_LIMIT as nat);
                }
            }
            return None;
        }
        let ball = Ball { rect: Rect { x, y, w: BALL_SIDE, h: BALL_SIDE }, velocity };
        if ball.measure() <= SPEED_LIMIT as u64 {
            Some(ball)
        } else {
            None
        }
    }

    /// The ball as it is served in the direction (`sx`, `sy`): in the middle
    /// of the screen, at the serving speed. The direction (0, 0) is none,
    /// and no ball is served in it.
    pub fn launch(screen: &Screen, sx: i32, sy: i32) -> (made: Option<Ball>)
        requires
            screen.wf(),
        ensures
            made.is_some() <==> (sx != 0 || sy != 0),
            made.is_some() ==> made.unwrap()@ == served(*screen, sx as int, sy as int),
            made.is_some() ==> made.unwrap().wf(),
            made.is_some() ==> made.unwrap()@.velocity.speed() == BALL_SPEED,
            made.is_some() ==> within_a_unit(
                magnitude(made.unwrap()@.velocity.x),
                BALL_SPEED as nat,
                (sx * sx) as nat,
                (sx * sx + sy * sy) as nat,
            ),
            made.is_some() ==> within_a_unit(
                magnitude(made.unwrap()@.velocity.y),
                BALL_SPEED as nat,
                (sy * sy) as nat,
                (sx * sx + sy * sy) as nat,
            ),
    {
        if sx == 0 && sy == 0 {
            return None;
        }
        let wide_x: i64 = sx as i64;
        let wide_y: i64 = sy as i64;
        assert(0 <= wide_x * wide_x <= 0x4000_0000_0000_0000 && 0 <= wide_y * wide_y
            <= 0x4000_0000_0000_0000 && 0 < wide_x * wide_x + wide_y * wide_y) by (nonlinear_arith)
            requires
                -0x8000_0000 <= wide_x <= 0x7fff_ffff,
                -0x8000_0000 <= wide_y <= 0x7fff_ffff,
                wide_x != 0 || wide_y != 0,
        ;
        let xx: u128 = (wide_x * wide_x) as u128;
        let yy: u128 = (wide_y * wide_y) as u128;
        let steep: bool = xx < yy;
        let least: u128 = if steep {
            xx
        } else {
            yy
        };
        assert(SQUARE_OF_BALL_SPEED * least <= 490_000_000_000 * 0x4000_0000_0000_0000)
            by (nonlinear_arith)
            requires
                0 <= least <= 0x4000_0000_0000_0000,
        ;
        proof {
            lemma_serve_part_rounds(sx as int, sy as int);
            lemma_served_at_speed(*screen, sx as int, sy as int);
            lemma_served_within_a_unit(*screen, sx as int, sy as int);
            lemma_legs_keep_length(BALL_SPEED as nat, serve_part(sx as int, sy as int) as nat);
        }
        let part: u128 = SQUARE_OF_BALL_SPEED * least / (xx + yy);
        let short: u64 = nearest_sqrt(part as u64);
        let long: u64 = nearest_sqrt(SQUARE_OF_BALL_SPEED as u64 - short * short);
        let run: u64 = if steep {
            short
        } else {
            long
        };
        let rise: u64 = if steep {
            long
        } else {
            short
        };
        let velocity = Velocity {
            x: if sx < 0 {
                -(run as i64)
            } else {
                run as i64
            },
            y: if sy < 0 {
                -(rise as i64)
            } else {
                rise as i64
            },
        };
        Some(
            Ball {
                rect: Rect {
                    x: screen.width / 2 - BALL_RADIUS,
                    y: screen.height / 2 - BALL_RADIUS,
                    w: BALL_SIDE,
                    h: BALL_SIDE,
                },
                velocity,
            },
        )
    }

    /// A ball served in a direction drawn by chance: each of the
    /// direction's two coordinates is drawn on its own, between the same
    /// two bounds. Where no direction comes of it, both are drawn
    /// again; after a fixed number of such draws the ball is served
    /// straight to the right.
    pub fn new(screen: &Screen) -> (ball: Ball)
        requires
            screen.wf(),
        ensures
            ball.wf(),
            is_serve(ball@, *screen),
            ball@.rect == centred(*screen),
            ball@.velocity.speed() == BALL_SPEED,
    {
        let mut attempts: u32 = 0;
        while attempts < SERVE_ATTEMPTS
            invariant
                screen.wf(),
            decreases SERVE_ATTEMPTS - attempts,
        {
            let sx: i32 = draw_coordinate();
            let sy: i32 = draw_coordinate();
            match Ball::launch(screen, sx, sy) {
                Some(ball) => {
                    assert(ball@ == served(*screen, sx as int, sy as int));
                    return ball;
                },
                None => {},
            }
            attempts = attempts + 1;
        }
        let ball = Ball::launch(screen, SAMPLE_SPAN, 0).unwrap();
        assert(ball@ == served(*screen, SAMPLE_SPAN as int, 0));
        ball
    }

    /// The magnitude of a velocity whose parts are within the limit of
    /// speeds, rounded to the nearest unit of speed.
    fn measure(&self) -> (length: u64)
        requires
            -SPEED_LIMIT <= self.velocity.x <= SPEED_LIMIT,
            -SPEED_LIMIT <= self.velocity.y <= SPEED_LIMIT,
        ensures
            length == self@.velocity.speed(),
    {
        let x: i64 = self.velocity.x;
        let y: i64 = self.velocity.y;
        assert(0 <= x * x <= 0x100_0000_0000_0000 && 0 <= y * y <= 0x100_0000_0000_0000)
            by (nonlinear_arith)
            requires
                -0x1000_0000 <= x <= 0x1000_0000,
                -0x1000_0000 <= y <= 0x1000_0000,
        ;
        let squares: i64 = x * x + y * y;
        nearest_sqrt(squares as u64)
    }

    /// The ball's speed: the magnitude of its velocity, rounded to the
    /// nearest unit of speed.
    pub fn speed(&self) -> (length: u64)
        requires
            self.wf(),
        ensures
            length == self@.velocity.speed(),
            length <= SPEED_LIMIT,
    {
        proof {
            lemma_parts_within_speed(self@.velocity, SPEED_LIMIT as nat);
        }
        self.measure()
    }

    /// The square that bounds the ball.
    pub fn rect(&self) -> (rect: Rect)
        ensures
            rect@ == self@.rect,
    {
        self.rect
    }

    /// The ball's velocity.
    pub fn velocity(&self) -> (velocity: Velocity)
        ensures
            velocity@ == self@.velocity,
    {
        self.velocity
    }

    /// Sends the ball back from `bat`, at an angle that grows with the
    /// distance between their centres, wherever the two are.
    pub fn set_angle<K>(&mut self, bat: &Bat<K>)
        requires
            old(self).wf(),
            bat.wf(),
        ensures
            final(self)@ == deflected(old(self)@, bat@.rect),
            final(self).wf(),
            final(self)@.velocity.speed() == old(self)@.velocity.speed(),
            within_reach(old(self)@, bat@.rect) ==> within_a_unit(
                magnitude(final(self)@.velocity.x),
                old(self)@.velocity.speed(),
                cosine_squared(angle_at(offset(old(self)@, bat@.rect))),
                (FRACTION_ONE * FRACTION_ONE) as nat,
            ),
            within_reach(old(self)@, bat@.rect) ==> within_a_unit(
                magnitude(final(self)@.velocity.y),
                old(self)@.velocity.speed(),
                sine_squared(angle_at(offset(old(self)@, bat@.rect))),
                (FRACTION_ONE * FRACTION_ONE) as nat,
            ),
    {
        let bat_rect: Rect = bat.rect();
        let d: i64 = (bat_rect.y + BAT_HALF_HEIGHT) - (self.rect.y + BALL_RADIUS);
        assert(d == offset(old(self)@, bat@.rect));
        let length: u64 = self.speed();
        let angle: u64 = if d < 0 {
            2 * ((-d) as u64)
        } else {
            2 * (d as u64)
        };
        let reduced: u64 = angle % (FULL_TURN as u64);
        let quarter: u64 = reduced / (RIGHT_ANGLE as u64);
        let within: u64 = reduced % (RIGHT_ANGLE as u64);
        let steep: bool = within > HALF_RIGHT_ANGLE as u64;
        let across: u64 = if steep {
            RIGHT_ANGLE as u64 - within
        } else {
            within
        };
        let fraction: u64 = fixed_sine(across);
        assert(0 <= 2 * length * fraction <= 2 * 0x1000_0000 * 707_106_781_186_547_524)
            by (nonlinear_arith)
            requires
                0 <= length <= 0x1000_0000,
                0 <= fraction <= 707_106_781_186_547_524,
        ;
        proof {
            lemma_part_rounds(length as nat, across as int);
            lemma_parts_keep_speed(length as nat, part_at(length as nat, across as int), steep);
            lemma_legs_keep_length(length as nat, part_at(length as nat, across as int) as nat);
            lemma_deflected_keeps_speed(old(self)@, bat@.rect);
            if within_reach(old(self)@, bat@.rect) {
                lemma_deflected_within_a_unit(old(self)@, bat@.rect);
            }
            assert(length * length <= 0x100_0000_0000_0000) by (nonlinear_arith)
                requires
                    0 <= length <= 0x1000_0000,
            ;
        }
        let short: u64 = ((2 * (length as u128) * (fraction as u128) + FRACTION_ONE) / (2
            * FRACTION_ONE)) as u64;
        let long: u64 = nearest_sqrt(length * length - short * short);
        let ahead: i64 = if steep {
            short as i64
        } else {
            long as i64
        };
        let aside: i64 = if steep {
            long as i64
        } else {
            short as i64
        };
        let x: i64 = if quarter == 0 {
            ahead
        } else if quarter == 1 {
            -aside
        } else if quarter == 2 {
            -ahead
        } else {
            aside
        };
        let y: i64 = if quarter == 0 {
            aside
        } else if quarter == 1 {
            ahead
        } else if quarter == 2 {
            -aside
        } else {
            -ahead
        };
        self.velocity.x = if self.velocity.x < 0 {
            x
        } else {
            -x
        };
        self.velocity.y = if d > 0 {
            -y
        } else {
            y
        };
    }

    /// Moves the ball for `dt` microseconds and lets the edges of the screen
    /// and the two bats act on it. Returns whether the ball has left the
    /// screen at its left or right edge; such a ball has only been moved.
    pub fn update<K>(
        &mut self,
        dt: u32,
        first: &Bat<K>,
        second: &Bat<K>,
        screen: &Screen,
    ) -> (exited: bool)
        requires
            old(self).wf(),
            first.wf(),
            second.wf(),
            screen.wf(),
        ensures
            exited == exits(advanced(old(self)@, dt), *screen),
            final(self)@ == flown(old(self)@, dt, first@.rect, second@.rect, *screen),
            final(self).wf(),
            final(self)@.velocity.speed() == old(self)@.velocity.speed(),
            !exited && screen.height >= BALL_SIDE ==> 0 <= final(self)@.rect.top(),
            !exited && screen.height >= BALL_SIDE ==> final(self)@.rect.bottom() <= screen.height,
    {
        proof {
            lemma_parts_within_speed(self@.velocity, SPEED_LIMIT as nat);
        }
        let vx: i64 = self.velocity.x;
        let vy: i64 = self.velocity.y;
        assert(-0x1000_0000_0000_0000 <= vx * dt <= 0x1000_0000_0000_0000
            && -0x1000_0000_0000_0000 <= vy * dt <= 0x1000_0000_0000_0000) by (nonlinear_arith)
            requires
                -0x1000_0000 <= vx <= 0x1000_0000,
                -0x1000_0000 <= vy <= 0x1000_0000,
                0 <= dt <= 0xffff_ffff,
        ;
        self.rect.x = saturate(self.rect.x + vx * (dt as i64));
        self.rect.y = saturate(self.rect.y + vy * (dt as i64));
        if self.rect.x <= 0 || self.rect.x + BALL_SIDE >= screen.width {
            return true;
        }
        if self.rect.y < 0 {
            self.velocity.y = -self.velocity.y;
            self.rect.y = 0;
        } else if self.rect.y + BALL_SIDE > screen.height {
            self.velocity.y = -self.velocity.y;
            self.rect.y = screen.height - BALL_SIDE;
        }
        proof {
            assert((-vy) * (-vy) == vy * vy) by (nonlinear_arith);
        }
        let first_rect: Rect = first.rect();
        let second_rect: Rect = second.rect();
        if self.rect.overlaps(&first_rect) && self.velocity.x < 0 {
            proof {
                lemma_deflected_keeps_speed(self@, first@.rect);
            }
            self.set_angle(first);
        } else if self.rect.overlaps(&second_rect) && self.velocity.x > 0 {
            proof {
                lemma_deflected_keeps_speed(self@, second@.rect);
            }
            self.set_angle(second);
        }
        false
    }
}

} // verus!
