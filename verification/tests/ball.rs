use pong::ball::Ball;
use pong::bat::Bat;
use pong::geometry::{Rect, Screen, Velocity};
use pong::units::{BALL_SIDE, BALL_SPEED, PIXEL, POSITION_LIMIT, SPEED_LIMIT};

fn screen() -> Screen {
    Screen::new(800 * PIXEL, 600 * PIXEL).unwrap()
}

fn bats() -> (Bat<char>, Bat<char>) {
    (Bat::new(50 * PIXEL, ('w', 's'), &screen()), Bat::new(740 * PIXEL, ('p', ';'), &screen()))
}

fn ball(x: i64, y: i64, vx: i64, vy: i64) -> Ball {
    Ball::with_state(x, y, Velocity { x: vx, y: vy }).unwrap()
}

#[test]
fn a_ball_is_made_with_its_place_and_velocity() {
    let b = ball(400 * PIXEL, 300 * PIXEL, -700_000, 0);
    assert_eq!(b.rect(), Rect { x: 400 * PIXEL, y: 300 * PIXEL, w: BALL_SIDE, h: BALL_SIDE });
    assert_eq!(b.rect().w, 30 * PIXEL);
    assert_eq!(b.velocity(), Velocity { x: -700_000, y: 0 });
    assert_eq!(b.speed(), 700_000);
}

#[test]
fn a_ball_beyond_the_limits_is_not_made() {
    let still = Velocity { x: 0, y: 0 };
    assert!(Ball::with_state(POSITION_LIMIT, -POSITION_LIMIT, still).is_some());
    assert!(Ball::with_state(POSITION_LIMIT + 1, 0, still).is_none());
    assert!(Ball::with_state(0, -POSITION_LIMIT - 1, still).is_none());
    assert!(Ball::with_state(0, 0, Velocity { x: SPEED_LIMIT, y: 0 }).is_some());
    assert!(Ball::with_state(0, 0, Velocity { x: SPEED_LIMIT, y: 16_384 }).is_some());
    assert!(Ball::with_state(0, 0, Velocity { x: SPEED_LIMIT, y: 16_385 }).is_none());
    assert!(Ball::with_state(0, 0, Velocity { x: SPEED_LIMIT + 1, y: 0 }).is_none());
    assert!(Ball::with_state(0, 0, Velocity { x: 0, y: -SPEED_LIMIT - 1 }).is_none());
    assert!(Ball::with_state(0, 0, Velocity { x: i64::MIN, y: i64::MAX }).is_none());
}

#[test]
fn the_speed_is_the_magnitude_rounded_to_nearest() {
    assert_eq!(ball(0, 0, 3, 4).speed(), 5);
    assert_eq!(ball(0, 0, 1, 1).speed(), 1);
    assert_eq!(ball(0, 0, -2, 2).speed(), 3);
    assert_eq!(ball(0, 0, 500_000, -500_000).speed(), 707_107);
    assert_eq!(ball(0, 0, 0, 0).speed(), 0);
}

#[test]
fn a_ball_moves_by_its_velocity_times_the_time() {
    let (p1, p2) = bats();
    let mut b = ball(400 * PIXEL, 300 * PIXEL, -700_000, 100);
    assert!(!b.update(1_000, &p1, &p2, &screen()));
    assert_eq!(b.rect(), Rect { x: 399_300_000_000, y: 300_000_100_000, w: BALL_SIDE, h: BALL_SIDE });
    assert_eq!(b.velocity(), Velocity { x: -700_000, y: 100 });
}

#[test]
fn a_ball_past_the_left_edge_exits() {
    let (p1, p2) = bats();
    for (vx, vy) in [(-700_000i64, 0i64), (700_000, 0), (0, 0), (300, -400), (0, 700_000)] {
        let mut b = ball(-PIXEL, 300 * PIXEL, vx, vy);
        assert!(b.update(0, &p1, &p2, &screen()));
        assert_eq!(b.rect().x, -PIXEL);
        assert_eq!(b.rect().y, 300 * PIXEL);
        assert_eq!(b.velocity(), Velocity { x: vx, y: vy });
    }
}

#[test]
fn a_ball_that_touches_a_side_edge_exits() {
    let (p1, p2) = bats();
    let mut left = ball(0, 300 * PIXEL, -700_000, 0);
    assert!(left.update(0, &p1, &p2, &screen()));
    let mut inside = ball(1, 300 * PIXEL, -700_000, 0);
    assert!(!inside.update(0, &p1, &p2, &screen()));
    let mut right = ball(770 * PIXEL, 300 * PIXEL, 700_000, 0);
    assert!(right.update(0, &p1, &p2, &screen()));
    let mut within = ball(770 * PIXEL - 1, 300 * PIXEL, 700_000, 0);
    assert!(!within.update(0, &p1, &p2, &screen()));
}

#[test]
fn a_ball_that_exits_is_moved_and_nothing_else() {
    let (p1, p2) = bats();
    let mut b = ball(5 * PIXEL, -20 * PIXEL, -700_000, -100_000);
    assert!(b.update(10_000, &p1, &p2, &screen()));
    assert_eq!(b.rect().x, -2 * PIXEL);
    assert_eq!(b.rect().y, -21 * PIXEL);
    assert_eq!(b.velocity(), Velocity { x: -700_000, y: -100_000 });
}

#[test]
fn a_ball_above_the_top_is_put_back_and_turned() {
    let (p1, p2) = bats();
    let mut b = ball(400 * PIXEL, -5 * PIXEL, 0, -300_000);
    assert!(!b.update(0, &p1, &p2, &screen()));
    assert_eq!(b.rect().y, 0);
    assert_eq!(b.rect().x, 400 * PIXEL);
    assert_eq!(b.velocity(), Velocity { x: 0, y: 300_000 });
}

#[test]
fn a_ball_that_flies_over_the_top_is_put_back_and_turned() {
    let (p1, p2) = bats();
    let mut b = ball(400 * PIXEL, PIXEL, 400_000, -300_000);
    assert!(!b.update(10_000, &p1, &p2, &screen()));
    assert_eq!(b.rect().y, 0);
    assert_eq!(b.rect().x, 404 * PIXEL);
    assert_eq!(b.velocity(), Velocity { x: 400_000, y: 300_000 });
    assert_eq!(b.speed(), 500_000);
}

#[test]
fn a_ball_below_the_bottom_is_put_back_and_turned() {
    let (p1, p2) = bats();
    let mut b = ball(400 * PIXEL, 570 * PIXEL + 1, 400_000, 300_000);
    assert!(!b.update(0, &p1, &p2, &screen()));
    assert_eq!(b.rect().y, 570 * PIXEL);
    assert_eq!(b.velocity(), Velocity { x: 400_000, y: -300_000 });
}

#[test]
fn a_ball_on_the_top_or_bottom_edge_flies_on() {
    let (p1, p2) = bats();
    let mut top = ball(400 * PIXEL, 0, 0, -300_000);
    assert!(!top.update(0, &p1, &p2, &screen()));
    assert_eq!(top.velocity(), Velocity { x: 0, y: -300_000 });
    let mut bottom = ball(400 * PIXEL, 570 * PIXEL, 0, 300_000);
    assert!(!bottom.update(0, &p1, &p2, &screen()));
    assert_eq!(bottom.rect().y, 570 * PIXEL);
    assert_eq!(bottom.velocity(), Velocity { x: 0, y: 300_000 });
}

#[test]
fn a_hit_on_the_top_end_of_the_first_bat_sends_the_ball_up_at_sixty_degrees() {
    let (p1, p2) = bats();
    let mut b = ball(40 * PIXEL, 210 * PIXEL, -700_000, 0);
    assert!(!b.update(0, &p1, &p2, &screen()));
    assert_eq!(b.velocity(), Velocity { x: 350_000, y: -606_218 });
    assert_eq!(b.rect(), Rect { x: 40 * PIXEL, y: 210 * PIXEL, w: BALL_SIDE, h: BALL_SIDE });
}

#[test]
fn a_hit_on_the_bottom_end_of_the_first_bat_sends_the_ball_down_at_sixty_degrees() {
    let (p1, p2) = bats();
    let mut b = ball(40 * PIXEL, 360 * PIXEL, -700_000, 0);
    assert!(!b.update(0, &p1, &p2, &screen()));
    assert_eq!(b.velocity(), Velocity { x: 350_000, y: 606_218 });
}

#[test]
fn a_hit_on_the_middle_of_a_bat_sends_the_ball_back_level() {
    let (p1, p2) = bats();
    let mut b = ball(40 * PIXEL, 285 * PIXEL, -420_000, 560_000);
    assert!(!b.update(0, &p1, &p2, &screen()));
    assert_eq!(b.velocity(), Velocity { x: 700_000, y: 0 });
    let mut back = ball(720 * PIXEL, 285 * PIXEL, 420_000, -560_000);
    assert!(!back.update(0, &p1, &p2, &screen()));
    assert_eq!(back.velocity(), Velocity { x: -700_000, y: 0 });
}

#[test]
fn a_hit_halfway_to_the_end_of_a_bat_sends_the_ball_back_at_thirty_degrees() {
    let (p1, p2) = bats();
    let mut b = ball(40 * PIXEL, 247 * PIXEL + PIXEL / 2, -700_000, 0);
    assert!(!b.update(0, &p1, &p2, &screen()));
    assert_eq!(b.velocity(), Velocity { x: 606_218, y: -350_000 });
}

#[test]
fn a_hit_beyond_the_end_of_a_bat_is_steeper_still() {
    let (p1, p2) = bats();
    let mut b = ball(40 * PIXEL, 195 * PIXEL, -700_000, 0);
    assert!(!b.update(0, &p1, &p2, &screen()));
    assert_eq!(b.velocity(), Velocity { x: 216_312, y: -665_740 });
    assert_eq!(b.speed(), 700_000);
}

#[test]
fn the_second_bat_sends_a_ball_back_to_the_left() {
    let (p1, p2) = bats();
    let mut b = ball(720 * PIXEL, 360 * PIXEL, 700_000, 0);
    assert!(!b.update(0, &p1, &p2, &screen()));
    assert_eq!(b.velocity(), Velocity { x: -350_000, y: 606_218 });
}

#[test]
fn a_bat_leaves_alone_a_ball_that_moves_away_from_it() {
    let (p1, p2) = bats();
    let mut leaving = ball(40 * PIXEL, 210 * PIXEL, 700_000, 0);
    assert!(!leaving.update(0, &p1, &p2, &screen()));
    assert_eq!(leaving.velocity(), Velocity { x: 700_000, y: 0 });
    let mut other = ball(720 * PIXEL, 210 * PIXEL, -700_000, 0);
    assert!(!other.update(0, &p1, &p2, &screen()));
    assert_eq!(other.velocity(), Velocity { x: -700_000, y: 0 });
    let mut upright = ball(40 * PIXEL, 210 * PIXEL, 0, 700_000);
    assert!(!upright.update(0, &p1, &p2, &screen()));
    assert_eq!(upright.velocity(), Velocity { x: 0, y: 700_000 });
}

#[test]
fn a_bat_leaves_alone_a_ball_that_does_not_touch_it() {
    let (p1, p2) = bats();
    let mut beside = ball(51 * PIXEL + 1, 300 * PIXEL, -700_000, 0);
    assert!(!beside.update(0, &p1, &p2, &screen()));
    assert_eq!(beside.velocity(), Velocity { x: -700_000, y: 0 });
    let mut above = ball(40 * PIXEL, 195 * PIXEL - 1, -700_000, 0);
    assert!(!above.update(0, &p1, &p2, &screen()));
    assert_eq!(above.velocity(), Velocity { x: -700_000, y: 0 });
    let mut touching = ball(51 * PIXEL, 300 * PIXEL, -700_000, 0);
    assert!(!touching.update(0, &p1, &p2, &screen()));
    assert_eq!(touching.velocity(), Velocity { x: 684_703, y: 145_538 });
}

#[test]
fn a_ball_that_touches_both_bats_answers_to_one() {
    let first: Bat<char> = Bat::new(50 * PIXEL, ('w', 's'), &screen());
    let second: Bat<char> = Bat::new(60 * PIXEL, ('p', ';'), &screen());
    let (_, far) = bats();
    let mut b = ball(40 * PIXEL, 210 * PIXEL, -700_000, 0);
    assert!(!b.update(0, &first, &second, &screen()));
    let mut alone = ball(40 * PIXEL, 210 * PIXEL, -700_000, 0);
    assert!(!alone.update(0, &first, &far, &screen()));
    assert_eq!(b.velocity(), alone.velocity());
    assert_eq!(b.velocity(), Velocity { x: 350_000, y: -606_218 });
}

#[test]
fn a_ball_put_back_from_the_top_still_meets_the_bat() {
    let high: Bat<char> = {
        let mut bat = Bat::new(50 * PIXEL, ('w', 's'), &screen());
        bat.input(true, false);
        bat.update(1_000_000, &screen());
        bat
    };
    let (_, p2) = bats();
    let mut b = ball(40 * PIXEL, -5 * PIXEL, -420_000, -560_000);
    assert!(!b.update(0, &high, &p2, &screen()));
    assert_eq!(b.rect().y, 0);
    assert_eq!(b.velocity(), Velocity { x: 468_391, y: -520_202 });
    assert_eq!(b.speed(), 700_000);
}

#[test]
fn set_angle_turns_the_ball_round_and_keeps_its_place() {
    let (p1, _) = bats();
    let mut b = ball(40 * PIXEL, 210 * PIXEL, -700_000, 0);
    b.set_angle(&p1);
    assert_eq!(b.velocity(), Velocity { x: 350_000, y: -606_218 });
    assert_eq!(b.rect(), Rect { x: 40 * PIXEL, y: 210 * PIXEL, w: BALL_SIDE, h: BALL_SIDE });
    b.set_angle(&p1);
    assert_eq!(b.velocity(), Velocity { x: -350_000, y: -606_218 });
}

#[test]
fn set_angle_sends_a_ball_without_speed_nowhere() {
    let (p1, _) = bats();
    let mut b = ball(40 * PIXEL, 210 * PIXEL, 0, 0);
    b.set_angle(&p1);
    assert_eq!(b.velocity(), Velocity { x: 0, y: 0 });
}

#[test]
fn the_speed_stays_through_a_long_rally() {
    let mut p1: Bat<char> = Bat::new(50 * PIXEL, ('w', 's'), &screen());
    let mut p2: Bat<char> = Bat::new(740 * PIXEL, ('p', ';'), &screen());
    let mut b = ball(385 * PIXEL, 285 * PIXEL, -420_000, 560_000);
    let mut frame: u32 = 0;
    let mut hits: u32 = 0;
    let mut last = b.velocity().x;
    while frame < 20_000 {
        let centre = b.rect().y + BALL_SIDE / 2;
        let offset: i64 = if frame % 200 < 100 { 40 * PIXEL } else { -55 * PIXEL };
        p1.input(p1.rect().y + 75 * PIXEL + offset > centre, p1.rect().y + 75 * PIXEL + offset < centre);
        p2.input(p2.rect().y + 75 * PIXEL - offset > centre, p2.rect().y + 75 * PIXEL - offset < centre);
        p1.update(4_000, &screen());
        p2.update(4_000, &screen());
        if b.update(4_000, &p1, &p2, &screen()) {
            b = ball(385 * PIXEL, 285 * PIXEL, -420_000, 560_000);
        }
        assert_eq!(b.speed(), 700_000);
        assert!(b.rect().y >= 0 && b.rect().y + BALL_SIDE <= 600 * PIXEL);
        if (b.velocity().x < 0) != (last < 0) {
            hits += 1;
        }
        last = b.velocity().x;
        frame += 1;
    }
    assert!(hits > 10);
}

#[test]
fn a_position_stops_at_the_limit() {
    let (p1, p2) = bats();
    let mut b = ball(POSITION_LIMIT - 5, 10 - POSITION_LIMIT, 700_000, -700);
    assert!(b.update(1_000_000, &p1, &p2, &screen()));
    assert_eq!(b.rect().x, POSITION_LIMIT);
    assert_eq!(b.rect().y, -POSITION_LIMIT);
    let mut fast = ball(0, 0, SPEED_LIMIT, 0);
    assert!(fast.update(u32::MAX, &p1, &p2, &screen()));
    assert_eq!(fast.rect().x, 268_435_456 * 4_294_967_295);
    assert!(fast.update(u32::MAX, &p1, &p2, &screen()));
    assert_eq!(fast.rect().x, POSITION_LIMIT);
}

#[test]
fn no_ball_is_served_in_no_direction() {
    assert!(Ball::launch(&screen(), 0, 0).is_none());
}

#[test]
fn a_serve_starts_in_the_middle_of_the_screen() {
    let b = Ball::launch(&screen(), 1, -1).unwrap();
    assert_eq!(b.rect(), Rect { x: 385 * PIXEL, y: 285 * PIXEL, w: BALL_SIDE, h: BALL_SIDE });
    let odd = Screen::new(7, 9).unwrap();
    let c = Ball::launch(&odd, 1, -1).unwrap();
    assert_eq!(c.rect().x, 3 - 15 * PIXEL);
    assert_eq!(c.rect().y, 4 - 15 * PIXEL);
}

#[test]
fn a_serve_has_the_direction_that_was_drawn() {
    let of = |sx: i32, sy: i32| Ball::launch(&screen(), sx, sy).unwrap().velocity();
    assert_eq!(of(3, 4), Velocity { x: 420_000, y: 560_000 });
    assert_eq!(of(-3, -4), Velocity { x: -420_000, y: -560_000 });
    assert_eq!(of(3, -4), Velocity { x: 420_000, y: -560_000 });
    assert_eq!(of(1_000_000, 0), Velocity { x: 700_000, y: 0 });
    assert_eq!(of(-1, 0), Velocity { x: -700_000, y: 0 });
    assert_eq!(of(0, -5), Velocity { x: 0, y: -700_000 });
    assert_eq!(of(0, 5), Velocity { x: 0, y: 700_000 });
    assert_eq!(of(-1_000_000, -1_000_000), Velocity { x: -494_974, y: -494_975 });
    assert_eq!(of(1, 1), Velocity { x: 494_974, y: 494_975 });
    assert_eq!(of(i32::MIN, i32::MAX), Velocity { x: -494_974, y: 494_975 });
}

#[test]
fn a_serve_close_to_an_axis_stays_close_to_it() {
    let of = |sx: i32, sy: i32| Ball::launch(&screen(), sx, sy).unwrap().velocity();
    assert_eq!(of(999_999, 1), Velocity { x: 700_000, y: 0 });
    assert_eq!(of(-1, 999_999), Velocity { x: 0, y: 700_000 });
    assert_eq!(of(1_000_000, -2), Velocity { x: 700_000, y: -1 });
    assert_eq!(of(7, 2), Velocity { x: 673_067, y: 192_305 });
    assert_eq!(of(2, -7), Velocity { x: 192_305, y: -673_067 });
}

#[test]
fn each_part_of_a_serve_is_within_a_unit_of_the_direction_drawn() {
    let mut sx: i32 = -1_000_000;
    while sx <= 1_000_000 {
        let mut sy: i32 = -1_000_000;
        while sy <= 1_000_000 {
            if sx != 0 || sy != 0 {
                let v = Ball::launch(&screen(), sx, sy).unwrap().velocity();
                let length = ((sx as f64) * (sx as f64) + (sy as f64) * (sy as f64)).sqrt();
                assert!((v.x as f64 - 700_000.0 * sx as f64 / length).abs() <= 1.0);
                assert!((v.y as f64 - 700_000.0 * sy as f64 / length).abs() <= 1.0);
            }
            sy += 39_999;
        }
        sx += 40_001;
    }
}

#[test]
fn each_part_of_a_bounce_is_within_a_unit_of_the_angle() {
    let (p1, _) = bats();
    for speed in [1i64, 1_000, 699_999, 700_000, 123_457, SPEED_LIMIT - 1, SPEED_LIMIT] {
        let mut top: i64 = 195 * PIXEL;
        while top <= 375 * PIXEL {
            let mut b = ball(40 * PIXEL, top, -speed, 0);
            b.set_angle(&p1);
            let d = (300 * PIXEL - (top + 15 * PIXEL)) as f64;
            let angle = d.abs() / (75.0 * PIXEL as f64) * 60f64.to_radians();
            let up = if d > 0.0 { -1.0 } else { 1.0 };
            assert!((b.velocity().x as f64 - speed as f64 * angle.cos()).abs() <= 1.0);
            assert!((b.velocity().y as f64 - speed as f64 * angle.sin() * up).abs() <= 1.0);
            assert_eq!(b.speed(), speed as u64);
            top += 123_456_789;
        }
    }
}

#[test]
fn set_angle_goes_on_beyond_a_right_angle() {
    let (p1, _) = bats();
    let after = |top: i64| {
        let mut b = ball(40 * PIXEL, top, -700_000, 0);
        b.set_angle(&p1);
        b.velocity()
    };
    assert_eq!(after(172 * PIXEL + PIXEL / 2), Velocity { x: 0, y: -700_000 });
    assert_eq!(after(135 * PIXEL), Velocity { x: -350_000, y: -606_218 });
    assert_eq!(after(60 * PIXEL), Velocity { x: -700_000, y: 0 });
    assert_eq!(after(622 * PIXEL + PIXEL / 2), Velocity { x: 0, y: -700_000 });
    assert_eq!(after(-165 * PIXEL), Velocity { x: 700_000, y: 0 });
}

#[test]
fn set_angle_keeps_the_speed_wherever_the_bat_is() {
    let (p1, _) = bats();
    for top in [-POSITION_LIMIT, -POSITION_LIMIT + 1, -1_234_567_891_234_567, 987_654_321_987_654_321, POSITION_LIMIT] {
        for (vx, vy) in [(-700_000i64, 0i64), (3, 4), (0, -SPEED_LIMIT), (123_456, -654_321)] {
            let mut b = ball(40 * PIXEL, top, vx, vy);
            let speed = b.speed();
            b.set_angle(&p1);
            assert_eq!(b.speed(), speed);
        }
    }
}

#[test]
fn each_part_of_a_turn_is_within_a_unit_of_the_angle() {
    let (p1, _) = bats();
    let mut top: i64 = -2_000 * PIXEL;
    while top <= 2_000 * PIXEL {
        let mut b = ball(40 * PIXEL, top, -700_000, 0);
        b.set_angle(&p1);
        let d = (300 * PIXEL - (top + 15 * PIXEL)) as f64;
        let angle = d.abs() / (75.0 * PIXEL as f64) * 60f64.to_radians();
        let up = if d > 0.0 { -1.0 } else { 1.0 };
        assert!((b.velocity().x as f64 - 700_000.0 * angle.cos()).abs() <= 1.0);
        assert!((b.velocity().y as f64 - 700_000.0 * angle.sin() * up).abs() <= 1.0);
        top += 1_234_567_891;
    }
}

#[test]
fn a_hit_next_to_the_middle_of_a_bat_is_all_but_level() {
    let (p1, p2) = bats();
    let mut b = ball(40 * PIXEL, 285 * PIXEL - 1, -700_000, 0);
    assert!(!b.update(0, &p1, &p2, &screen()));
    assert_eq!(b.velocity(), Velocity { x: 700_000, y: 0 });
    let mut c = ball(40 * PIXEL, 285 * PIXEL + 100_000_000, -700_000, 0);
    assert!(!c.update(0, &p1, &p2, &screen()));
    assert_eq!(c.velocity(), Velocity { x: 699_999, y: 977 });
}

#[test]
fn a_serve_has_the_serving_speed() {
    for (sx, sy) in [(3, 4), (1, 0), (0, 1), (-7, 2), (999_999, -1), (1, -1_000_000), (i32::MIN, i32::MIN)] {
        let b = Ball::launch(&screen(), sx, sy).unwrap();
        assert_eq!(b.speed(), 700_000);
        assert_eq!(b.speed(), BALL_SPEED as u64);
    }
}

#[test]
fn a_new_ball_is_a_serve() {
    let mut n: u32 = 0;
    while n < 200 {
        let b = Ball::new(&screen());
        assert_eq!(b.rect(), Rect { x: 385 * PIXEL, y: 285 * PIXEL, w: BALL_SIDE, h: BALL_SIDE });
        assert_eq!(b.speed(), 700_000);
        assert!(b.velocity().x.abs() <= 700_000 && b.velocity().y.abs() <= 700_000);
        n += 1;
    }
}

#[test]
fn new_balls_are_served_in_directions_that_differ() {
    let first = Ball::new(&screen()).velocity();
    let mut others: u32 = 0;
    let mut leftward: u32 = 0;
    let mut upward: u32 = 0;
    let mut n: u32 = 0;
    while n < 200 {
        let v = Ball::new(&screen()).velocity();
        if v != first {
            others += 1;
        }
        if v.x < 0 {
            leftward += 1;
        }
        if v.y < 0 {
            upward += 1;
        }
        n += 1;
    }
    assert!(others > 100);
    assert!(leftward > 20 && leftward < 180);
    assert!(upward > 20 && upward < 180);
}
