use pong::geometry::{Rect, Screen};
use pong::units::{PIXEL, POSITION_LIMIT};

#[test]
fn rectangles_that_share_an_area_overlap() {
    let a = Rect { x: 0, y: 0, w: 10, h: 10 };
    let b = Rect { x: 5, y: 5, w: 10, h: 10 };
    assert!(a.overlaps(&b));
    assert!(b.overlaps(&a));
}

#[test]
fn rectangles_that_touch_overlap() {
    let a = Rect { x: 0, y: 0, w: 10, h: 10 };
    assert!(a.overlaps(&Rect { x: 10, y: 0, w: 10, h: 10 }));
    assert!(a.overlaps(&Rect { x: 0, y: 10, w: 10, h: 10 }));
    assert!(a.overlaps(&Rect { x: 10, y: 10, w: 1, h: 1 }));
    assert!(a.overlaps(&Rect { x: -5, y: -5, w: 5, h: 5 }));
}

#[test]
fn rectangles_apart_do_not_overlap() {
    let a = Rect { x: 0, y: 0, w: 10, h: 10 };
    assert!(!a.overlaps(&Rect { x: 11, y: 0, w: 10, h: 10 }));
    assert!(!a.overlaps(&Rect { x: 0, y: 11, w: 10, h: 10 }));
    assert!(!a.overlaps(&Rect { x: -11, y: 0, w: 10, h: 10 }));
    assert!(!a.overlaps(&Rect { x: 0, y: -11, w: 10, h: 10 }));
}

#[test]
fn overlap_is_decided_at_the_ends_of_the_number_range() {
    let far = Rect { x: i64::MAX, y: i64::MAX, w: i64::MAX, h: i64::MAX };
    let near = Rect { x: i64::MIN, y: i64::MIN, w: 1, h: 1 };
    assert!(far.overlaps(&far));
    assert!(!far.overlaps(&near));
    assert!(!near.overlaps(&far));
}

#[test]
fn a_screen_has_positive_dimensions() {
    assert_eq!(
        Screen::new(800 * PIXEL, 600 * PIXEL),
        Some(Screen { width: 800 * PIXEL, height: 600 * PIXEL })
    );
    assert_eq!(Screen::new(1, 1), Some(Screen { width: 1, height: 1 }));
    assert_eq!(Screen::new(0, 600 * PIXEL), None);
    assert_eq!(Screen::new(800 * PIXEL, 0), None);
    assert_eq!(Screen::new(-1, 600 * PIXEL), None);
    assert_eq!(Screen::new(800 * PIXEL, -600 * PIXEL), None);
}

#[test]
fn a_screen_is_no_larger_than_positions_reach() {
    assert!(Screen::new(POSITION_LIMIT, POSITION_LIMIT).is_some());
    assert_eq!(Screen::new(POSITION_LIMIT + 1, 1), None);
    assert_eq!(Screen::new(1, POSITION_LIMIT + 1), None);
}
