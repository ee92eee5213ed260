use pong::roots::{floor_sqrt, nearest_sqrt};

#[test]
fn floor_sqrt_of_small_numbers() {
    assert_eq!(floor_sqrt(0), 0);
    assert_eq!(floor_sqrt(1), 1);
    assert_eq!(floor_sqrt(3), 1);
    assert_eq!(floor_sqrt(4), 2);
    assert_eq!(floor_sqrt(8), 2);
    assert_eq!(floor_sqrt(9), 3);
}

#[test]
fn floor_sqrt_of_squares_and_their_neighbours() {
    for r in [7u64, 1_000, 700_000, 4_294_967_295] {
        assert_eq!(floor_sqrt(r * r), r);
        assert_eq!(floor_sqrt(r * r - 1), r - 1);
        assert_eq!(floor_sqrt(r * r + 1), r);
    }
}

#[test]
fn floor_sqrt_of_the_largest_number() {
    assert_eq!(floor_sqrt(u64::MAX), 4_294_967_295);
}

#[test]
fn nearest_sqrt_rounds_to_the_closer_root() {
    assert_eq!(nearest_sqrt(0), 0);
    assert_eq!(nearest_sqrt(1), 1);
    assert_eq!(nearest_sqrt(2), 1);
    assert_eq!(nearest_sqrt(3), 2);
    assert_eq!(nearest_sqrt(6), 2);
    assert_eq!(nearest_sqrt(7), 3);
    assert_eq!(nearest_sqrt(12), 3);
    assert_eq!(nearest_sqrt(13), 4);
}

#[test]
fn nearest_sqrt_of_large_numbers() {
    assert_eq!(nearest_sqrt(367_500_000_000), 606_218);
    assert_eq!(nearest_sqrt(500_000_000_000), 707_107);
    assert_eq!(nearest_sqrt(u64::MAX), 4_294_967_296);
}

#[test]
fn a_leg_and_the_root_of_the_rest_give_back_the_length() {
    let length: u64 = 700_000;
    for leg in [0u64, 1, 2, 350_000, 605_405, 699_998, 699_999, 700_000] {
        let other = nearest_sqrt(length * length - leg * leg);
        assert_eq!(nearest_sqrt(leg * leg + other * other), length);
    }
}
