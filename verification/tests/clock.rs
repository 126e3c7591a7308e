use openpon::clock::{
    rise_interval, BASE_RISE_INTERVAL, FRAME_INTERVAL, MIN_RISE_INTERVAL, SPEEDUP_PER_LEVEL,
    TICKS_PER_SECOND,
};

#[test]
fn intervals_are_exact_fractions_of_a_second() {
    assert_eq!(BASE_RISE_INTERVAL * 5, TICKS_PER_SECOND * 2);
    assert_eq!(SPEEDUP_PER_LEVEL * 200, TICKS_PER_SECOND * 9);
    assert_eq!(MIN_RISE_INTERVAL * 60, TICKS_PER_SECOND);
    assert_eq!(FRAME_INTERVAL * 25, TICKS_PER_SECOND);
}

#[test]
fn rise_interval_at_level_zero_is_the_base() {
    assert_eq!(rise_interval(0), 1_200_000_000);
}

#[test]
fn rise_interval_shortens_by_the_speedup_per_level() {
    assert_eq!(rise_interval(1), 1_065_000_000);
    assert_eq!(rise_interval(2), 930_000_000);
    assert_eq!(rise_interval(8), 120_000_000);
}

#[test]
fn rise_interval_reaches_the_floor_at_level_nine() {
    assert_eq!(rise_interval(9), 50_000_000);
    assert_eq!(rise_interval(10), 50_000_000);
    assert_eq!(rise_interval(127), MIN_RISE_INTERVAL);
}

#[test]
fn rise_interval_grows_below_level_zero() {
    assert_eq!(rise_interval(-1), 1_335_000_000);
    assert_eq!(rise_interval(-128), 18_480_000_000);
}

#[test]
fn rise_interval_never_grows_with_the_level() {
    let mut level = i8::MIN;
    while level < i8::MAX {
        assert!(rise_interval(level + 1) <= rise_interval(level));
        assert!(rise_interval(level) >= MIN_RISE_INTERVAL);
        level += 1;
    }
}
