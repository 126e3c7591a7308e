use openpon::vec2::{Vec2, Vec2TBound};

#[test]
fn new_keeps_both_components() {
    let v = Vec2::new(3, -4);
    assert_eq!(v.x, 3);
    assert_eq!(v.y, -4);
}

#[test]
fn translate_adds_to_both_components() {
    let mut v = Vec2::new(10, 20);
    v.translate(-3, 5);
    assert_eq!(v, Vec2::new(7, 25));
}

#[test]
fn translate_reaches_the_largest_value() {
    let mut v = Vec2::new(i32::MAX - 1, i32::MIN + 1);
    v.translate(1, -1);
    assert_eq!(v, Vec2::new(i32::MAX, i32::MIN));
}

#[test]
fn set_replaces_both_components() {
    let mut v = Vec2::new(1, 2);
    v.set(-8, 9);
    assert_eq!(v, Vec2::new(-8, 9));
}

#[test]
fn default_is_the_origin() {
    let v: Vec2<i32> = Vec2::default();
    assert_eq!(v, Vec2::new(0, 0));
}

#[test]
fn zero_is_the_additive_identity() {
    let zero = <i32 as Vec2TBound>::zero();
    assert_eq!(zero, 0);
    assert_eq!(41.sum(zero), 41);
}

#[test]
fn from_tuple_takes_x_first() {
    let v: Vec2<i32> = (5, 6).into();
    assert_eq!(v, Vec2::new(5, 6));
}

#[test]
fn add_is_componentwise() {
    assert_eq!(Vec2::new(1, 2) + Vec2::new(30, -40), Vec2::new(31, -38));
}

#[test]
fn sub_is_componentwise() {
    assert_eq!(Vec2::new(1, 2) - Vec2::new(30, -40), Vec2::new(-29, 42));
}

#[test]
fn neg_is_componentwise() {
    assert_eq!(-Vec2::new(7, -9), Vec2::new(-7, 9));
}

#[test]
fn scalar_operations_match_the_integers() {
    assert_eq!(5.sum(-7), -2);
    assert_eq!(5.difference(-7), 12);
    assert_eq!(5.negation(), -5);
}

#[test]
fn clone_equals_what_it_was_made_from() {
    let v = Vec2::new(11, 12);
    assert_eq!(v.clone(), v);
}
