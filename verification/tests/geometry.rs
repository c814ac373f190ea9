use rnote_engine::geometry::{Aabb, Vec2, COORD_LIMIT};

fn aabb(minx: i64, miny: i64, maxx: i64, maxy: i64) -> Aabb {
    Aabb::new(Vec2::new(minx, miny), Vec2::new(maxx, maxy))
}

#[test]
fn merged_is_union_box() {
    let a = aabb(0, 0, 10, 10);
    let b = aabb(5, -3, 20, 7);
    let m = a.merged(&b);
    assert_eq!(m, aabb(0, -3, 20, 10));
}

#[test]
fn merged_is_commutative() {
    let a = aabb(-4, 2, 3, 9);
    let b = aabb(1, -1, 2, 2);
    assert_eq!(a.merged(&b), b.merged(&a));
}

#[test]
fn invalid_box_is_merge_identity() {
    let inv = Aabb::new_invalid();
    let b = aabb(-7, 3, 12, 44);
    assert_eq!(inv.merged(&b), b);
    assert_eq!(b.merged(&inv), b);
    assert!(!inv.valid());
}

#[test]
fn loosened_expands_every_side() {
    let a = aabb(2, 3, 10, 20);
    assert_eq!(a.loosened(5), aabb(-3, -2, 15, 25));
}

#[test]
fn negative_margin_shrinks_and_can_invert() {
    let a = aabb(0, 0, 4, 4);
    let shrunk = a.loosened(-1);
    assert_eq!(shrunk, aabb(1, 1, 3, 3));
    assert!(shrunk.valid());
    let inverted = a.loosened(-3);
    assert!(!inverted.valid());
}

#[test]
fn extents_are_sizes() {
    let a = aabb(-5, 10, 7, 13);
    assert_eq!(a.extents(), Vec2::new(12, 3));
}

#[test]
fn contains_is_componentwise_enclosure() {
    let outer = aabb(0, 0, 10, 10);
    let inner = aabb(2, 2, 8, 8);
    let crossing = aabb(5, 5, 15, 8);
    assert!(outer.contains(&inner));
    assert!(outer.contains(&outer));
    assert!(!outer.contains(&crossing));
    assert!(!inner.contains(&outer));
}

#[test]
fn coord_limit_is_two_to_the_fifty_six() {
    assert_eq!(COORD_LIMIT, 1i64 << 56);
}
