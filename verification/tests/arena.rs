use ant_farm::arena::{Position, Size, center_dist, collides, dist_between, isqrt};

#[test]
fn isqrt_exact_values() {
    assert_eq!(isqrt(0), 0);
    assert_eq!(isqrt(1), 1);
    assert_eq!(isqrt(2), 1);
    assert_eq!(isqrt(3), 1);
    assert_eq!(isqrt(4), 2);
    assert_eq!(isqrt(15), 3);
    assert_eq!(isqrt(16), 4);
    assert_eq!(isqrt(999_999), 999);
    assert_eq!(isqrt(1_000_000), 1000);
    assert_eq!(isqrt(1_000_000_000_000), 1_000_000);
}

#[test]
fn radius_scales_by_root_two() {
    // 0.6 of a tile: 600 * 5657 / 1000 = 3394 thousandths.
    assert_eq!(Size::square(600).radius(), 3394);
    // Half a tile, as used for ranking food.
    assert_eq!(Size::square(500).radius(), 2828);
    // The queen's two tiles.
    assert_eq!(Size::square(2000).radius(), 11314);
    // The visibility circle of five tiles.
    assert_eq!(Size::square(5000).radius(), 28285);
}

#[test]
fn center_dist_is_euclidean() {
    let a = Position { x: 0, y: 0 };
    let b = Position { x: 3000, y: 4000 };
    assert_eq!(center_dist(&a, &b), 5000);
    assert_eq!(center_dist(&b, &a), 5000);
    assert_eq!(center_dist(&a, &a), 0);
}

#[test]
fn dist_between_subtracts_both_radii() {
    let a = Position { x: 100_000, y: 100_000 };
    let b = Position { x: 100_000, y: 105_000 };
    let sa = Size::square(600);
    let sb = Size::square(500);
    // 5000 - 3394 - 2828 = -1222: the bodies overlap.
    assert_eq!(dist_between(&a, &sa, &b, &sb), -1222);
    assert!(collides(&a, &sa, &b, &sb));
}

#[test]
fn collides_iff_negative_distance() {
    // Sign consistency between the collision predicate and the signed
    // clearance, over a spread of pairs.
    let sizes = [0, 300, 500, 600, 2000, 5000];
    let offsets = [0, 1, 599, 600, 4000, 6821, 6822, 20_000, 500_000];
    let a = Position { x: 800_000, y: 400_000 };
    for &wa in sizes.iter() {
        for &wb in sizes.iter() {
            for &off in offsets.iter() {
                let b = Position { x: 800_000 + off, y: 400_000 };
                let sa = Size::square(wa);
                let sb = Size::square(wb);
                let d = dist_between(&a, &sa, &b, &sb);
                assert_eq!(collides(&a, &sa, &b, &sb), d < 0);
            }
        }
    }
}

#[test]
fn arrival_threshold_distance_is_exact() {
    // An agent of size 0.6 against a half-tile body: clearance is exactly
    // 600 at a center distance of 6822.
    let a = Position { x: 100_000, y: 100_000 };
    let b = Position { x: 106_822, y: 100_000 };
    assert_eq!(dist_between(&a, &Size::square(600), &b, &Size::square(500)), 600);
    let c = Position { x: 106_821, y: 100_000 };
    assert_eq!(dist_between(&a, &Size::square(600), &c, &Size::square(500)), 599);
}
