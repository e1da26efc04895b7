use ant_farm::ant::VisibleRange;
use ant_farm::arena::{Position, Size};
use ant_farm::fog::find_visible;

#[test]
fn find_visible_reports_overlapped_tiles_in_order() {
    let tile = Size::square(990);
    let fogs = vec![
        (Position { x: 100_000, y: 100_000 }, tile),
        (Position { x: 500_000, y: 500_000 }, tile),
        (Position { x: 108_000, y: 100_000 }, tile),
    ];
    // One looker near the first and third tile, far from the second.
    let lookers = vec![(Position { x: 104_000, y: 100_000 }, VisibleRange::new(5_000))];
    let ev = find_visible(&fogs, &lookers);
    assert_eq!(ev.fogs, vec![0, 2]);
}

#[test]
fn find_visible_with_no_lookers_is_empty() {
    let tile = Size::square(990);
    let fogs = vec![(Position { x: 100_000, y: 100_000 }, tile)];
    let lookers: Vec<(Position, VisibleRange)> = Vec::new();
    let ev = find_visible(&fogs, &lookers);
    assert!(ev.fogs.is_empty());
}
