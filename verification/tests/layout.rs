use soundboard::geom::Rect;
use soundboard::hitmap::{build_hit_map, HitEntry};
use soundboard::layout::LayoutEngine;

fn rect(x: u16, y: u16, width: u16, height: u16) -> Rect {
    Rect { x, y, width, height }
}

#[test]
fn three_tiles_share_eighty_columns() {
    let mut e = LayoutEngine::new(3);
    e.resolve(80, 24);
    assert_eq!(e.container(), rect(0, 0, 80, 24));
    assert_eq!(
        e.tiles().clone(),
        vec![rect(0, 0, 26, 5), rect(26, 0, 26, 5), rect(52, 0, 26, 5)]
    );
}

#[test]
fn wide_viewport_clamps_columns_at_maximum() {
    let mut e = LayoutEngine::new(3);
    e.resolve(200, 24);
    assert_eq!(
        e.tiles().clone(),
        vec![rect(0, 0, 40, 5), rect(40, 0, 40, 5), rect(80, 0, 40, 5)]
    );
}

#[test]
fn narrow_viewport_keeps_one_full_width_column() {
    let mut e = LayoutEngine::new(3);
    e.resolve(7, 24);
    assert_eq!(
        e.tiles().clone(),
        vec![rect(0, 0, 7, 5), rect(0, 5, 7, 5), rect(0, 10, 7, 5)]
    );
}

#[test]
fn tiles_wrap_row_major() {
    let mut e = LayoutEngine::new(5);
    e.resolve(25, 24);
    assert_eq!(
        e.tiles().clone(),
        vec![
            rect(0, 0, 12, 5),
            rect(12, 0, 12, 5),
            rect(0, 5, 12, 5),
            rect(12, 5, 12, 5),
            rect(0, 10, 12, 5),
        ]
    );
}

#[test]
fn single_cell_viewport_still_lays_out() {
    let mut e = LayoutEngine::new(2);
    e.resolve(1, 1);
    assert_eq!(e.tiles().clone(), vec![rect(0, 0, 1, 5), rect(0, 5, 1, 5)]);
}

#[test]
fn resolving_twice_at_same_size_changes_nothing() {
    let mut e = LayoutEngine::new(3);
    e.resolve(80, 24);
    let first = e.tiles().clone();
    let container = e.container();
    e.resolve(80, 24);
    assert_eq!(e.tiles().clone(), first);
    assert_eq!(e.container(), container);
}

#[test]
fn resize_round_trip_reproduces_resolution() {
    let mut e = LayoutEngine::new(3);
    e.resolve(80, 24);
    let first_resolution = e.tiles().clone();
    e.resolve(40, 24);
    assert_eq!(
        e.tiles().clone(),
        vec![rect(0, 0, 13, 5), rect(13, 0, 13, 5), rect(26, 0, 13, 5)]
    );
    assert_ne!(e.tiles().clone(), first_resolution);
    e.resolve(80, 24);
    assert_eq!(e.tiles().clone(), first_resolution);
}

#[test]
fn zero_tiles_resolve_to_empty_geometry() {
    let mut e = LayoutEngine::new(0);
    e.resolve(80, 24);
    assert_eq!(e.container(), rect(0, 0, 80, 24));
    assert!(e.tiles().is_empty());
    let mut hits: Vec<HitEntry> = Vec::new();
    build_hit_map(&e, &mut hits);
    assert!(hits.is_empty());
    e.resolve(40, 12);
    assert!(e.tiles().is_empty());
}

fn overlap(a: &Rect, b: &Rect) -> bool {
    let apart = a.x + a.width <= b.x
        || b.x + b.width <= a.x
        || a.y + a.height <= b.y
        || b.y + b.height <= a.y;
    !apart
}

#[test]
fn widths_clamped_and_tiles_disjoint_across_viewports() {
    for &(w, h, n) in &[(1u16, 24u16, 4usize), (9, 24, 2), (10, 24, 5), (80, 24, 3), (80, 40, 12), (200, 24, 3), (65535, 24, 6)] {
        let mut e = LayoutEngine::new(n);
        e.resolve(w, h);
        let tiles = e.tiles();
        assert_eq!(tiles.len(), n);
        let lower = w.min(10);
        for t in tiles.iter() {
            assert!(lower <= t.width && t.width <= 40, "width {} out of range at ({w},{n})", t.width);
            assert!(t.x + t.width <= w);
        }
        for i in 0..tiles.len() {
            for j in 0..i {
                assert!(!overlap(&tiles[i], &tiles[j]), "tiles {i} and {j} overlap at ({w},{n})");
            }
        }
    }
}

#[test]
fn grid_fits_container_when_rows_fit() {
    let mut e = LayoutEngine::new(12);
    e.resolve(80, 40);
    let container = e.container();
    for t in e.tiles().iter() {
        assert!(t.x >= container.x && t.y >= container.y);
        assert!(t.x + t.width <= container.x + container.width);
        assert!(t.y + t.height <= container.y + container.height);
    }
}

#[test]
fn hit_map_mirrors_tiles_in_order() {
    let mut e = LayoutEngine::new(3);
    e.resolve(80, 24);
    let mut hits: Vec<HitEntry> = vec![HitEntry { rect: rect(9, 9, 9, 9), clip: 7 }];
    build_hit_map(&e, &mut hits);
    assert_eq!(hits.len(), 3);
    for (i, h) in hits.iter().enumerate() {
        assert_eq!(h.clip, i);
        assert_eq!(h.rect, e.tiles()[i]);
    }
}
