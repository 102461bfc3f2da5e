use mirage::geometry::Point;
use mirage::layout::{TilingLayout, WindowGeometry};

#[test]
fn test_single_window() {
    let layout = TilingLayout::new(1280, 800);
    let geom = layout.calculate_geometry(0, 1);
    assert_eq!(geom.location.x, 0);
    assert_eq!(geom.location.y, 0);
    assert_eq!(geom.size.w, 1280);
    assert_eq!(geom.size.h, 800);
}

#[test]
fn test_point_contains() {
    let geom = WindowGeometry::new(100, 100, 200, 200);
    let inside = Point::new(150, 150);
    let outside = Point::new(50, 50);

    assert!(geom.contains_point(inside));
    assert!(!geom.contains_point(outside));
}

fn tile(layout: &TilingLayout, i: usize, n: usize) -> (i32, i32, i32, i32) {
    let g = layout.calculate_geometry(i, n);
    (g.location.x, g.location.y, g.size.w, g.size.h)
}

#[test]
fn no_windows_gives_full_screen() {
    let layout = TilingLayout::new(1280, 800);
    assert_eq!(tile(&layout, 0, 0), (0, 0, 1280, 800));
}

#[test]
fn negative_screen_clamps_to_zero() {
    let layout = TilingLayout::new(-5, -7);
    assert_eq!(tile(&layout, 0, 1), (0, 0, 0, 0));
    assert_eq!(tile(&layout, 0, 3), (0, 0, 0, 0));
    assert_eq!(tile(&layout, 2, 3), (0, 0, 0, 0));
}

#[test]
fn two_windows_split_halves() {
    let layout = TilingLayout::new(1280, 800);
    assert_eq!(tile(&layout, 0, 2), (0, 0, 640, 800));
    assert_eq!(tile(&layout, 1, 2), (640, 0, 640, 800));
}

#[test]
fn odd_width_gives_extra_column_to_stack() {
    let layout = TilingLayout::new(1281, 800);
    let master = tile(&layout, 0, 3);
    let stacked = tile(&layout, 2, 3);
    assert_eq!(master.2, 640);
    assert_eq!(stacked.0, 640);
    assert_eq!(stacked.2, 641);
    assert_eq!(master.2 + stacked.2, 1281);
}

#[test]
fn stacked_heights_round_down() {
    let layout = TilingLayout::new(1280, 800);
    assert_eq!(tile(&layout, 1, 4), (640, 0, 640, 266));
    assert_eq!(tile(&layout, 2, 4), (640, 266, 640, 266));
    assert_eq!(tile(&layout, 3, 4), (640, 532, 640, 268));
}

#[test]
fn compute_twice_is_identical() {
    let layout = TilingLayout::new(1024, 768);
    assert_eq!(layout.calculate_geometry(2, 5), layout.calculate_geometry(2, 5));
}

#[test]
fn resize_changes_layout() {
    let mut layout = TilingLayout::new(1280, 800);
    layout.update_screen_size(800, 600);
    assert_eq!(tile(&layout, 0, 1), (0, 0, 800, 600));
}

#[test]
fn containment_is_half_open() {
    let geom = WindowGeometry::new(100, 100, 200, 200);
    assert!(geom.contains_point(Point::new(100, 100)));
    assert!(geom.contains_point(Point::new(299, 299)));
    assert!(!geom.contains_point(Point::new(300, 150)));
    assert!(!geom.contains_point(Point::new(150, 300)));
    let r = geom.rect();
    assert_eq!((r.loc.x, r.loc.y, r.size.w, r.size.h), (100, 100, 200, 200));
}

#[test]
fn last_window_absorbs_remainder() {
    let layout = TilingLayout::new(1280, 801);
    assert_eq!(tile(&layout, 1, 3), (640, 0, 640, 400));
    assert_eq!(tile(&layout, 2, 3), (640, 400, 640, 401));
}
