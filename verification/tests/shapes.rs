use dodge_shooter::shape::{shapes_overlap, Circle, Rect, Shape};
use dodge_shooter::units::{strode, travelled, UNIT};

#[test]
fn rects_that_share_an_edge_overlap() {
    let a = Rect::new(0, 0, 10, 10);
    let b = Rect::new(10, 0, 5, 5);
    let c = Rect::new(11, 0, 5, 5);
    assert!(a.overlaps(&b));
    assert!(b.overlaps(&a));
    assert!(!a.overlaps(&c));
    assert!(!c.overlaps(&a));
}

#[test]
fn rects_apart_on_one_axis_do_not_overlap() {
    let a = Rect::new(0, 0, 10, 10);
    assert!(!a.overlaps(&Rect::new(0, 11, 10, 10)));
    assert!(a.overlaps(&Rect::new(0, 10, 10, 10)));
    assert!(a.overlaps(&Rect::new(-3, -3, 3, 3)));
    assert!(!a.overlaps(&Rect::new(-4, -4, 3, 3)));
}

#[test]
fn circle_reaches_rect_corner_exactly() {
    let c = Circle::new(0, 0, 5);
    assert!(c.overlaps_rect(&Rect::new(3, 4, 10, 10)));
    assert!(!c.overlaps_rect(&Rect::new(3, 5, 10, 10)));
    assert!(!c.overlaps_rect(&Rect::new(4, 4, 10, 10)));
}

#[test]
fn circle_near_corner_misses_where_its_bounding_square_would_hit() {
    let c = Circle::new(0, 0, 10);
    let r = Rect::new(8, 8, 4, 4);
    assert!(!c.overlaps_rect(&r));
    let square = Rect::new(-10, -10, 20, 20);
    assert!(square.overlaps(&r));
}

#[test]
fn circle_inside_and_beside_rect() {
    let r = Rect::new(0, 0, 100, 100);
    assert!(Circle::new(50, 50, 1).overlaps_rect(&r));
    assert!(Circle::new(-5, 50, 5).overlaps_rect(&r));
    assert!(!Circle::new(-6, 50, 5).overlaps_rect(&r));
    assert!(Circle::new(50, 105, 5).overlaps_rect(&r));
    assert!(!Circle::new(50, 106, 5).overlaps_rect(&r));
}

#[test]
fn large_coordinates_do_not_overflow() {
    let far = 1_152_921_504_606_846_976;
    let c = Circle::new(-far, -far, far);
    let r = Rect::new(far, far, far, far);
    assert!(!c.overlaps_rect(&r));
    let near = Rect::new(-far, -far, far, far);
    assert!(c.overlaps_rect(&near));
}

#[test]
fn shapes_dispatch_by_kind() {
    let circle = Shape::Circle(Circle::new(0, 0, 5));
    let rect = Shape::Rect(Rect::new(3, 4, 10, 10));
    let other = Shape::Rect(Rect::new(13, 14, 1, 1));
    let apart = Shape::Circle(Circle::new(7, 0, 2));
    let touching = Shape::Circle(Circle::new(6, 8, 5));
    assert!(shapes_overlap(&circle, &rect));
    assert!(shapes_overlap(&rect, &circle));
    assert!(shapes_overlap(&rect, &other));
    assert!(!shapes_overlap(&circle, &other));
    assert!(shapes_overlap(&circle, &apart));
    assert!(shapes_overlap(&circle, &touching));
    assert!(!shapes_overlap(&circle, &Shape::Circle(Circle::new(6, 9, 5))));
}

#[test]
fn distance_is_speed_times_time() {
    assert_eq!(travelled(320, 1_000_000), 320 * UNIT);
    assert_eq!(travelled(1280, 16_667), 21_333_760);
    assert_eq!(travelled(0, 1_000), 0);
    assert_eq!(travelled(1_048_576, 1_048_576), 1_099_511_627_776);
    assert_eq!(travelled(320, 2_000_000), 640 * UNIT);
    assert_eq!(travelled(1_048_576, 274_877_906_944), 288_230_376_151_711_744);
}

#[test]
fn diagonal_stride_is_shortened() {
    assert_eq!(strode(320, 1_000_000, false), 320_000_000);
    assert_eq!(strode(320, 1_000_000, true), 226_274_240);
    assert_eq!(strode(1, 1, true), 0);
    assert_eq!(strode(3, 1, true), 2);
    assert_eq!(strode(320, 2_000_000, true), 452_548_480);
    assert_eq!(strode(1_048_576, 274_877_906_944, true), 203_809_716_589_508_436);
}
