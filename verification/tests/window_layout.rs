use denial_compositor::axis::{scrolling_layout_axis, LayoutAxis, OutputTransform};
use denial_compositor::geometry::{
    has_visible_size, layout_drop_distance, layout_resize_required, visible_stacking_restore, Point, Rect, Size,
};
use denial_compositor::properties::LayoutWindowProperties;

fn rect(x: i32, y: i32, width: i32, height: i32) -> Rect {
    Rect::new(x, y, width, height)
}

#[test]
fn stacking_restore_keeps_the_location_but_never_restores_an_unknown_size() {
    assert_eq!(
        visible_stacking_restore(rect(80, 60, 0, 0), rect(10, 10, 900, 700)),
        rect(80, 60, 900, 700)
    );
    assert_eq!(
        visible_stacking_restore(rect(80, 60, 640, 480), rect(10, 10, 900, 700)),
        rect(80, 60, 640, 480)
    );
}

#[test]
fn layout_resize_uses_committed_client_size_even_when_the_target_cache_is_current() {
    let target = rect(400, 0, 800, 900);
    assert!(layout_resize_required(target, Size { w: 600, h: 900 }, target));
    assert!(!layout_resize_required(rect(20, 30, 800, 900), Size { w: 800, h: 900 }, target));
}

#[test]
fn quarter_turned_outputs_use_the_vertical_scrolling_axis() {
    assert_eq!(scrolling_layout_axis(OutputTransform::Normal), LayoutAxis::Horizontal);
    assert_eq!(scrolling_layout_axis(OutputTransform::Rotate180), LayoutAxis::Horizontal);
    for transform in [
        OutputTransform::Rotate90,
        OutputTransform::Rotate270,
        OutputTransform::Flipped90,
        OutputTransform::Flipped270,
    ] {
        assert_eq!(scrolling_layout_axis(transform), LayoutAxis::Vertical);
    }
}

#[test]
fn every_regular_toplevel_uses_the_managed_layout_path() {
    let regular = LayoutWindowProperties {
        alive: true,
        transient: false,
        auxiliary: false,
        override_redirect: false,
        minimized: false,
    };
    assert!(regular.is_tiling_candidate());
    assert!(!LayoutWindowProperties { auxiliary: true, ..regular }.is_tiling_candidate());
    assert!(!LayoutWindowProperties { transient: true, ..regular }.is_tiling_candidate());
}

#[test]
fn flipped_outputs_keep_the_horizontal_axis() {
    assert_eq!(scrolling_layout_axis(OutputTransform::Flipped), LayoutAxis::Horizontal);
    assert_eq!(scrolling_layout_axis(OutputTransform::Flipped180), LayoutAxis::Horizontal);
}

#[test]
fn dead_minimized_and_override_redirect_windows_never_tile() {
    let regular = LayoutWindowProperties {
        alive: true,
        transient: false,
        auxiliary: false,
        override_redirect: false,
        minimized: false,
    };
    assert!(!LayoutWindowProperties { alive: false, ..regular }.is_tiling_candidate());
    assert!(!LayoutWindowProperties { minimized: true, ..regular }.is_tiling_candidate());
    assert!(!LayoutWindowProperties { override_redirect: true, ..regular }.is_tiling_candidate());
}

#[test]
fn one_pixel_rectangles_are_not_visible() {
    assert!(!has_visible_size(rect(0, 0, 1, 500)));
    assert!(!has_visible_size(rect(0, 0, 500, 1)));
    assert!(has_visible_size(rect(0, 0, 2, 2)));
}

#[test]
fn stacking_restore_keeps_an_invisible_size_when_the_tile_is_invisible_too() {
    assert_eq!(
        visible_stacking_restore(rect(5, 6, 0, 0), rect(10, 10, 1, 1)),
        rect(5, 6, 0, 0)
    );
}

#[test]
fn resize_is_required_when_the_target_size_changes() {
    assert!(layout_resize_required(
        rect(0, 0, 400, 300),
        Size { w: 500, h: 300 },
        rect(0, 0, 500, 300)
    ));
}

#[test]
fn drop_distance_is_four_times_the_squared_centre_distance() {
    // Centre (50, 25); location (10, 5): dx = 40, dy = 20, squared sum 2000.
    assert_eq!(layout_drop_distance(rect(0, 0, 100, 50), Point { x: 10, y: 5 }), 8000);
    // A half-pixel centre stays exact: centre (0.5, 0.5) to (0, 0) is 0.5.
    assert_eq!(layout_drop_distance(rect(0, 0, 1, 1), Point { x: 0, y: 0 }), 2);
}

#[test]
fn drop_distance_does_not_overflow_at_the_coordinate_limits() {
    let r = layout_drop_distance(
        rect(i32::MAX, i32::MAX, i32::MAX, i32::MAX),
        Point { x: i32::MIN, y: i32::MIN },
    );
    let d: i128 = 2 * (i32::MAX as i128) + i32::MAX as i128 - 2 * (i32::MIN as i128);
    assert_eq!(r, 2 * d * d);
}

#[test]
fn rectangles_contain_their_top_left_but_not_their_far_edges() {
    let r = rect(10, 20, 30, 40);
    assert!(r.contains(Point { x: 10, y: 20 }));
    assert!(r.contains(Point { x: 39, y: 59 }));
    assert!(!r.contains(Point { x: 40, y: 20 }));
    assert!(!r.contains(Point { x: 10, y: 60 }));
    assert!(!r.contains(Point { x: 9, y: 20 }));
}

#[test]
fn rectangle_far_edges_saturate_at_the_coordinate_range() {
    let r = rect(i32::MAX - 5, 0, 100, 10);
    assert!(r.contains(Point { x: i32::MAX - 1, y: 0 }));
    assert!(!r.contains(Point { x: i32::MAX, y: 0 }));
}
