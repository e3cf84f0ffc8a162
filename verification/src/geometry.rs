use vstd::prelude::*;

verus! {

/// A logical size in pixels.
#[derive(Clone, Copy, Debug, PartialEq, Eq, Structural)]
pub struct Size {
    pub w: i32,
    pub h: i32,
}

/// A logical point in pixels.
#[derive(Clone, Copy, Debug, PartialEq, Eq, Structural)]
pub struct Point {
    pub x: i32,
    pub y: i32,
}

/// A logical rectangle: its top-left corner and its size.
#[derive(Clone, Copy, Debug, PartialEq, Eq, Structural)]
pub struct Rect {
    pub loc: Point,
    pub size: Size,
}

impl Rect {
    pub fn new(x: i32, y: i32, w: i32, h: i32) -> (r: Rect)
        ensures
            r == (Rect { loc: Point { x, y }, size: Size { w, h } }),
    {
        Rect { loc: Point { x, y }, size: Size { w, h } }
    }

    /// Whether `p` lies inside the rectangle: left and top edges included,
    /// right and bottom edges excluded, the far edge saturating at the
    /// coordinate range.
    pub open spec fn spec_contains(self, p: Point) -> bool {
        &&& self.loc.x <= p.x
        &&& p.x < saturating_end(self.loc.x, self.size.w)
        &&& self.loc.y <= p.y
        &&& p.y < saturating_end(self.loc.y, self.size.h)
    }

    pub fn contains(&self, p: Point) -> (r: bool)
        ensures
            r == self.spec_contains(p),
    {
        self.loc.x <= p.x && (p.x as i64) < end_of(self.loc.x, self.size.w)
            && self.loc.y <= p.y && (p.y as i64) < end_of(self.loc.y, self.size.h)
    }
}

/// `start + extent`, saturated at the bounds of `i32`.
pub open spec fn saturating_end(start: i32, extent: i32) -> int {
    let e = start + extent;
    if e > i32::MAX {
        i32::MAX as int
    } else if e < i32::MIN {
        i32::MIN as int
    } else {
        e
    }
}

fn end_of(start: i32, extent: i32) -> (r: i64)
    ensures
        r == saturating_end(start, extent),
{
    let e = start as i64 + extent as i64;
    if e > i32::MAX as i64 {
        i32::MAX as i64
    } else if e < i32::MIN as i64 {
        i32::MIN as i64
    } else {
        e
    }
}

/// A rectangle is visible when both sides exceed one pixel.
pub open spec fn spec_has_visible_size(r: Rect) -> bool {
    r.size.w > 1 && r.size.h > 1
}

pub fn has_visible_size(geometry: Rect) -> (r: bool)
    ensures
        r == spec_has_visible_size(geometry),
{
    geometry.size.w > 1 && geometry.size.h > 1
}

/// The floating rectangle to restore: the saved one, except that an
/// invisible saved size is replaced by a visible current size.
pub open spec fn spec_visible_stacking_restore(saved: Rect, current: Rect) -> Rect {
    if !spec_has_visible_size(saved) && spec_has_visible_size(current) {
        Rect { loc: saved.loc, size: current.size }
    } else {
        saved
    }
}

pub fn visible_stacking_restore(saved: Rect, current: Rect) -> (r: Rect)
    ensures
        r == spec_visible_stacking_restore(saved, current),
        r.loc == saved.loc,
{
    let mut saved = saved;
    if !has_visible_size(saved) && has_visible_size(current) {
        saved.size = current.size;
    }
    saved
}

/// A tiled window needs a fresh configure when its target size changes or
/// when the client's committed size differs from the next target.
pub open spec fn spec_layout_resize_required(previous_target: Rect, committed_size: Size, next_target: Rect) -> bool {
    previous_target.size != next_target.size || committed_size != next_target.size
}

pub fn layout_resize_required(previous_target: Rect, committed_size: Size, next_target: Rect) -> (r: bool)
    ensures
        r == spec_layout_resize_required(previous_target, committed_size, next_target),
{
    previous_target.size != next_target.size || committed_size != next_target.size
}

/// Four times the squared distance from the centre of `geometry` to
/// `location`. Scaling by four keeps the half-pixel centre exact in integers
/// and preserves the order of distances.
pub open spec fn spec_layout_drop_distance(geometry: Rect, location: Point) -> int {
    let dx = 2 * geometry.loc.x + geometry.size.w - 2 * location.x;
    let dy = 2 * geometry.loc.y + geometry.size.h - 2 * location.y;
    dx * dx + dy * dy
}

pub fn layout_drop_distance(geometry: Rect, location: Point) -> (r: i128)
    ensures
        r == spec_layout_drop_distance(geometry, location),
        r >= 0,
{
    let dx: i128 = 2 * (geometry.loc.x as i128) + geometry.size.w as i128 - 2 * (location.x as i128);
    let dy: i128 = 2 * (geometry.loc.y as i128) + geometry.size.h as i128 - 2 * (location.y as i128);
    assert(0 <= dx * dx < 0x10_0000_0000_0000_0000) by (nonlinear_arith)
        requires -0x4_0000_0000 < dx < 0x4_0000_0000;
    assert(0 <= dy * dy < 0x10_0000_0000_0000_0000) by (nonlinear_arith)
        requires -0x4_0000_0000 < dy < 0x4_0000_0000;
    dx * dx + dy * dy
}

} // verus!
