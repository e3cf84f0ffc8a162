use vstd::prelude::*;

use crate::axis::{scrolling_layout_axis, spec_scrolling_layout_axis};
use crate::enroll::{lemma_output_index_of_found, output_index_of};
use crate::frontend::spec_layout_gap;
use crate::geometry::Rect;
use crate::model::{index_of_root, lemma_index_of_root_range, roots, LayoutPlacement, LayoutSpace, WaylandFrontend, WindowLayoutKind, WindowRecord};
use crate::targets::ScrollContext;

verus! {

/// The windows a scroll frame shows: each placed window that is mapped and
/// neither fullscreen nor maximized, with its current geometry target.
pub open spec fn scroll_frame_windows(ws: Seq<WindowRecord>, ps: Seq<LayoutPlacement>) -> Seq<(usize, Rect)>
    decreases ps.len(),
{
    if ps.len() == 0 {
        seq![]
    } else {
        let s = scroll_frame_windows(ws, ps.drop_last());
        match index_of_root(roots(ws), ps.last().window) {
            Some(i) => if ws[i].spec_constrained() {
                s
            } else {
                s.push((i as usize, ws[i].target))
            },
            None => s,
        }
    }
}

/// The geometry of the last placement of `window`, as a table built from
/// the placements keeps it.
pub open spec fn placed_geometry(ps: Seq<LayoutPlacement>, window: u64) -> Option<Rect>
    decreases ps.len(),
{
    if ps.len() == 0 {
        None
    } else if ps.last().window == window {
        Some(ps.last().geometry)
    } else {
        placed_geometry(ps.drop_last(), window)
    }
}

/// The windows of `space` whose tile a resize moved, with their new
/// geometry targets.
pub open spec fn resized_windows(
    ws: Seq<WindowRecord>,
    spaces: Map<u64, LayoutSpace>,
    before: Seq<LayoutPlacement>,
    after: Seq<LayoutPlacement>,
    space: LayoutSpace,
) -> Seq<(usize, Rect)>
    decreases after.len(),
{
    if after.len() == 0 {
        seq![]
    } else {
        let s = resized_windows(ws, spaces, before, after.drop_last(), space);
        let p = after.last();
        if placed_geometry(before, p.window) != Some(p.geometry) && spaces.contains_key(p.window)
            && spaces[p.window] == space {
            match index_of_root(roots(ws), p.window) {
                Some(i) => s.push((i as usize, ws[i].target)),
                None => s,
            }
        } else {
            s
        }
    }
}

/// The tiles a scroll frame shows, with the tile the gesture settled on.
pub struct HorizontalLayoutScrollFrame {
    pub selected: Option<usize>,
    pub placements: Vec<(usize, Rect)>,
    pub monitor_geometry: Rect,
}

impl WaylandFrontend {
    /// The scroll context on the output that shows `space`.
    pub open spec fn spec_scroll_context_in(&self, space: LayoutSpace) -> Option<ScrollContext> {
        match output_index_of(self.outputs@, space.output) {
            None => None,
            Some(o) => Some(
                ScrollContext {
                    space,
                    work_area: self.outputs@[o].work_area,
                    gap: spec_layout_gap(self.maximize_padding),
                    monitor_geometry: self.outputs@[o].logical_geometry,
                    axis: spec_scrolling_layout_axis(self.outputs@[o].transform),
                },
            ),
        }
    }

    /// The context of a scrolling gesture: the focused window must be a
    /// tile that is neither fullscreen nor maximized, on a known output.
    pub open spec fn spec_horizontal_layout_scroll_context(&self) -> Option<ScrollContext> {
        if let Some(f) = self.focused_root {
            if self.layout_spaces@.contains_key(f) && index_of_root(roots(self.windows@), f) is Some
                && !self.windows@[index_of_root(roots(self.windows@), f)->0].spec_constrained() {
                self.spec_scroll_context_in(self.layout_spaces@[f])
            } else {
                None
            }
        } else {
            None
        }
    }

    pub fn horizontal_layout_scroll_context(&self) -> (r: Option<ScrollContext>)
        ensures
            r == self.spec_horizontal_layout_scroll_context(),
            r matches Some(c) ==> {
                &&& self.focused_root matches Some(f) && self.layout_spaces@.contains_key(f) && c.space
                    == self.layout_spaces@[f]
                &&& forall|o: int|
                    crate::frontend::first_output_with_id(self.outputs@, c.space.output, o) ==> {
                        &&& c.work_area == self.outputs@[o].work_area
                        &&& c.monitor_geometry == self.outputs@[o].logical_geometry
                        &&& c.axis == spec_scrolling_layout_axis(self.outputs@[o].transform)
                    }
            },
    {
        proof {
            crate::laws::lemma_scroll_context_output(self);
        }
        let focused = match self.focused_root {
            Some(f) => f,
            None => return None,
        };
        let space = match self.layout_spaces.get(&focused) {
            Some(space) => *space,
            None => return None,
        };
        let window = match self.window_for_layout_id(focused) {
            Some(i) => i,
            None => return None,
        };
        if self.window_has_constrained_state(window) {
            return None;
        }
        let o = match self.output_index(space.output) {
            Some(o) => o,
            None => {
                assert(!(exists|i: int| crate::frontend::first_output_with_id(self.outputs@, space.output, i)));
                return None;
            },
        };
        proof {
            lemma_output_index_of_found(self.outputs@, space.output, o as int);
        }
        let out = self.outputs[o];
        Some(
            ScrollContext {
                space,
                work_area: out.work_area,
                gap: self.layout_gap(),
                monitor_geometry: out.logical_geometry,
                axis: scrolling_layout_axis(out.transform),
            },
        )
    }

    /// A scrolling layout scrolls when the focused window is one of its
    /// tiles.
    pub fn can_scroll_layout_horizontally(&self) -> (r: bool)
        ensures
            r == (self.layout_kind == WindowLayoutKind::Scrolling
                && self.spec_horizontal_layout_scroll_context() is Some),
    {
        self.layout_kind == WindowLayoutKind::Scrolling && self.horizontal_layout_scroll_context().is_some()
    }

    /// The frame a scrolling gesture shows, built from the layout's
    /// placements of the scrolled space after it was arranged.
    pub fn horizontal_layout_scroll_frame(
        &self,
        placements: &Vec<LayoutPlacement>,
        monitor_geometry: Rect,
        selected: Option<usize>,
    ) -> (r: HorizontalLayoutScrollFrame)
        ensures
            r.selected == selected,
            r.monitor_geometry == monitor_geometry,
            r.placements@ == scroll_frame_windows(self.windows@, placements@),
    {
        let ghost ps = placements@;
        let mut shown: Vec<(usize, Rect)> = Vec::new();
        let mut k: usize = 0;
        while k < placements.len()
            invariant
                k <= placements.len(),
                ps == placements@,
                shown@ == scroll_frame_windows(self.windows@, ps.take(k as int)),
            decreases placements.len() - k,
        {
            assert(ps.take(k as int + 1).drop_last() =~= ps.take(k as int));
            let p = placements[k];
            if let Some(i) = self.window_for_layout_id(p.window) {
                proof {
                    lemma_index_of_root_range(roots(self.windows@), p.window);
                }
                if !self.window_has_constrained_state(i) {
                    shown.push((i, self.windows[i].target));
                }
            }
            k += 1;
        }
        assert(ps.take(ps.len() as int) =~= ps);
        HorizontalLayoutScrollFrame { selected, placements: shown, monitor_geometry }
    }

    /// The windows of `space` whose tile moved between the placements
    /// `before` and `after` a resize, with their geometry targets.
    pub fn resized_layout_windows(
        &self,
        before: &Vec<LayoutPlacement>,
        after: &Vec<LayoutPlacement>,
        space: LayoutSpace,
    ) -> (r: Vec<(usize, Rect)>)
        ensures
            r@ == resized_windows(self.windows@, self.layout_spaces@, before@, after@, space),
    {
        let ghost ps = after@;
        let mut moved: Vec<(usize, Rect)> = Vec::new();
        let mut k: usize = 0;
        while k < after.len()
            invariant
                k <= after.len(),
                ps == after@,
                moved@ == resized_windows(self.windows@, self.layout_spaces@, before@, ps.take(k as int), space),
            decreases after.len() - k,
        {
            assert(ps.take(k as int + 1).drop_last() =~= ps.take(k as int));
            let p = after[k];
            let previous = last_placed_geometry(before, p.window);
            let same_space = match self.layout_spaces.get(&p.window) {
                Some(s) => *s == space,
                None => false,
            };
            if previous != Some(p.geometry) && same_space {
                if let Some(i) = self.window_for_layout_id(p.window) {
                    proof {
                        lemma_index_of_root_range(roots(self.windows@), p.window);
                    }
                    moved.push((i, self.windows[i].target));
                }
            }
            k += 1;
        }
        assert(ps.take(ps.len() as int) =~= ps);
        moved
    }
}

fn last_placed_geometry(placements: &Vec<LayoutPlacement>, window: u64) -> (r: Option<Rect>)
    ensures
        r == placed_geometry(placements@, window),
{
    let mut j: usize = placements.len();
    assert(placements@.take(j as int) =~= placements@);
    while j > 0
        invariant
            j <= placements.len(),
            placed_geometry(placements@, window) == placed_geometry(placements@.take(j as int), window),
        decreases j,
    {
        assert(placements@.take(j as int).drop_last() =~= placements@.take(j - 1));
        let p = placements[j - 1];
        if p.window == window {
            return Some(p.geometry);
        }
        j -= 1;
    }
    None
}

} // verus!
