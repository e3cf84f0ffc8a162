use vstd::prelude::*;

use crate::axis::{scrolling_layout_axis, spec_scrolling_layout_axis, LayoutAxis};
use crate::geometry::{layout_drop_distance, spec_layout_drop_distance, Point, Rect};
use crate::model::{LayoutInsertion, LayoutSpace, WaylandFrontend};

verus! {

/// `i` is the first output whose logical geometry contains `p`.
pub open spec fn first_output_containing(outputs: Seq<crate::model::OutputRecord>, p: Point, i: int) -> bool {
    &&& 0 <= i < outputs.len()
    &&& outputs[i].logical_geometry.spec_contains(p)
    &&& forall|j: int| 0 <= j < i ==> !outputs[j].logical_geometry.spec_contains(p)
}

/// What the layout needs to prepare and arrange one space.
#[derive(Clone, Copy, Debug, PartialEq, Eq, Structural)]
pub struct ArrangeRequest {
    pub space: LayoutSpace,
    pub work_area: Rect,
    pub gap: i32,
    pub axis: LayoutAxis,
}

/// Everything a scrolling gesture on the focused tile needs.
#[derive(Clone, Copy, Debug, PartialEq, Eq, Structural)]
pub struct ScrollContext {
    pub space: LayoutSpace,
    pub work_area: Rect,
    pub gap: i32,
    pub monitor_geometry: Rect,
    pub axis: LayoutAxis,
}

/// How an overview drop resolves.
#[derive(Clone, Copy, Debug, PartialEq, Eq, Structural)]
pub enum LayoutDrop {
    /// The window floats: the caller places it as usual.
    Floating,
    /// The layout keeps the window where it is.
    Kept,
    /// The dragged leaf exchanges places with the window at `target`.
    Swap { target: usize },
    /// The leaf moves into an empty space.
    Insert(LayoutInsertion),
}

/// A window index as a mathematical integer.
pub open spec fn as_index(r: Option<usize>) -> Option<int> {
    match r {
        Some(i) => Some(i as int),
        None => None,
    }
}

impl WaylandFrontend {
    /// The requests for one output, one per workspace in order.
    pub open spec fn spec_output_requests(&self, o: int) -> Seq<ArrangeRequest> {
        let out = self.outputs@[o];
        Seq::new(
            self.spec_layout_workspace_count() as nat,
            |j: int|
                ArrangeRequest {
                    space: LayoutSpace { output: out.id, workspace: (j + 1) as u8 },
                    work_area: out.work_area,
                    gap: crate::frontend::spec_layout_gap(self.maximize_padding),
                    axis: spec_scrolling_layout_axis(out.transform),
                },
        )
    }

    /// The requests for the first `n` outputs.
    pub open spec fn spec_arrange_requests(&self, n: int) -> Seq<ArrangeRequest>
        decreases n,
    {
        if n <= 0 {
            seq![]
        } else {
            self.spec_arrange_requests(n - 1) + self.spec_output_requests(n - 1)
        }
    }

    /// Window `i` is a tile of `space` that is neither fullscreen nor
    /// maximized.
    pub open spec fn spec_free_tile_in(&self, i: int, space: LayoutSpace) -> bool {
        &&& self.spec_managed_layout_space(i) == Some(space)
        &&& !self.windows@[i].spec_constrained()
    }

    /// Window `i` is a free tile of `space` under `p`.
    pub open spec fn spec_swap_candidate(&self, i: int, space: LayoutSpace, p: Point) -> bool {
        &&& self.spec_free_tile_in(i, space)
        &&& self.windows@[i].target.spec_contains(p)
    }

    /// The space an output currently shows.
    pub open spec fn spec_shown_space(&self, o: int) -> LayoutSpace {
        LayoutSpace {
            output: self.outputs@[o].id,
            workspace: self.spec_active_workspace(self.outputs@[o].id),
        }
    }

    /// `r` is where a tile dragged from window `w` lands at `location`:
    /// nothing for a window outside the layout or a location outside every
    /// output; else the topmost free tile under `location` on the workspace
    /// that output shows; else that workspace's free tile whose centre is
    /// nearest, the lowest such window on a tie; else nothing.
    pub open spec fn spec_is_drop_target(&self, w: int, location: Point, r: Option<int>) -> bool {
        &&& self.spec_managed_layout_space(w) is None ==> r is None
        &&& (forall|o: int| !first_output_containing(self.outputs@, location, o)) ==> r is None
        &&& r matches Some(i) ==> 0 <= i < self.windows@.len() && exists|o: int|
            {
                &&& first_output_containing(self.outputs@, location, o)
                &&& self.spec_free_tile_in(i, self.spec_shown_space(o))
            }
        &&& forall|o: int|
            #![trigger first_output_containing(self.outputs@, location, o)]
            self.spec_managed_layout_space(w) is Some && first_output_containing(self.outputs@, location, o) ==> {
                let space = self.spec_shown_space(o);
                if exists|j: int| 0 <= j < self.windows@.len() && self.spec_swap_candidate(j, space, location) {
                    r matches Some(i) && self.spec_swap_candidate(i, space, location) && forall|j: int|
                        i < j < self.windows@.len() ==> !self.spec_swap_candidate(j, space, location)
                } else if exists|j: int| 0 <= j < self.windows@.len() && self.spec_free_tile_in(j, space) {
                    r matches Some(i) && self.spec_free_tile_in(i, space) && forall|j: int|
                        0 <= j < self.windows@.len() && #[trigger] self.spec_free_tile_in(j, space) ==> {
                            &&& spec_layout_drop_distance(self.windows@[i].target, location)
                                <= spec_layout_drop_distance(self.windows@[j].target, location)
                            &&& j < i ==> spec_layout_drop_distance(self.windows@[i].target, location)
                                < spec_layout_drop_distance(self.windows@[j].target, location)
                        }
                } else {
                    r is None
                }
            }
    }

    /// The drop target is determined by the frontend state, the dragged
    /// window and the location.
    pub proof fn lemma_drop_target_unique(&self, w: int, location: Point, r1: Option<int>, r2: Option<int>)
        requires
            self.spec_is_drop_target(w, location, r1),
            self.spec_is_drop_target(w, location, r2),
        ensures
            r1 == r2,
    {
        if self.spec_managed_layout_space(w) is Some && exists|o: int| first_output_containing(self.outputs@, location, o) {
            let o = choose|o: int| first_output_containing(self.outputs@, location, o);
            let space = self.spec_shown_space(o);
            if exists|j: int| 0 <= j < self.windows@.len() && self.spec_swap_candidate(j, space, location) {
                let i1 = r1->0;
                let i2 = r2->0;
                if i1 < i2 {
                    assert(!self.spec_swap_candidate(i2, space, location));
                } else if i2 < i1 {
                    assert(!self.spec_swap_candidate(i1, space, location));
                }
            } else if exists|j: int| 0 <= j < self.windows@.len() && self.spec_free_tile_in(j, space) {
                let i1 = r1->0;
                let i2 = r2->0;
                assert(self.spec_free_tile_in(i1, space));
                assert(self.spec_free_tile_in(i2, space));
            }
        }
    }

    /// The prepare and arrange requests of one arrangement pass: every
    /// output in order, and on each every workspace from the first. The
    /// layout's placements are expected in this order.
    pub fn prepare_layout_arrangement(&self) -> (r: Vec<ArrangeRequest>)
        ensures
            r@ == self.spec_arrange_requests(self.outputs@.len() as int),
    {
        let gap = self.layout_gap();
        let count = self.layout_workspace_count();
        let mut r: Vec<ArrangeRequest> = Vec::new();
        let mut o: usize = 0;
        while o < self.outputs.len()
            invariant
                o <= self.outputs.len(),
                gap == crate::frontend::spec_layout_gap(self.maximize_padding),
                count == self.spec_layout_workspace_count(),
                r@ == self.spec_arrange_requests(o as int),
            decreases self.outputs.len() - o,
        {
            let out = self.outputs[o];
            let axis = scrolling_layout_axis(out.transform);
            let ghost base = r@;
            let mut w: u16 = 1;
            while w <= count as u16
                invariant
                    1 <= w <= count as u16 + 1,
                    o < self.outputs.len(),
                    out == self.outputs@[o as int],
                    axis == spec_scrolling_layout_axis(out.transform),
                    gap == crate::frontend::spec_layout_gap(self.maximize_padding),
                    count == self.spec_layout_workspace_count(),
                    r@ == base + self.spec_output_requests(o as int).take(w - 1),
                decreases count as u16 + 1 - w,
            {
                r.push(ArrangeRequest { space: LayoutSpace::new(out.id, w as u8), work_area: out.work_area, gap, axis });
                assert(self.spec_output_requests(o as int).take(w as int) =~= self.spec_output_requests(
                    o as int,
                ).take(w - 1).push(self.spec_output_requests(o as int)[w - 1]));
                w += 1;
            }
            assert(self.spec_output_requests(o as int).take(count as int) =~= self.spec_output_requests(o as int));
            o += 1;
        }
        r
    }

    /// The first output whose logical geometry contains `p`.
    pub fn output_at(&self, p: Point) -> (r: Option<usize>)
        ensures
            match r {
                Some(i) => first_output_containing(self.outputs@, p, i as int),
                None => forall|j: int|
                    0 <= j < self.outputs@.len() ==> !self.outputs@[j].logical_geometry.spec_contains(p),
            },
    {
        let mut i: usize = 0;
        while i < self.outputs.len()
            invariant
                i <= self.outputs.len(),
                forall|j: int| 0 <= j < i ==> !self.outputs@[j].logical_geometry.spec_contains(p),
            decreases self.outputs.len() - i,
        {
            if self.outputs[i].logical_geometry.contains(p) {
                return Some(i);
            }
            i += 1;
        }
        None
    }

    /// The topmost free tile under `location` on the workspace its output
    /// shows.
    pub fn layout_swap_target_at(&self, location: Point) -> (r: Option<usize>)
        ensures
            match r {
                Some(i) => exists|o: int|
                    {
                        &&& first_output_containing(self.outputs@, location, o)
                        &&& 0 <= i < self.windows@.len()
                        &&& self.spec_swap_candidate(i as int, self.spec_shown_space(o), location)
                        &&& forall|j: int|
                            i < j < self.windows@.len() ==> !self.spec_swap_candidate(
                                j,
                                self.spec_shown_space(o),
                                location,
                            )
                    },
                None => forall|o: int|
                    first_output_containing(self.outputs@, location, o) ==> forall|j: int|
                        0 <= j < self.windows@.len() ==> !self.spec_swap_candidate(
                            j,
                            self.spec_shown_space(o),
                            location,
                        ),
            },
    {
        let o = match self.output_at(location) {
            Some(o) => o,
            None => return None,
        };
        let output = self.outputs[o].id;
        let space = LayoutSpace::new(output, self.active_workspace(output));
        assert(space == self.spec_shown_space(o as int));
        let mut i: usize = self.windows.len();
        while i > 0
            invariant
                i <= self.windows.len(),
                space == self.spec_shown_space(o as int),
                first_output_containing(self.outputs@, location, o as int),
                forall|j: int| i <= j < self.windows@.len() ==> !self.spec_swap_candidate(j, space, location),
            decreases i,
        {
            let k = i - 1;
            if self.managed_layout_space(k) == Some(space) && !self.window_has_constrained_state(k)
                && self.windows[k].target.contains(location) {
                return Some(k);
            }
            i -= 1;
        }
        proof {
            assert forall|o2: int| first_output_containing(self.outputs@, location, o2) implies o2 == o by {
                if o2 < o {
                    assert(!self.outputs@[o2].logical_geometry.spec_contains(location));
                } else if o < o2 {
                    assert(!self.outputs@[o as int].logical_geometry.spec_contains(location));
                }
            }
        }
        None
    }

    /// Where a dragged tile lands: the topmost free tile under `location`,
    /// else the free tile of that output's shown workspace whose centre is
    /// nearest, the lowest such window on a tie. Windows outside the layout
    /// have no drop target.
    pub fn layout_drop_target_at(&self, window: usize, location: Point) -> (r: Option<usize>)
        requires
            window < self.windows.len(),
        ensures
            self.spec_is_drop_target(window as int, location, as_index(r)),
    {
        if !self.window_is_layout_managed(window) {
            return None;
        }
        let o = match self.output_at(location) {
            Some(o) => o,
            None => return None,
        };
        proof {
            assert forall|o2: int| first_output_containing(self.outputs@, location, o2) implies o2 == o by {
                if o2 < o {
                    assert(!self.outputs@[o2].logical_geometry.spec_contains(location));
                } else if o < o2 {
                    assert(!self.outputs@[o as int].logical_geometry.spec_contains(location));
                }
            }
        }
        let swap = self.layout_swap_target_at(location);
        if swap.is_some() {
            return swap;
        }
        let output = self.outputs[o].id;
        let space = LayoutSpace::new(output, self.active_workspace(output));
        assert(space == self.spec_shown_space(o as int));
        let mut best: Option<usize> = None;
        let mut best_distance: i128 = 0;
        let mut i: usize = 0;
        while i < self.windows.len()
            invariant
                i <= self.windows.len(),
                space == self.spec_shown_space(o as int),
                match best {
                    Some(b) => {
                        &&& b < i
                        &&& self.spec_free_tile_in(b as int, space)
                        &&& best_distance == spec_layout_drop_distance(self.windows@[b as int].target, location)
                        &&& forall|j: int|
                            0 <= j < i && #[trigger] self.spec_free_tile_in(j, space) ==> {
                                &&& best_distance <= spec_layout_drop_distance(self.windows@[j].target, location)
                                &&& j < b ==> best_distance < spec_layout_drop_distance(
                                    self.windows@[j].target,
                                    location,
                                )
                            }
                    },
                    None => forall|j: int| 0 <= j < i ==> !self.spec_free_tile_in(j, space),
                },
            decreases self.windows.len() - i,
        {
            if self.managed_layout_space(i) == Some(space) && !self.window_has_constrained_state(i) {
                let d = layout_drop_distance(self.windows[i].target, location);
                match best {
                    Some(_) => {
                        if d < best_distance {
                            best = Some(i);
                            best_distance = d;
                        }
                    },
                    None => {
                        best = Some(i);
                        best_distance = d;
                    },
                }
            }
            i += 1;
        }
        best
    }

    /// Resolve an overview drop without giving up geometry ownership: a
    /// populated destination exchanges leaves (see `swap_layout_windows`), an empty output receives the
    /// leaf on its shown workspace, and a floating window is left to
    /// ordinary placement.
    pub fn apply_layout_drop(&mut self, window: usize, location: Point) -> (r: LayoutDrop)
        requires
            window < old(self).windows.len(),
        ensures
            old(self).spec_managed_layout_space(window as int) is None <==> r == LayoutDrop::Floating,
            (old(self).spec_managed_layout_space(window as int) is Some && forall|o: int|
                !first_output_containing(old(self).outputs@, location, o)) ==> r == LayoutDrop::Kept,
            forall|o: int, t: Option<int>|
                #![trigger first_output_containing(old(self).outputs@, location, o), old(self).spec_is_drop_target(window as int, location, t)]
                old(self).spec_managed_layout_space(window as int) is Some
                    && first_output_containing(old(self).outputs@, location, o)
                    && old(self).spec_is_drop_target(window as int, location, t) ==> match t {
                    Some(x) => if x == window {
                        r == LayoutDrop::Kept
                    } else {
                        r == LayoutDrop::Swap { target: x as usize }
                    },
                    None => r == LayoutDrop::Insert(
                        LayoutInsertion {
                            window: old(self).windows@[window as int].root->0,
                            space: old(self).spec_shown_space(o),
                            anchor: None,
                        },
                    ),
                },
            r matches LayoutDrop::Insert(ins) ==> forall|o: int, k: int|
                first_output_containing(old(self).outputs@, location, o) && crate::frontend::first_output_with_id(
                    old(self).outputs@,
                    old(self).outputs@[o].id,
                    k,
                ) ==> ins.space == (LayoutSpace {
                    output: old(self).outputs@[o].id,
                    workspace: old(self).outputs@[k].active_workspace,
                }),
            r matches LayoutDrop::Insert(ins) ==> final(self).layout_spaces@ == old(self).layout_spaces@.insert(
                ins.window,
                ins.space,
            ),
            r matches LayoutDrop::Swap { target } ==> {
                &&& target < old(self).windows@.len()
                &&& old(self).windows@[window as int].root is Some
                &&& old(self).windows@[target as int].root is Some
            },
            !(r is Insert) ==> final(self).layout_spaces@ == old(self).layout_spaces@,
            final(self).windows == old(self).windows,
            final(self).outputs == old(self).outputs,
            final(self).layout_kind == old(self).layout_kind,
            final(self).layout_restore_geometries@ == old(self).layout_restore_geometries@,
            final(self).restore_window_geometries@ == old(self).restore_window_geometries@,
            final(self).layout_insertion_anchors@ == old(self).layout_insertion_anchors@,
            final(self).surface_ids@ == old(self).surface_ids@,
            final(self).window_workspaces@ == old(self).window_workspaces@,
            final(self).minimized_window_outputs@ == old(self).minimized_window_outputs@,
            final(self).maximize_padding == old(self).maximize_padding,
            final(self).workspaces_enabled == old(self).workspaces_enabled,
            final(self).workspace_count == old(self).workspace_count,
            final(self).focused_root == old(self).focused_root,
            final(self).ticker_output == old(self).ticker_output,
            final(self).mobile_shell == old(self).mobile_shell,
            final(self).shell_maximize_restore_geometries@ == old(self).shell_maximize_restore_geometries@,
            final(self).shell_fullscreen_restore_geometries@ == old(self).shell_fullscreen_restore_geometries@,
    {
        if !self.window_is_layout_managed(window) {
            return LayoutDrop::Floating;
        }
        let o = match self.output_at(location) {
            Some(o) => o,
            None => return LayoutDrop::Kept,
        };
        let root = match self.windows[window].root {
            Some(root) => root,
            None => return LayoutDrop::Kept,
        };
        proof {
            assert forall|o2: int| first_output_containing(self.outputs@, location, o2) implies o2 == o by {
                if o2 < o {
                    assert(!self.outputs@[o2].logical_geometry.spec_contains(location));
                } else if o < o2 {
                    assert(!self.outputs@[o as int].logical_geometry.spec_contains(location));
                }
            }
        }
        let target = self.layout_drop_target_at(window, location);
        proof {
            assert forall|t: Option<int>| self.spec_is_drop_target(window as int, location, t) implies t == as_index(target) by {
                self.lemma_drop_target_unique(window as int, location, t, as_index(target));
            }
        }
        match target {
            Some(target) => {
                if target != window {
                    return LayoutDrop::Swap { target };
                }
                return LayoutDrop::Kept;
            },
            None => {},
        }
        let output = self.outputs[o].id;
        let space = LayoutSpace::new(output, self.active_workspace(output));
        assert(space == self.spec_shown_space(o as int));
        self.layout_spaces.insert(root, space);
        LayoutDrop::Insert(LayoutInsertion { window: root, space, anchor: None })
    }
}

} // verus!
