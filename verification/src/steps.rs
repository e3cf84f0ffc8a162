use vstd::prelude::*;

use crate::arrange::{arrange_changed, arrange_changed_from, arrange_outcome, arrange_outcome_from};
use crate::geometry::{Rect, Size};
use crate::model::{index_of_root, roots, same_tables, GeometryCommand, LayoutPlacement, LayoutSpace, WaylandFrontend};
use crate::scroll::{resized_windows, scroll_frame_windows, HorizontalLayoutScrollFrame};
use crate::targets::ScrollContext;
use crate::enroll::{lemma_output_index_of_found, output_index_of};
use crate::frontend::spec_layout_gap;

verus! {

/// A tile with the space it belongs to and that space's arrangement inputs.
#[derive(Clone, Copy, Debug, PartialEq, Eq, Structural)]
pub struct LayoutWindowContext {
    pub window_id: u64,
    pub space: LayoutSpace,
    pub work_area: Rect,
    pub gap: i32,
}

/// The layout membership after the leaves of `first` and `second` exchange
/// places.
pub open spec fn swapped_spaces(spaces: Map<u64, LayoutSpace>, first: u64, second: u64) -> Map<u64, LayoutSpace> {
    spaces.insert(first, spaces[second]).insert(second, spaces[first])
}

impl WaylandFrontend {
    /// The context of window `w` as a tile: its root id, its layout space,
    /// and that output's work area and gap.
    pub open spec fn spec_layout_window_context(&self, w: int) -> Option<LayoutWindowContext> {
        match self.windows@[w].root {
            Some(r) => if self.layout_spaces@.contains_key(r) {
                let space = self.layout_spaces@[r];
                match output_index_of(self.outputs@, space.output) {
                    Some(o) => Some(
                        LayoutWindowContext {
                            window_id: r,
                            space,
                            work_area: self.outputs@[o].work_area,
                            gap: spec_layout_gap(self.maximize_padding),
                        },
                    ),
                    None => None,
                }
            } else {
                None
            },
            None => None,
        }
    }

    /// Follow an activated window in layouts with a movable viewport.
    /// `activated` is the layout's answer to activating the window's leaf and
    /// `placements` are its placements afterwards. A window without a root
    /// surface, or a refused activation, changes nothing and reports no
    /// change; otherwise the windows are arranged and the arrangement's
    /// change is reported.
    pub fn activate_layout_window(
        &mut self,
        window: usize,
        activated: bool,
        placements: &Vec<LayoutPlacement>,
    ) -> (r: (bool, Vec<GeometryCommand>))
        requires
            window < old(self).windows.len(),
        ensures
            old(self).windows@[window as int].root is None || !activated ==> {
                &&& !r.0
                &&& r.1@.len() == 0
                &&& final(self).windows == old(self).windows
                &&& final(self).layout_spaces@ == old(self).layout_spaces@
                &&& same_tables(*old(self), *final(self))
            },
            old(self).windows@[window as int].root is Some && activated ==> arrange_outcome(
                *old(self),
                *final(self),
                placements@,
                r.0,
                r.1@,
            ),
    {
        if self.windows[window].root.is_none() || !activated {
            return (false, Vec::new());
        }
        self.arrange_layout_windows(placements)
    }

    /// What resizing or stepping from window `w` needs: nothing when the
    /// window has no root, is not a tile, or its output is gone.
    pub fn layout_window_context(&self, window: usize) -> (r: Option<LayoutWindowContext>)
        requires
            window < self.windows.len(),
        ensures
            r == self.spec_layout_window_context(window as int),
            r matches Some(c) ==> {
                &&& self.windows@[window as int].root == Some(c.window_id)
                &&& self.layout_spaces@.contains_key(c.window_id)
                &&& c.space == self.layout_spaces@[c.window_id]
                &&& forall|o: int|
                    crate::frontend::first_output_with_id(self.outputs@, c.space.output, o) ==> c.work_area
                        == self.outputs@[o].work_area
            },
    {
        proof {
            crate::laws::lemma_window_context_output(self, window as int);
        }
        let root = match self.windows[window].root {
            Some(root) => root,
            None => return None,
        };
        let space = match self.layout_spaces.get(&root) {
            Some(space) => *space,
            None => return None,
        };
        match self.output_index(space.output) {
            Some(o) => {
                proof {
                    lemma_output_index_of_found(self.outputs@, space.output, o as int);
                }
                Some(
                    LayoutWindowContext {
                        window_id: root,
                        space,
                        work_area: self.outputs[o].work_area,
                        gap: self.layout_gap(),
                    },
                )
            },
            None => {
                assert(!(exists|i: int| crate::frontend::first_output_with_id(self.outputs@, space.output, i)));
                None
            },
        }
    }

    /// Exchange two leaves, across layout spaces too. `swapped` is the
    /// layout's answer to swapping the leaves of the two windows' root
    /// surfaces; when it swapped, it activated the first so that the dragged
    /// leaf is active in its destination, and `placements` are its placements
    /// afterwards. A window without a root surface, or a refused swap,
    /// changes nothing and reports `false`. Otherwise the two windows
    /// exchange layout spaces, the windows are arranged, and `true` is
    /// reported.
    pub fn swap_layout_windows(
        &mut self,
        first: usize,
        second: usize,
        swapped: bool,
        placements: &Vec<LayoutPlacement>,
    ) -> (r: (bool, Vec<GeometryCommand>))
        requires
            first < old(self).windows.len(),
            second < old(self).windows.len(),
        ensures
            ({
                let a = old(self).windows@[first as int].root;
                let b = old(self).windows@[second as int].root;
                let spaces = old(self).layout_spaces@;
                if a is Some && b is Some && swapped {
                    let exchanged = if spaces.contains_key(a->0) && spaces.contains_key(b->0) {
                        swapped_spaces(spaces, a->0, b->0)
                    } else {
                        spaces
                    };
                    &&& r.0
                    &&& arrange_outcome_from(
                        *old(self),
                        exchanged,
                        *final(self),
                        placements@,
                        arrange_changed_from(*old(self), exchanged, placements@),
                        r.1@,
                    )
                } else {
                    &&& !r.0
                    &&& r.1@.len() == 0
                    &&& final(self).windows == old(self).windows
                    &&& final(self).layout_spaces@ == spaces
                    &&& same_tables(*old(self), *final(self))
                }
            }),
    {
        let a = match self.windows[first].root {
            Some(a) => a,
            None => return (false, Vec::new()),
        };
        let b = match self.windows[second].root {
            Some(b) => b,
            None => return (false, Vec::new()),
        };
        if !swapped {
            return (false, Vec::new());
        }
        let sa = match self.layout_spaces.get(&a) {
            Some(s) => Some(*s),
            None => None,
        };
        let sb = match self.layout_spaces.get(&b) {
            Some(s) => Some(*s),
            None => None,
        };
        if let (Some(sa), Some(sb)) = (sa, sb) {
            self.layout_spaces.insert(a, sb);
            self.layout_spaces.insert(b, sa);
        }
        let ghost mid = *self;
        let (changed, commands) = self.arrange_layout_windows(placements);
        assert(arrange_outcome(mid, *self, placements@, changed, commands@));
        (true, commands)
    }

    /// Float a window that left the layout at `restore`, with the size
    /// `size` that the client's limits allow for it: the geometry target
    /// moves there, and a managed client is told its restored size.
    pub fn restore_detached_window_geometry(&mut self, window: usize, restore: Rect, size: Size) -> (r: Option<GeometryCommand>)
        requires
            window < old(self).windows.len(),
        ensures
            final(self).windows@ == old(self).windows@.update(
                window as int,
                old(self).windows@[window as int].with_target(Rect { loc: restore.loc, size }),
            ),
            old(self).windows@[window as int].managed ==> r == Some(
                GeometryCommand::PrepareRestore { window, size, detached: true },
            ),
            !old(self).windows@[window as int].managed ==> r is None,
            old(self).spec_shell_constraints_consistent() ==> final(self).spec_shell_constraints_consistent(),
            final(self).layout_spaces@ == old(self).layout_spaces@,
            same_tables(*old(self), *final(self)),
    {
        let mut w = self.windows[window];
        w.target = Rect { loc: restore.loc, size };
        self.windows.set(window, w);
        if w.managed {
            Some(GeometryCommand::PrepareRestore { window, size, detached: true })
        } else {
            None
        }
    }

    /// After the layout answered a resize of a tile in `space`: nothing
    /// happens when it refused; otherwise the windows are arranged with the
    /// placements `after` and the tiles of `space` whose rectangle differs
    /// from `before` are reported with their new geometry targets.
    pub fn resize_layout_window(
        &mut self,
        space: LayoutSpace,
        resized: bool,
        before: &Vec<LayoutPlacement>,
        after: &Vec<LayoutPlacement>,
    ) -> (r: (Vec<(usize, Rect)>, Vec<GeometryCommand>))
        ensures
            !resized ==> r.0@.len() == 0 && r.1@.len() == 0 && final(self).windows == old(self).windows
                && final(self).layout_spaces@ == old(self).layout_spaces@ && same_tables(*old(self), *final(self)),
            resized ==> {
                &&& arrange_outcome(*old(self), *final(self), after@, arrange_changed(*old(self), after@), r.1@)
                &&& r.0@ == resized_windows(final(self).windows@, final(self).layout_spaces@, before@, after@, space)
            },
    {
        if !resized {
            return (Vec::new(), Vec::new());
        }
        let ghost pre = *self;
        assert(pre == *old(self));
        let (changed, commands) = self.arrange_layout_windows(after);
        assert(arrange_outcome(pre, *self, after@, changed, commands@));
        assert(changed == arrange_changed(pre, after@));
        let moved = self.resized_layout_windows(before, after, space);
        (moved, commands)
    }

    /// After the layout answered a scrolling gesture: nothing happens when
    /// it did not scroll; otherwise the windows are arranged with
    /// `placements` and the frame of the scrolled space is built from
    /// `frame_placements`, with no tile selected.
    pub fn scroll_layout_horizontally(
        &mut self,
        context: ScrollContext,
        scrolled: bool,
        placements: &Vec<LayoutPlacement>,
        frame_placements: &Vec<LayoutPlacement>,
    ) -> (r: Option<(HorizontalLayoutScrollFrame, Vec<GeometryCommand>)>)
        ensures
            !scrolled ==> r is None && final(self).windows == old(self).windows
                && final(self).layout_spaces@ == old(self).layout_spaces@ && same_tables(*old(self), *final(self)),
            scrolled ==> (r matches Some((frame, commands)) && {
                &&& arrange_outcome(*old(self), *final(self), placements@, arrange_changed(*old(self), placements@), commands@)
                &&& frame.selected is None
                &&& frame.monitor_geometry == context.monitor_geometry
                &&& frame.placements@ == scroll_frame_windows(final(self).windows@, frame_placements@)
            }),
    {
        if !scrolled {
            return None;
        }
        let ghost pre = *self;
        assert(pre == *old(self));
        let (changed, commands) = self.arrange_layout_windows(placements);
        assert(arrange_outcome(pre, *self, placements@, changed, commands@));
        assert(changed == arrange_changed(pre, placements@));
        let frame = self.horizontal_layout_scroll_frame(frame_placements, context.monitor_geometry, None);
        Some((frame, commands))
    }

    /// After the layout settled a scrolling gesture on the leaf `selected`:
    /// nothing happens when it settled on none; otherwise the windows are
    /// arranged with `placements` and the frame of the scrolled space is
    /// built from `frame_placements`, selecting the window of that leaf.
    pub fn finish_layout_horizontal_scroll(
        &mut self,
        context: ScrollContext,
        selected: Option<u64>,
        placements: &Vec<LayoutPlacement>,
        frame_placements: &Vec<LayoutPlacement>,
    ) -> (r: Option<(HorizontalLayoutScrollFrame, Vec<GeometryCommand>)>)
        ensures
            selected is None ==> r is None && final(self).windows == old(self).windows
                && final(self).layout_spaces@ == old(self).layout_spaces@ && same_tables(*old(self), *final(self)),
            selected matches Some(id) ==> (r matches Some((frame, commands)) && {
                &&& arrange_outcome(*old(self), *final(self), placements@, arrange_changed(*old(self), placements@), commands@)
                &&& match frame.selected {
                    Some(i) => index_of_root(roots(final(self).windows@), id) == Some(i as int),
                    None => index_of_root(roots(final(self).windows@), id) is None,
                }
                &&& frame.monitor_geometry == context.monitor_geometry
                &&& frame.placements@ == scroll_frame_windows(final(self).windows@, frame_placements@)
            }),
    {
        let id = match selected {
            Some(id) => id,
            None => return None,
        };
        let ghost pre = *self;
        assert(pre == *old(self));
        let (changed, commands) = self.arrange_layout_windows(placements);
        assert(arrange_outcome(pre, *self, placements@, changed, commands@));
        assert(changed == arrange_changed(pre, placements@));
        let window = self.window_for_layout_id(id);
        let frame = self.horizontal_layout_scroll_frame(frame_placements, context.monitor_geometry, window);
        Some((frame, commands))
    }
}

} // verus!
