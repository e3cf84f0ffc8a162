use vstd::prelude::*;

use crate::geometry::{Rect, Size};
use crate::model::{index_of_root, lemma_index_of_root_absent, lemma_index_of_root_found, roots, LayoutSpace, OutputRecord, WaylandFrontend};
use crate::properties::LayoutWindowProperties;

verus! {

/// The gap between tiles: the rounded maximize padding, never negative,
/// saturating at `i32::MAX`, and zero when the padding is not finite.
pub open spec fn spec_layout_gap(padding: Option<i64>) -> i32 {
    match padding {
        None => 0,
        Some(p) => if p <= 0 {
            0
        } else if p >= i32::MAX {
            i32::MAX
        } else {
            p as i32
        },
    }
}

/// The first output with id `output`.
pub open spec fn first_output_with_id(outputs: Seq<OutputRecord>, output: u32, i: int) -> bool {
    &&& 0 <= i < outputs.len()
    &&& outputs[i].id == output
    &&& forall|j: int| 0 <= j < i ==> outputs[j].id != output
}

impl WaylandFrontend {
    pub open spec fn spec_layout_workspace_count(&self) -> u8 {
        if self.workspaces_enabled {
            self.workspace_count
        } else {
            1
        }
    }

    /// The layout space of the window at `w`, if the layout holds it.
    pub open spec fn spec_managed_layout_space(&self, w: int) -> Option<LayoutSpace> {
        match self.windows@[w].root {
            Some(r) => if self.layout_spaces@.contains_key(r) {
                Some(self.layout_spaces@[r])
            } else {
                None
            },
            None => None,
        }
    }

    /// The rectangle a window floats at when it leaves a managed layout: the
    /// geometry the shell would return a maximized or fullscreen window to,
    /// else the one a fullscreen or maximized client returns to, else
    /// `fallback`.
    pub open spec fn spec_stacking_geometry_for_layout(&self, w: int, fallback: Rect) -> Rect {
        match self.windows@[w].root {
            Some(r) => if self.shell_maximize_restore_geometries@.contains_key(r) {
                self.shell_maximize_restore_geometries@[r]
            } else if self.shell_fullscreen_restore_geometries@.contains_key(r) {
                self.shell_fullscreen_restore_geometries@[r]
            } else if self.restore_window_geometries@.contains_key(r) {
                self.restore_window_geometries@[r]
            } else {
                fallback
            },
            None => fallback,
        }
    }

    pub fn window_layout_manages_geometry(&self) -> (r: bool)
        ensures
            r == self.layout_kind.spec_manages_geometry(),
    {
        self.layout_kind.manages_geometry()
    }

    /// The first window whose root surface is `window_id`.
    pub fn window_for_layout_id(&self, window_id: u64) -> (r: Option<usize>)
        ensures
            match r {
                Some(i) => index_of_root(roots(self.windows@), window_id) == Some(i as int),
                None => index_of_root(roots(self.windows@), window_id) is None,
            },
    {
        let ghost rs = roots(self.windows@);
        let mut i: usize = 0;
        while i < self.windows.len()
            invariant
                i <= self.windows.len(),
                rs == roots(self.windows@),
                forall|j: int| 0 <= j < i ==> rs[j] != Some(window_id),
            decreases self.windows.len() - i,
        {
            if self.windows[i].root == Some(window_id) {
                proof {
                    lemma_index_of_root_found(rs, window_id, i as int);
                }
                return Some(i);
            }
            i += 1;
        }
        proof {
            lemma_index_of_root_absent(rs, window_id);
        }
        None
    }

    pub fn managed_layout_space(&self, window: usize) -> (r: Option<LayoutSpace>)
        requires
            window < self.windows.len(),
        ensures
            r == self.spec_managed_layout_space(window as int),
    {
        match self.windows[window].root {
            Some(root) => match self.layout_spaces.get(&root) {
                Some(space) => Some(*space),
                None => None,
            },
            None => None,
        }
    }

    pub fn window_is_layout_managed(&self, window: usize) -> (r: bool)
        requires
            window < self.windows.len(),
        ensures
            r == self.spec_managed_layout_space(window as int) is Some,
    {
        self.managed_layout_space(window).is_some()
    }

    pub fn window_has_constrained_state(&self, window: usize) -> (r: bool)
        requires
            window < self.windows.len(),
        ensures
            r == self.windows@[window as int].spec_constrained(),
    {
        let w = self.windows[window];
        w.shell_constrained || (w.managed && w.fullscreen)
    }

    pub fn window_layout_eligible(&self, window: usize) -> (r: bool)
        requires
            window < self.windows.len(),
        ensures
            r == self.windows@[window as int].spec_layout_eligible(),
            ({
                let w = self.windows@[window as int];
                r <==> (w.root is Some && w.managed && w.alive && !w.transient && !w.auxiliary && !w.override_redirect
                    && !w.minimized)
            }),
    {
        let w = self.windows[window];
        if w.root.is_none() || !w.managed {
            return false;
        }
        LayoutWindowProperties {
            alive: w.alive,
            transient: w.transient,
            auxiliary: w.auxiliary,
            override_redirect: w.override_redirect,
            minimized: w.minimized,
        }.is_tiling_candidate()
    }

    /// The client's minimum and maximum sizes, zero when it reports none.
    pub fn window_size_constraints(&self, window: usize) -> (r: (Size, Size))
        requires
            window < self.windows.len(),
        ensures
            ({
                let w = self.windows@[window as int];
                if w.managed {
                    r == (w.minimum_size, w.maximum_size)
                } else {
                    r == (Size { w: 0, h: 0 }, Size { w: 0, h: 0 })
                }
            }),
    {
        let w = self.windows[window];
        if w.managed {
            (w.minimum_size, w.maximum_size)
        } else {
            (Size { w: 0, h: 0 }, Size { w: 0, h: 0 })
        }
    }

    pub fn stacking_geometry_for_layout(&self, window: usize, fallback: Rect) -> (r: Rect)
        requires
            window < self.windows.len(),
        ensures
            r == self.spec_stacking_geometry_for_layout(window as int, fallback),
    {
        let root = match self.windows[window].root {
            Some(root) => root,
            None => return fallback,
        };
        if let Some(restore) = self.shell_maximize_restore_geometries.get(&root) {
            return *restore;
        }
        if let Some(restore) = self.shell_fullscreen_restore_geometries.get(&root) {
            return *restore;
        }
        match self.restore_window_geometries.get(&root) {
            Some(restore) => *restore,
            None => fallback,
        }
    }

    pub fn layout_gap(&self) -> (r: i32)
        ensures
            r == spec_layout_gap(self.maximize_padding),
            r >= 0,
    {
        match self.maximize_padding {
            None => 0,
            Some(p) => if p <= 0 {
                0
            } else if p >= i32::MAX as i64 {
                i32::MAX
            } else {
                p as i32
            },
        }
    }

    pub fn layout_workspace_count(&self) -> (r: u8)
        ensures
            r == self.spec_layout_workspace_count(),
    {
        if self.workspaces_enabled {
            self.workspace_count
        } else {
            1
        }
    }

    /// The first output whose id is `output`.
    pub fn output_index(&self, output: u32) -> (r: Option<usize>)
        ensures
            match r {
                Some(i) => first_output_with_id(self.outputs@, output, i as int),
                None => forall|j: int| 0 <= j < self.outputs.len() ==> self.outputs@[j].id != output,
            },
    {
        let mut i: usize = 0;
        while i < self.outputs.len()
            invariant
                i <= self.outputs.len(),
                forall|j: int| 0 <= j < i ==> self.outputs@[j].id != output,
            decreases self.outputs.len() - i,
        {
            if self.outputs[i].id == output {
                return Some(i);
            }
            i += 1;
        }
        None
    }
}

} // verus!
