use std::collections::HashMap;

use vstd::prelude::*;

use crate::geometry::{spec_visible_stacking_restore, visible_stacking_restore, Rect};
use crate::model::{
    index_of_root, roots, GeometryCommand, WaylandFrontend, WindowLayoutKind, WindowRecord,
};

verus! {

/// The floating rectangle that window `i` gets back when a managed layout
/// gives up geometry: its saved rectangle, made visible, if one was saved
/// for its root and `i` is the first window with that root.
pub open spec fn stacking_restore_of(ws: Seq<WindowRecord>, saved: Map<u64, Rect>, i: int) -> Option<Rect> {
    match ws[i].root {
        Some(r) => if saved.contains_key(r) && index_of_root(roots(ws), r) == Some(i) {
            Some(spec_visible_stacking_restore(saved[r], ws[i].target))
        } else {
            None
        },
        None => None,
    }
}

/// Window `i` after the stacking restore: it floats at its restore rectangle
/// unless it is fullscreen or maximized.
pub open spec fn restored_window(ws: Seq<WindowRecord>, saved: Map<u64, Rect>, i: int) -> WindowRecord {
    match stacking_restore_of(ws, saved, i) {
        Some(g) => if ws[i].spec_constrained() {
            ws[i]
        } else {
            ws[i].with_target(g)
        },
        None => ws[i],
    }
}

/// The rectangles that fullscreen and maximized windows return to, after the
/// first `n` windows have taken their restore rectangle.
pub open spec fn restored_constrained(
    ws: Seq<WindowRecord>,
    saved: Map<u64, Rect>,
    init: Map<u64, Rect>,
    n: int,
) -> Map<u64, Rect>
    decreases n,
{
    if n <= 0 {
        init
    } else {
        let m = restored_constrained(ws, saved, init, n - 1);
        match stacking_restore_of(ws, saved, n - 1) {
            Some(g) => if ws[n - 1].spec_constrained() {
                m.insert(ws[n - 1].root->0, g)
            } else {
                m
            },
            None => m,
        }
    }
}

/// A shell restore table after the first `n` windows: the entries of
/// fullscreen or maximized windows that already have one take the restore
/// rectangle; no entry is added.
pub open spec fn refreshed_shell_restores(
    ws: Seq<WindowRecord>,
    saved: Map<u64, Rect>,
    init: Map<u64, Rect>,
    n: int,
) -> Map<u64, Rect>
    decreases n,
{
    if n <= 0 {
        init
    } else {
        let m = refreshed_shell_restores(ws, saved, init, n - 1);
        match stacking_restore_of(ws, saved, n - 1) {
            Some(g) => if ws[n - 1].spec_constrained() && m.contains_key(ws[n - 1].root->0) {
                m.insert(ws[n - 1].root->0, g)
            } else {
                m
            },
            None => m,
        }
    }
}

pub proof fn lemma_refreshed_shell_restores_keys(
    ws: Seq<WindowRecord>,
    saved: Map<u64, Rect>,
    init: Map<u64, Rect>,
    n: int,
)
    ensures
        refreshed_shell_restores(ws, saved, init, n).dom() == init.dom(),
    decreases n,
{
    if n > 0 {
        lemma_refreshed_shell_restores_keys(ws, saved, init, n - 1);
        let m = refreshed_shell_restores(ws, saved, init, n - 1);
        assert(refreshed_shell_restores(ws, saved, init, n).dom() =~= m.dom());
    }
}

/// The configures that hand the first `n` floating windows back their size.
pub open spec fn restore_commands(ws: Seq<WindowRecord>, saved: Map<u64, Rect>, n: int) -> Seq<GeometryCommand>
    decreases n,
{
    if n <= 0 {
        seq![]
    } else {
        let s = restore_commands(ws, saved, n - 1);
        match stacking_restore_of(ws, saved, n - 1) {
            Some(g) => if !ws[n - 1].spec_constrained() && ws[n - 1].managed {
                s.push(GeometryCommand::PrepareRestore { window: (n - 1) as usize, size: g.size, detached: false })
            } else {
                s
            },
            None => s,
        }
    }
}

/// What a switch of layout algorithm asks of the frontend.
pub struct LayoutKindChange {
    pub changed: bool,
    /// Configures that return floating windows to their own size.
    pub restore_commands: Vec<GeometryCommand>,
    /// The new algorithm owns geometry: rebuild its tree from the mapped
    /// windows and arrange them.
    pub rebuild: bool,
}

impl WaylandFrontend {
    /// Empty the layout and float every window at the rectangle it had
    /// before it was tiled. Fullscreen and maximized windows keep their
    /// state; the rectangle becomes the one they return to.
    pub fn restore_stacking_geometries(&mut self) -> (commands: Vec<GeometryCommand>)
        ensures
            old(self).spec_shell_constraints_consistent() ==> final(self).spec_shell_constraints_consistent(),
            final(self).layout_spaces@ == Map::<u64, crate::model::LayoutSpace>::empty(),
            final(self).layout_restore_geometries@ == Map::<u64, Rect>::empty(),
            final(self).windows@.len() == old(self).windows@.len(),
            forall|i: int|
                0 <= i < old(self).windows@.len() ==> #[trigger] final(self).windows@[i] == restored_window(
                    old(self).windows@,
                    old(self).layout_restore_geometries@,
                    i,
                ),
            final(self).restore_window_geometries@ == restored_constrained(
                old(self).windows@,
                old(self).layout_restore_geometries@,
                old(self).restore_window_geometries@,
                old(self).windows@.len() as int,
            ),
            commands@ == restore_commands(
                old(self).windows@,
                old(self).layout_restore_geometries@,
                old(self).windows@.len() as int,
            ),
            final(self).outputs == old(self).outputs,
            final(self).surface_ids@ == old(self).surface_ids@,
            final(self).window_workspaces@ == old(self).window_workspaces@,
            final(self).minimized_window_outputs@ == old(self).minimized_window_outputs@,
            final(self).layout_kind == old(self).layout_kind,
            final(self).layout_insertion_anchors@ == old(self).layout_insertion_anchors@,
            final(self).maximize_padding == old(self).maximize_padding,
            final(self).workspaces_enabled == old(self).workspaces_enabled,
            final(self).workspace_count == old(self).workspace_count,
            final(self).focused_root == old(self).focused_root,
            final(self).ticker_output == old(self).ticker_output,
            final(self).mobile_shell == old(self).mobile_shell,
            final(self).shell_maximize_restore_geometries@ == refreshed_shell_restores(
                old(self).windows@,
                old(self).layout_restore_geometries@,
                old(self).shell_maximize_restore_geometries@,
                old(self).windows@.len() as int,
            ),
            final(self).shell_fullscreen_restore_geometries@ == refreshed_shell_restores(
                old(self).windows@,
                old(self).layout_restore_geometries@,
                old(self).shell_fullscreen_restore_geometries@,
                old(self).windows@.len() as int,
            ),
    {
        let ghost ws = self.windows@;
        let ghost init = self.restore_window_geometries@;
        let ghost init_max = self.shell_maximize_restore_geometries@;
        let ghost init_full = self.shell_fullscreen_restore_geometries@;
        self.layout_spaces.clear();
        let mut saved: HashMap<u64, Rect> = HashMap::new();
        std::mem::swap(&mut saved, &mut self.layout_restore_geometries);
        let ghost sv = saved@;
        let mut commands: Vec<GeometryCommand> = Vec::new();
        let mut i: usize = 0;
        while i < self.windows.len()
            invariant
                i <= self.windows.len(),
                self.windows@.len() == ws.len(),
                saved@ == sv,
                forall|j: int| 0 <= j < i ==> #[trigger] self.windows@[j] == restored_window(ws, sv, j),
                forall|j: int| i <= j < ws.len() ==> #[trigger] self.windows@[j] == ws[j],
                self.restore_window_geometries@ == restored_constrained(ws, sv, init, i as int),
                commands@ == restore_commands(ws, sv, i as int),
                self.layout_spaces@ == Map::<u64, crate::model::LayoutSpace>::empty(),
                self.layout_restore_geometries@ == Map::<u64, Rect>::empty(),
                self.outputs == old(self).outputs,
                self.surface_ids@ == old(self).surface_ids@,
                self.window_workspaces@ == old(self).window_workspaces@,
                self.minimized_window_outputs@ == old(self).minimized_window_outputs@,
                self.layout_kind == old(self).layout_kind,
                self.layout_insertion_anchors@ == old(self).layout_insertion_anchors@,
                self.maximize_padding == old(self).maximize_padding,
                self.workspaces_enabled == old(self).workspaces_enabled,
                self.workspace_count == old(self).workspace_count,
                self.focused_root == old(self).focused_root,
                self.ticker_output == old(self).ticker_output,
                self.mobile_shell == old(self).mobile_shell,
                self.shell_maximize_restore_geometries@ == refreshed_shell_restores(ws, sv, init_max, i as int),
                self.shell_fullscreen_restore_geometries@ == refreshed_shell_restores(ws, sv, init_full, i as int),
            decreases self.windows.len() - i,
        {
            assert(roots(self.windows@) =~= roots(ws)) by {
                assert forall|j: int| 0 <= j < ws.len() implies #[trigger] self.windows@[j].root == ws[j].root by {
                    if j < i {
                        assert(self.windows@[j] == restored_window(ws, sv, j));
                    }
                }
            }
            let w = self.windows[i];
            if let Some(root) = w.root {
                if let Some(saved_restore) = saved.get(&root) {
                    let first = self.window_for_layout_id(root);
                    if first == Some(i) {
                        let restore = visible_stacking_restore(*saved_restore, w.target);
                        if self.window_has_constrained_state(i) {
                            self.restore_window_geometries.insert(root, restore);
                            if self.shell_maximize_restore_geometries.contains_key(&root) {
                                self.shell_maximize_restore_geometries.insert(root, restore);
                            }
                            if self.shell_fullscreen_restore_geometries.contains_key(&root) {
                                self.shell_fullscreen_restore_geometries.insert(root, restore);
                            }
                        } else {
                            if w.managed {
                                commands.push(
                                    GeometryCommand::PrepareRestore { window: i, size: restore.size, detached: false },
                                );
                            }
                            let mut next = w;
                            next.target = restore;
                            self.windows.set(i, next);
                        }
                    }
                }
            }
            i += 1;
        }
        proof {
            lemma_refreshed_shell_restores_keys(ws, sv, init_max, ws.len() as int);
            assert forall|k: int|
                0 <= k < self.windows@.len() && (#[trigger] self.windows@[k]).root is Some
                    && self.shell_maximize_restore_geometries@.contains_key(self.windows@[k].root->0)
                    && old(self).spec_shell_constraints_consistent() implies self.windows@[k].shell_constrained by {
                assert(self.windows@[k] == restored_window(ws, sv, k));
                assert(init_max.dom().contains(self.windows@[k].root->0));
                assert(ws[k].root == self.windows@[k].root);
            }
        }
        commands
    }

    /// Switch algorithms. The new algorithm starts without leaves; leaving a
    /// managed layout for stacking floats every window at its saved
    /// rectangle. Choosing the current algorithm changes nothing.
    pub fn set_window_layout_kind(&mut self, kind: WindowLayoutKind) -> (r: LayoutKindChange)
        ensures
            old(self).spec_shell_constraints_consistent() ==> final(self).spec_shell_constraints_consistent(),
            old(self).layout_kind == kind ==> {
                &&& !r.changed
                &&& !r.rebuild
                &&& r.restore_commands@.len() == 0
                &&& final(self).layout_kind == old(self).layout_kind
                &&& final(self).windows@ == old(self).windows@
                &&& final(self).layout_spaces@ == old(self).layout_spaces@
                &&& final(self).layout_restore_geometries@ == old(self).layout_restore_geometries@
                &&& final(self).restore_window_geometries@ == old(self).restore_window_geometries@
                &&& final(self).layout_insertion_anchors@ == old(self).layout_insertion_anchors@
                &&& final(self).shell_maximize_restore_geometries@ == old(self).shell_maximize_restore_geometries@
                &&& final(self).shell_fullscreen_restore_geometries@ == old(self).shell_fullscreen_restore_geometries@
            },
            old(self).layout_kind != kind ==> {
                &&& r.changed
                &&& r.rebuild == kind.spec_manages_geometry()
                &&& final(self).layout_kind == kind
                &&& final(self).layout_spaces@ == Map::<u64, crate::model::LayoutSpace>::empty()
                &&& final(self).layout_insertion_anchors@ == Map::<u64, u64>::empty()
                &&& if old(self).layout_kind.spec_manages_geometry() && !kind.spec_manages_geometry() {
                    &&& final(self).layout_restore_geometries@ == Map::<u64, Rect>::empty()
                    &&& final(self).windows@.len() == old(self).windows@.len()
                    &&& forall|i: int|
                        0 <= i < old(self).windows@.len() ==> #[trigger] final(self).windows@[i]
                            == restored_window(old(self).windows@, old(self).layout_restore_geometries@, i)
                    &&& final(self).restore_window_geometries@ == restored_constrained(
                        old(self).windows@,
                        old(self).layout_restore_geometries@,
                        old(self).restore_window_geometries@,
                        old(self).windows@.len() as int,
                    )
                    &&& r.restore_commands@ == restore_commands(
                        old(self).windows@,
                        old(self).layout_restore_geometries@,
                        old(self).windows@.len() as int,
                    )
                    &&& final(self).shell_maximize_restore_geometries@ == refreshed_shell_restores(
                        old(self).windows@,
                        old(self).layout_restore_geometries@,
                        old(self).shell_maximize_restore_geometries@,
                        old(self).windows@.len() as int,
                    )
                    &&& final(self).shell_fullscreen_restore_geometries@ == refreshed_shell_restores(
                        old(self).windows@,
                        old(self).layout_restore_geometries@,
                        old(self).shell_fullscreen_restore_geometries@,
                        old(self).windows@.len() as int,
                    )
                } else {
                    &&& final(self).layout_restore_geometries@ == old(self).layout_restore_geometries@
                    &&& final(self).windows@ == old(self).windows@
                    &&& final(self).restore_window_geometries@ == old(self).restore_window_geometries@
                    &&& final(self).shell_maximize_restore_geometries@ == old(self).shell_maximize_restore_geometries@
                    &&& final(self).shell_fullscreen_restore_geometries@ == old(self).shell_fullscreen_restore_geometries@
                    &&& r.restore_commands@.len() == 0
                }
            },
            final(self).outputs == old(self).outputs,
            final(self).surface_ids@ == old(self).surface_ids@,
            final(self).window_workspaces@ == old(self).window_workspaces@,
            final(self).minimized_window_outputs@ == old(self).minimized_window_outputs@,
            final(self).maximize_padding == old(self).maximize_padding,
            final(self).workspaces_enabled == old(self).workspaces_enabled,
            final(self).workspace_count == old(self).workspace_count,
            final(self).focused_root == old(self).focused_root,
            final(self).ticker_output == old(self).ticker_output,
            final(self).mobile_shell == old(self).mobile_shell,


    {
        if self.layout_kind == kind {
            return LayoutKindChange { changed: false, restore_commands: Vec::new(), rebuild: false };
        }
        self.layout_insertion_anchors.clear();
        let previously_managed = self.layout_kind.manages_geometry();
        let next_managed = kind.manages_geometry();
        let restore_commands = if previously_managed && !next_managed {
            self.restore_stacking_geometries()
        } else {
            Vec::new()
        };
        self.layout_kind = kind;
        self.layout_spaces.clear();
        LayoutKindChange { changed: true, restore_commands, rebuild: next_managed }
    }

    /// Detach a window from the layout. Its saved floating rectangle is
    /// forgotten when `forget_restore` is set; minimization keeps it so that
    /// activation re-enrolls the same floating identity. Returns whether the
    /// layout held the window, in which case the layout must be arranged.
    pub fn remove_window_from_layout(&mut self, window: usize, forget_restore: bool) -> (removed: bool)
        requires
            window < old(self).windows.len(),
        ensures
            ({
                let w = old(self).windows@[window as int];
                match w.root {
                    None => {
                        &&& !removed
                        &&& final(self).layout_spaces@ == old(self).layout_spaces@
                        &&& final(self).layout_restore_geometries@ == old(self).layout_restore_geometries@
                    },
                    Some(r) => {
                        &&& removed == old(self).layout_spaces@.contains_key(r)
                        &&& final(self).layout_spaces@ == old(self).layout_spaces@.remove(r)
                        &&& final(self).layout_restore_geometries@ == if forget_restore {
                            old(self).layout_restore_geometries@.remove(r)
                        } else {
                            old(self).layout_restore_geometries@
                        }
                    },
                }
            }),
            final(self).windows == old(self).windows,
            final(self).outputs == old(self).outputs,
            final(self).layout_kind == old(self).layout_kind,
            final(self).restore_window_geometries@ == old(self).restore_window_geometries@,
            final(self).layout_insertion_anchors@ == old(self).layout_insertion_anchors@,
            final(self).surface_ids@ == old(self).surface_ids@,
            final(self).window_workspaces@ == old(self).window_workspaces@,
            final(self).minimized_window_outputs@ == old(self).minimized_window_outputs@,
            final(self).maximize_padding == old(self).maximize_padding,
            final(self).workspaces_enabled == old(self).workspaces_enabled,
            final(self).workspace_count == old(self).workspace_count,
            final(self).focused_root == old(self).focused_root,
            final(self).ticker_output == old(self).ticker_output,
            final(self).mobile_shell == old(self).mobile_shell,
            final(self).shell_maximize_restore_geometries@ == old(self).shell_maximize_restore_geometries@,
            final(self).shell_fullscreen_restore_geometries@ == old(self).shell_fullscreen_restore_geometries@,
    {
        let root = match self.windows[window].root {
            Some(root) => root,
            None => return false,
        };
        let removed = self.layout_spaces.remove(&root).is_some();
        if forget_restore {
            self.layout_restore_geometries.remove(&root);
        }
        removed
    }

    /// XDG activates a new toplevel before its initial commit finalizes its
    /// parent: remember the focused leaf so that the window is inserted next
    /// to it once it is eligible.
    pub fn remember_layout_insertion_anchor(&mut self, window: usize)
        requires
            window < old(self).windows.len(),
        ensures
            ({
                let w = old(self).windows@[window as int];
                if old(self).layout_kind.spec_manages_geometry() && w.root is Some
                    && old(self).focused_root is Some
                    && old(self).layout_spaces@.contains_key(old(self).focused_root->0) {
                    final(self).layout_insertion_anchors@ == old(self).layout_insertion_anchors@.insert(
                        w.root->0,
                        old(self).focused_root->0,
                    )
                } else {
                    final(self).layout_insertion_anchors@ == old(self).layout_insertion_anchors@
                }
            }),
            final(self).windows == old(self).windows,
            final(self).outputs == old(self).outputs,
            final(self).layout_kind == old(self).layout_kind,
            final(self).layout_spaces@ == old(self).layout_spaces@,
            final(self).layout_restore_geometries@ == old(self).layout_restore_geometries@,
            final(self).restore_window_geometries@ == old(self).restore_window_geometries@,
            final(self).surface_ids@ == old(self).surface_ids@,
            final(self).window_workspaces@ == old(self).window_workspaces@,
            final(self).minimized_window_outputs@ == old(self).minimized_window_outputs@,
            final(self).maximize_padding == old(self).maximize_padding,
            final(self).workspaces_enabled == old(self).workspaces_enabled,
            final(self).workspace_count == old(self).workspace_count,
            final(self).focused_root == old(self).focused_root,
            final(self).ticker_output == old(self).ticker_output,
            final(self).mobile_shell == old(self).mobile_shell,
            final(self).shell_maximize_restore_geometries@ == old(self).shell_maximize_restore_geometries@,
            final(self).shell_fullscreen_restore_geometries@ == old(self).shell_fullscreen_restore_geometries@,
    {
        if !self.window_layout_manages_geometry() {
            return;
        }
        let root = match self.windows[window].root {
            Some(root) => root,
            None => return,
        };
        let anchor = match self.focused_root {
            Some(anchor) => anchor,
            None => return,
        };
        if !self.layout_spaces.contains_key(&anchor) {
            return;
        }
        self.layout_insertion_anchors.insert(root, anchor);
    }
}

} // verus!
