use vstd::prelude::*;

use crate::geometry::{has_visible_size, spec_has_visible_size, spec_visible_stacking_restore, visible_stacking_restore, Rect};
use crate::model::{LayoutInsertion, LayoutSpace, OutputRecord, WaylandFrontend};

verus! {

/// The first output whose id is `output`.
pub open spec fn output_index_of(outputs: Seq<OutputRecord>, output: u32) -> Option<int> {
    if exists|i: int| crate::frontend::first_output_with_id(outputs, output, i) {
        Some(choose|i: int| crate::frontend::first_output_with_id(outputs, output, i))
    } else {
        None
    }
}

pub proof fn lemma_output_index_of_found(outputs: Seq<OutputRecord>, output: u32, i: int)
    requires
        crate::frontend::first_output_with_id(outputs, output, i),
    ensures
        output_index_of(outputs, output) == Some(i),
{
    let k = choose|k: int| crate::frontend::first_output_with_id(outputs, output, k);
    assert(crate::frontend::first_output_with_id(outputs, output, k));
    if k < i {
        assert(outputs[k].id != output);
    } else if i < k {
        assert(outputs[i].id != output);
    }
}

pub proof fn lemma_output_index_of_range(outputs: Seq<OutputRecord>, output: u32)
    ensures
        output_index_of(outputs, output) matches Some(i) ==> crate::frontend::first_output_with_id(outputs, output, i),
{
    if exists|i: int| crate::frontend::first_output_with_id(outputs, output, i) {
        let k = choose|k: int| crate::frontend::first_output_with_id(outputs, output, k);
        lemma_output_index_of_found(outputs, output, k);
    }
}

/// The window that `rebuild_window_layout` hands to the layout, with the
/// rectangle it floats at outside the layout.
#[derive(Clone, Copy, Debug, PartialEq, Eq, Structural)]
pub struct RebuildCandidate {
    pub window: usize,
    pub root: u64,
    pub restore: Rect,
}

/// The last window inserted into `space`, the leaf the next one joins.
pub open spec fn last_in_space(ins: Seq<LayoutInsertion>, space: LayoutSpace) -> Option<u64>
    decreases ins.len(),
{
    if ins.len() == 0 {
        None
    } else if ins.last().space == space {
        Some(ins.last().window)
    } else {
        last_in_space(ins.drop_last(), space)
    }
}

/// The layout membership that a sequence of insertions builds.
pub open spec fn spaces_of(ins: Seq<LayoutInsertion>) -> Map<u64, LayoutSpace>
    decreases ins.len(),
{
    if ins.len() == 0 {
        Map::empty()
    } else {
        spaces_of(ins.drop_last()).insert(ins.last().window, ins.last().space)
    }
}

/// What reconciling a mapped window did to the layout.
#[derive(Clone, Copy, Debug, PartialEq, Eq, Structural)]
pub enum ReconcileOutcome {
    /// The layout is unchanged.
    Ignored,
    /// The window left the layout and floats again at `restore`, once the
    /// client's size limits are applied; the layout must be arranged.
    Detached { restore: Rect },
    /// The window joins the layout; the layout must be arranged.
    Inserted(LayoutInsertion),
}

impl WaylandFrontend {
    /// The workspace an output shows, the first when the output is unknown.
    pub open spec fn spec_active_workspace(&self, output: u32) -> u8 {
        match output_index_of(self.outputs@, output) {
            Some(i) => self.outputs@[i].active_workspace,
            None => 1,
        }
    }

    /// The space a window joins: the workspace the shell shows it on, else
    /// the active workspace of `physical_output`.
    pub open spec fn spec_layout_space_for_window(&self, w: int, physical_output: u32) -> LayoutSpace {
        let fallback = LayoutSpace { output: physical_output, workspace: self.spec_active_workspace(physical_output) };
        match self.windows@[w].root {
            Some(r) => if self.surface_ids@.contains_key(r) && self.window_workspaces@.contains_key(self.surface_ids@[r]) {
                self.window_workspaces@[self.surface_ids@[r]]
            } else {
                fallback
            },
            None => fallback,
        }
    }

    /// The output a window lands on: the output of its restore rectangle,
    /// else the ticker's output, else the first output.
    pub open spec fn spec_physical_output(&self, restore_output: Option<u32>) -> Option<u32> {
        match restore_output {
            Some(o) => Some(o),
            None => match self.ticker_output {
                Some(t) => Some(t),
                None => if self.outputs@.len() > 0 {
                    Some(self.outputs@[0].id)
                } else {
                    None
                },
            },
        }
    }

    /// The eligible windows among the first `n`, bottom to top.
    pub open spec fn spec_rebuild_candidates(&self, n: int) -> Seq<RebuildCandidate>
        decreases n,
    {
        if n <= 0 {
            seq![]
        } else {
            let s = self.spec_rebuild_candidates(n - 1);
            let w = self.windows@[n - 1];
            if w.spec_layout_eligible() {
                s.push(
                    RebuildCandidate {
                        window: (n - 1) as usize,
                        root: w.root->0,
                        restore: self.spec_stacking_geometry_for_layout(n - 1, w.target),
                    },
                )
            } else {
                s
            }
        }
    }

    /// The insertions built from the first `k` candidates.
    pub open spec fn spec_rebuild_insertions(
        &self,
        cs: Seq<RebuildCandidate>,
        outs: Seq<Option<u32>>,
        k: int,
    ) -> Seq<LayoutInsertion>
        decreases k,
    {
        if k <= 0 {
            seq![]
        } else {
            let s = self.spec_rebuild_insertions(cs, outs, k - 1);
            match self.spec_physical_output(outs[k - 1]) {
                Some(o) => {
                    let space = self.spec_layout_space_for_window(cs[k - 1].window as int, o);
                    s.push(LayoutInsertion { window: cs[k - 1].root, space, anchor: last_in_space(s, space) })
                },
                None => s,
            }
        }
    }

    /// The saved floating rectangles once the first `k` candidates with a
    /// visible restore rectangle have recorded it, earlier records winning.
    pub open spec fn spec_rebuild_restores(
        &self,
        cs: Seq<RebuildCandidate>,
        outs: Seq<Option<u32>>,
        init: Map<u64, Rect>,
        k: int,
    ) -> Map<u64, Rect>
        decreases k,
    {
        if k <= 0 {
            init
        } else {
            let m = self.spec_rebuild_restores(cs, outs, init, k - 1);
            if self.spec_physical_output(outs[k - 1]) is Some && spec_has_visible_size(cs[k - 1].restore)
                && !m.contains_key(cs[k - 1].root) {
                m.insert(cs[k - 1].root, cs[k - 1].restore)
            } else {
                m
            }
        }
    }

    /// The rectangle a window floats at outside the layout: its saved
    /// rectangle while that one is visible, else its stacking geometry.
    pub open spec fn spec_layout_restore_geometry(&self, w: int) -> Rect {
        let fallback = self.spec_stacking_geometry_for_layout(w, self.windows@[w].target);
        match self.windows@[w].root {
            Some(r) => if self.layout_restore_geometries@.contains_key(r)
                && spec_has_visible_size(self.layout_restore_geometries@[r]) {
                self.layout_restore_geometries@[r]
            } else {
                fallback
            },
            None => fallback,
        }
    }

    pub proof fn lemma_rebuild_candidates_windows(&self, n: int)
        requires
            0 <= n <= self.windows@.len(),
        ensures
            forall|k: int|
                0 <= k < self.spec_rebuild_candidates(n).len() ==> (#[trigger] self.spec_rebuild_candidates(n)[k]).window
                    < n,
        decreases n,
    {
        if n > 0 {
            self.lemma_rebuild_candidates_windows(n - 1);
            let s = self.spec_rebuild_candidates(n - 1);
            assert forall|k: int| 0 <= k < self.spec_rebuild_candidates(n).len() implies (
            #[trigger] self.spec_rebuild_candidates(n)[k]).window < n by {
                if k < s.len() {
                    assert(self.spec_rebuild_candidates(n)[k] == s[k]);
                }
            }
        }
    }

    pub fn active_workspace(&self, output: u32) -> (r: u8)
        ensures
            r == self.spec_active_workspace(output),
            forall|k: int|
                crate::frontend::first_output_with_id(self.outputs@, output, k) ==> r == self.outputs@[k].active_workspace,
            (forall|j: int| 0 <= j < self.outputs@.len() ==> self.outputs@[j].id != output) ==> r == 1,
    {
        proof {
            assert forall|k: int| crate::frontend::first_output_with_id(self.outputs@, output, k) implies self.spec_active_workspace(
                output,
            ) == self.outputs@[k].active_workspace by {
                crate::laws::lemma_active_workspace_of_output(self, output, k);
            }
        }
        match self.output_index(output) {
            Some(i) => {
                proof {
                    lemma_output_index_of_found(self.outputs@, output, i as int);
                }
                self.outputs[i].active_workspace
            },
            None => 1,
        }
    }

    pub fn layout_space_for_window(&self, window: usize, physical_output: u32) -> (r: LayoutSpace)
        requires
            window < self.windows.len(),
        ensures
            r == self.spec_layout_space_for_window(window as int, physical_output),
            forall|root: u64|
                self.windows@[window as int].root == Some(root) && self.surface_ids@.contains_key(root)
                    && #[trigger] self.window_workspaces@.contains_key(self.surface_ids@[root]) ==> r
                    == self.window_workspaces@[self.surface_ids@[root]],
            (forall|root: u64|
                !(self.windows@[window as int].root == Some(root) && self.surface_ids@.contains_key(root)
                    && #[trigger] self.window_workspaces@.contains_key(self.surface_ids@[root]))) ==> forall|k: int|
                crate::frontend::first_output_with_id(self.outputs@, physical_output, k) ==> r == (LayoutSpace {
                    output: physical_output,
                    workspace: self.outputs@[k].active_workspace,
                }),
    {
        proof {
            crate::laws::lemma_window_joins_shell_workspace(self, window as int, physical_output);
        }
        if let Some(root) = self.windows[window].root {
            if let Some(stable) = self.surface_ids.get(&root) {
                if let Some(space) = self.window_workspaces.get(stable) {
                    return *space;
                }
            }
        }
        LayoutSpace::new(physical_output, self.active_workspace(physical_output))
    }

    fn physical_output(&self, restore_output: Option<u32>) -> (r: Option<u32>)
        ensures
            r == self.spec_physical_output(restore_output),
    {
        match restore_output {
            Some(o) => Some(o),
            None => match self.ticker_output {
                Some(t) => Some(t),
                None => if self.outputs.len() > 0 {
                    Some(self.outputs[0].id)
                } else {
                    None
                },
            },
        }
    }

    /// The windows a rebuilt layout holds, bottom to top, each with the
    /// rectangle its output is looked up by.
    pub fn layout_rebuild_candidates(&self) -> (r: Vec<RebuildCandidate>)
        ensures
            r@ == self.spec_rebuild_candidates(self.windows@.len() as int),
    {
        let mut r: Vec<RebuildCandidate> = Vec::new();
        let mut i: usize = 0;
        while i < self.windows.len()
            invariant
                i <= self.windows.len(),
                r@ == self.spec_rebuild_candidates(i as int),
            decreases self.windows.len() - i,
        {
            if self.window_layout_eligible(i) {
                let w = self.windows[i];
                let restore = self.stacking_geometry_for_layout(i, w.target);
                r.push(RebuildCandidate { window: i, root: w.root.unwrap(), restore });
            }
            i += 1;
        }
        r
    }

    /// Rebuild output membership after hotplug or rotation while preserving
    /// each window's floating rectangle. `restore_outputs[k]` is the output
    /// that holds the restore rectangle of the `k`-th candidate of
    /// `layout_rebuild_candidates`. Each window joins the space of its
    /// workspace, next to the window inserted there before it. Returns the
    /// insertions for the layout, which must then be arranged, or `None`
    /// while the layout leaves geometry to the clients.
    pub fn rebuild_window_layout(&mut self, restore_outputs: &Vec<Option<u32>>) -> (r: Option<Vec<LayoutInsertion>>)
        requires
            restore_outputs@.len() == old(self).spec_rebuild_candidates(old(self).windows@.len() as int).len(),
        ensures
            !old(self).layout_kind.spec_manages_geometry() ==> {
                &&& r is None
                &&& final(self).layout_spaces@ == old(self).layout_spaces@
                &&& final(self).layout_restore_geometries@ == old(self).layout_restore_geometries@
            },
            old(self).layout_kind.spec_manages_geometry() ==> {
                let cs = old(self).spec_rebuild_candidates(old(self).windows@.len() as int);
                let ins = old(self).spec_rebuild_insertions(cs, restore_outputs@, cs.len() as int);
                &&& r is Some
                &&& r->0@ == ins
                &&& final(self).layout_spaces@ == spaces_of(ins)
                &&& final(self).layout_restore_geometries@ == old(self).spec_rebuild_restores(
                    cs,
                    restore_outputs@,
                    old(self).layout_restore_geometries@,
                    cs.len() as int,
                )
            },
            final(self).windows == old(self).windows,
            final(self).outputs == old(self).outputs,
            final(self).layout_kind == old(self).layout_kind,
            final(self).restore_window_geometries@ == old(self).restore_window_geometries@,
            final(self).layout_insertion_anchors@ == old(self).layout_insertion_anchors@,
            final(self).surface_ids@ == old(self).surface_ids@,
            final(self).window_workspaces@ == old(self).window_workspaces@,
            final(self).minimized_window_outputs@ == old(self).minimized_window_outputs@,
            final(self).maximize_padding == old(self).maximize_padding,
            final(self).workspaces_enabled == old(self).workspaces_enabled,
            final(self).workspace_count == old(self).workspace_count,
            final(self).focused_root == old(self).focused_root,
            final(self).ticker_output == old(self).ticker_output,
            final(self).mobile_shell == old(self).mobile_shell,
            final(self).shell_maximize_restore_geometries@ == old(self).shell_maximize_restore_geometries@,
            final(self).shell_fullscreen_restore_geometries@ == old(self).shell_fullscreen_restore_geometries@,
    {
        if !self.window_layout_manages_geometry() {
            return None;
        }
        let cands = self.layout_rebuild_candidates();
        let ghost cs = cands@;
        let ghost outs = restore_outputs@;
        let ghost init = self.layout_restore_geometries@;
        proof {
            self.lemma_rebuild_candidates_windows(self.windows@.len() as int);
        }
        let mut insertions: Vec<LayoutInsertion> = Vec::new();
        let mut k: usize = 0;
        while k < cands.len()
            invariant
                k <= cands.len(),
                cands@ == cs,
                cs == old(self).spec_rebuild_candidates(old(self).windows@.len() as int),
                restore_outputs@ == outs,
                outs.len() == cs.len(),
                forall|j: int| 0 <= j < cs.len() ==> (#[trigger] cs[j]).window < self.windows@.len(),
                insertions@ == old(self).spec_rebuild_insertions(cs, outs, k as int),
                self.layout_restore_geometries@ == old(self).spec_rebuild_restores(cs, outs, init, k as int),
                init == old(self).layout_restore_geometries@,
                self.windows == old(self).windows,
                self.outputs == old(self).outputs,
                self.layout_kind == old(self).layout_kind,
                self.layout_spaces@ == old(self).layout_spaces@,
                self.restore_window_geometries@ == old(self).restore_window_geometries@,
                self.layout_insertion_anchors@ == old(self).layout_insertion_anchors@,
                self.surface_ids@ == old(self).surface_ids@,
                self.window_workspaces@ == old(self).window_workspaces@,
                self.minimized_window_outputs@ == old(self).minimized_window_outputs@,
                self.maximize_padding == old(self).maximize_padding,
                self.workspaces_enabled == old(self).workspaces_enabled,
                self.workspace_count == old(self).workspace_count,
                self.focused_root == old(self).focused_root,
                self.ticker_output == old(self).ticker_output,
                self.mobile_shell == old(self).mobile_shell,
                self.shell_maximize_restore_geometries@ == old(self).shell_maximize_restore_geometries@,
                self.shell_fullscreen_restore_geometries@ == old(self).shell_fullscreen_restore_geometries@,
            decreases cands.len() - k,
        {
            let c = cands[k];
            assert(c.window < self.windows@.len());
            if let Some(output) = self.physical_output(restore_outputs[k]) {
                let space = self.layout_space_for_window(c.window, output);
                if has_visible_size(c.restore) && !self.layout_restore_geometries.contains_key(&c.root) {
                    self.layout_restore_geometries.insert(c.root, c.restore);
                }
                let anchor = last_window_in_space(&insertions, space);
                insertions.push(LayoutInsertion { window: c.root, space, anchor });
            }
            k += 1;
        }
        self.layout_spaces.clear();
        let mut j: usize = 0;
        while j < insertions.len()
            invariant
                j <= insertions.len(),
                self.layout_spaces@ == spaces_of(insertions@.take(j as int)),
                self.windows == old(self).windows,
                self.outputs == old(self).outputs,
                self.layout_kind == old(self).layout_kind,
                self.layout_restore_geometries@ == old(self).spec_rebuild_restores(cs, outs, init, cs.len() as int),
                self.restore_window_geometries@ == old(self).restore_window_geometries@,
                self.layout_insertion_anchors@ == old(self).layout_insertion_anchors@,
                self.surface_ids@ == old(self).surface_ids@,
                self.window_workspaces@ == old(self).window_workspaces@,
                self.minimized_window_outputs@ == old(self).minimized_window_outputs@,
                self.maximize_padding == old(self).maximize_padding,
                self.workspaces_enabled == old(self).workspaces_enabled,
                self.workspace_count == old(self).workspace_count,
                self.focused_root == old(self).focused_root,
                self.ticker_output == old(self).ticker_output,
                self.mobile_shell == old(self).mobile_shell,
                self.shell_maximize_restore_geometries@ == old(self).shell_maximize_restore_geometries@,
                self.shell_fullscreen_restore_geometries@ == old(self).shell_fullscreen_restore_geometries@,
            decreases insertions.len() - j,
        {
            assert(insertions@.take(j as int + 1).drop_last() =~= insertions@.take(j as int));
            let ins = insertions[j];
            self.layout_spaces.insert(ins.window, ins.space);
            j += 1;
        }
        assert(insertions@.take(insertions@.len() as int) =~= insertions@);
        Some(insertions)
    }

    /// The rectangle a window floats at outside the layout.
    pub fn layout_restore_geometry(&self, window: usize) -> (r: Rect)
        requires
            window < self.windows.len(),
        ensures
            r == self.spec_layout_restore_geometry(window as int),
    {
        let w = self.windows[window];
        if let Some(root) = w.root {
            if let Some(saved) = self.layout_restore_geometries.get(&root) {
                if has_visible_size(*saved) {
                    return *saved;
                }
            }
        }
        self.stacking_geometry_for_layout(window, w.target)
    }

    /// Reconcile a mapped window once its role and size hints are final.
    /// Only regular, resizable toplevels join the layout; a window that stops
    /// being one leaves it and floats again. The mobile shell has no layout.
    /// A shell that tracks workspaces per stable id records the window on
    /// its output in `window_workspaces` before this call, so that the
    /// window joins the workspace recorded there.
    /// `restore_output` is the output
    /// that holds `layout_restore_geometry(window)`.
    pub fn reconcile_window_layout(&mut self, window: usize, restore_output: Option<u32>) -> (r: ReconcileOutcome)
        requires
            window < old(self).windows.len(),
        ensures
            ({
                let w = old(self).windows@[window as int];
                let spaces = old(self).layout_spaces@;
                let saved = old(self).layout_restore_geometries@;
                let anchors = old(self).layout_insertion_anchors@;
                &&& (w.minimized ==> !(r is Inserted))
                &&& if old(self).mobile_shell || !old(self).layout_kind.spec_manages_geometry() || w.root is None {
                    &&& r == ReconcileOutcome::Ignored
                    &&& final(self).layout_spaces@ == spaces
                    &&& final(self).layout_restore_geometries@ == saved
                    &&& final(self).layout_insertion_anchors@ == anchors
                } else {
                    let root = w.root->0;
                    &&& final(self).layout_insertion_anchors@ == anchors.remove(root)
                    &&& if !w.spec_layout_eligible() {
                        &&& final(self).layout_restore_geometries@ == saved.remove(root)
                        &&& final(self).layout_spaces@ == spaces.remove(root)
                        &&& if spaces.contains_key(root) {
                            r == ReconcileOutcome::Detached {
                                restore: if saved.contains_key(root) {
                                    spec_visible_stacking_restore(saved[root], w.target)
                                } else {
                                    w.target
                                },
                            }
                        } else {
                            r == ReconcileOutcome::Ignored
                        }
                    } else if spaces.contains_key(root) {
                        &&& r == ReconcileOutcome::Ignored
                        &&& final(self).layout_spaces@ == spaces
                        &&& final(self).layout_restore_geometries@ == saved
                    } else {
                        let restore = old(self).spec_layout_restore_geometry(window as int);
                        match old(self).spec_physical_output(restore_output) {
                            None => {
                                &&& r == ReconcileOutcome::Ignored
                                &&& final(self).layout_spaces@ == spaces
                                &&& final(self).layout_restore_geometries@ == saved
                            },
                            Some(o) => {
                                let space = old(self).spec_layout_space_for_window(window as int, o);
                                let wanted = if anchors.contains_key(root) {
                                    Some(anchors[root])
                                } else {
                                    old(self).focused_root
                                };
                                let anchor = if wanted is Some && spaces.contains_key(wanted->0) {
                                    wanted
                                } else {
                                    None
                                };
                                &&& r == ReconcileOutcome::Inserted(LayoutInsertion { window: root, space, anchor })
                                &&& final(self).layout_spaces@ == spaces.insert(root, space)
                                &&& final(self).layout_restore_geometries@ == if spec_has_visible_size(restore)
                                    && !saved.contains_key(root) {
                                    saved.insert(root, restore)
                                } else {
                                    saved
                                }
                            },
                        }
                    }
                }
            }),
            final(self).windows == old(self).windows,
            final(self).outputs == old(self).outputs,
            final(self).layout_kind == old(self).layout_kind,
            final(self).restore_window_geometries@ == old(self).restore_window_geometries@,
            final(self).surface_ids@ == old(self).surface_ids@,
            final(self).window_workspaces@ == old(self).window_workspaces@,
            final(self).minimized_window_outputs@ == old(self).minimized_window_outputs@,
            final(self).maximize_padding == old(self).maximize_padding,
            final(self).workspaces_enabled == old(self).workspaces_enabled,
            final(self).workspace_count == old(self).workspace_count,
            final(self).focused_root == old(self).focused_root,
            final(self).ticker_output == old(self).ticker_output,
            final(self).mobile_shell == old(self).mobile_shell,
            final(self).shell_maximize_restore_geometries@ == old(self).shell_maximize_restore_geometries@,
            final(self).shell_fullscreen_restore_geometries@ == old(self).shell_fullscreen_restore_geometries@,
    {
        if self.mobile_shell || !self.window_layout_manages_geometry() {
            return ReconcileOutcome::Ignored;
        }
        let w = self.windows[window];
        let root = match w.root {
            Some(root) => root,
            None => return ReconcileOutcome::Ignored,
        };
        let remembered_anchor = self.layout_insertion_anchors.remove(&root);
        if !self.window_layout_eligible(window) {
            let removed = self.layout_spaces.remove(&root).is_some();
            let saved = self.layout_restore_geometries.remove(&root);
            if removed {
                let restore = match saved {
                    Some(s) => visible_stacking_restore(s, w.target),
                    None => w.target,
                };
                return ReconcileOutcome::Detached { restore };
            }
            return ReconcileOutcome::Ignored;
        }
        if self.layout_spaces.contains_key(&root) {
            return ReconcileOutcome::Ignored;
        }
        let restore = self.layout_restore_geometry(window);
        let output = match self.physical_output(restore_output) {
            Some(o) => o,
            None => return ReconcileOutcome::Ignored,
        };
        let space = self.layout_space_for_window(window, output);
        if has_visible_size(restore) && !self.layout_restore_geometries.contains_key(&root) {
            self.layout_restore_geometries.insert(root, restore);
        }
        let wanted = match remembered_anchor {
            Some(a) => Some(a),
            None => self.focused_root,
        };
        let anchor = match wanted {
            Some(a) => if self.layout_spaces.contains_key(&a) {
                Some(a)
            } else {
                None
            },
            None => None,
        };
        self.layout_spaces.insert(root, space);
        ReconcileOutcome::Inserted(LayoutInsertion { window: root, space, anchor })
    }
}

/// The last window inserted into `space`.
fn last_window_in_space(insertions: &Vec<LayoutInsertion>, space: LayoutSpace) -> (r: Option<u64>)
    ensures
        r == last_in_space(insertions@, space),
{
    let mut j: usize = insertions.len();
    assert(insertions@.take(j as int) =~= insertions@);
    while j > 0
        invariant
            j <= insertions.len(),
            last_in_space(insertions@, space) == last_in_space(insertions@.take(j as int), space),
        decreases j,
    {
        let ins = insertions[j - 1];
        assert(insertions@.take(j as int).drop_last() =~= insertions@.take(j - 1));
        if ins.space == space {
            return Some(ins.window);
        }
        j -= 1;
    }
    None
}

} // verus!
