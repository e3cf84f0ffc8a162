use vstd::prelude::*;

use crate::geometry::{layout_resize_required, spec_layout_resize_required};
use crate::model::{
    index_of_root, lemma_index_of_root_range, roots, GeometryCommand, LayoutPlacement, LayoutSpace,
    WaylandFrontend, WindowRecord,
};

verus! {

// ---------------------------------------------------------------------------
// Shell workspace ownership
// ---------------------------------------------------------------------------

/// The shell workspace that a window's layout leaf assigns to its stable id.
pub open spec fn ownership_of(
    w: WindowRecord,
    surface_ids: Map<u64, u64>,
    spaces: Map<u64, LayoutSpace>,
) -> Option<(u64, LayoutSpace)> {
    match w.root {
        Some(r) => if surface_ids.contains_key(r) && spaces.contains_key(r) {
            Some((surface_ids[r], spaces[r]))
        } else {
            None
        },
        None => None,
    }
}

/// The shell's workspace table after every window's assignment, in order.
pub open spec fn owned_workspaces(
    ws: Seq<WindowRecord>,
    surface_ids: Map<u64, u64>,
    spaces: Map<u64, LayoutSpace>,
    init: Map<u64, LayoutSpace>,
) -> Map<u64, LayoutSpace>
    decreases ws.len(),
{
    if ws.len() == 0 {
        init
    } else {
        let m = owned_workspaces(ws.drop_last(), surface_ids, spaces, init);
        match ownership_of(ws.last(), surface_ids, spaces) {
            Some((s, sp)) => m.insert(s, sp),
            None => m,
        }
    }
}

/// Whether some assignment changed the shell's workspace table.
pub open spec fn ownership_changed(
    ws: Seq<WindowRecord>,
    surface_ids: Map<u64, u64>,
    spaces: Map<u64, LayoutSpace>,
    init: Map<u64, LayoutSpace>,
) -> bool
    decreases ws.len(),
{
    if ws.len() == 0 {
        false
    } else {
        let m = owned_workspaces(ws.drop_last(), surface_ids, spaces, init);
        ownership_changed(ws.drop_last(), surface_ids, spaces, init) || match ownership_of(
            ws.last(),
            surface_ids,
            spaces,
        ) {
            Some((s, sp)) => !(m.contains_key(s) && m[s] == sp),
            None => false,
        }
    }
}

/// Remembered minimized outputs that remain once the layout owns a window.
pub open spec fn retained_minimized(
    ws: Seq<WindowRecord>,
    surface_ids: Map<u64, u64>,
    spaces: Map<u64, LayoutSpace>,
    init: Set<u64>,
) -> Set<u64>
    decreases ws.len(),
{
    if ws.len() == 0 {
        init
    } else {
        let m = retained_minimized(ws.drop_last(), surface_ids, spaces, init);
        match ownership_of(ws.last(), surface_ids, spaces) {
            Some((s, sp)) => m.remove(s),
            None => m,
        }
    }
}

// ---------------------------------------------------------------------------
// Applying placements
// ---------------------------------------------------------------------------

/// The window a placement moves: the first window with the placement's
/// root, unless it is fullscreen or maximized.
pub open spec fn placement_target(ws: Seq<WindowRecord>, p: LayoutPlacement) -> Option<int> {
    match index_of_root(roots(ws), p.window) {
        Some(i) => if ws[i].spec_constrained() {
            None
        } else {
            Some(i)
        },
        None => None,
    }
}

pub open spec fn arrange_step(ws: Seq<WindowRecord>, p: LayoutPlacement) -> Seq<WindowRecord> {
    match placement_target(ws, p) {
        Some(i) => ws.update(i, ws[i].with_target(p.geometry)),
        None => ws,
    }
}

pub open spec fn step_changes(ws: Seq<WindowRecord>, p: LayoutPlacement) -> bool {
    match placement_target(ws, p) {
        Some(i) => ws[i].target != p.geometry,
        None => false,
    }
}

pub open spec fn step_commands(ws: Seq<WindowRecord>, p: LayoutPlacement) -> Seq<GeometryCommand> {
    match placement_target(ws, p) {
        Some(i) => if ws[i].managed {
            seq![
                GeometryCommand::PrepareTiled {
                    window: i as usize,
                    target: p.geometry,
                    resize: spec_layout_resize_required(ws[i].target, ws[i].committed_size, p.geometry),
                },
            ]
        } else {
            seq![]
        },
        None => seq![],
    }
}

/// The windows after every placement has been applied in order.
pub open spec fn arranged(ws: Seq<WindowRecord>, ps: Seq<LayoutPlacement>) -> Seq<WindowRecord>
    decreases ps.len(),
{
    if ps.len() == 0 {
        ws
    } else {
        arrange_step(arranged(ws, ps.drop_last()), ps.last())
    }
}

/// Whether some placement moved a window's geometry target.
pub open spec fn arrangement_changed(ws: Seq<WindowRecord>, ps: Seq<LayoutPlacement>) -> bool
    decreases ps.len(),
{
    if ps.len() == 0 {
        false
    } else {
        arrangement_changed(ws, ps.drop_last()) || step_changes(arranged(ws, ps.drop_last()), ps.last())
    }
}

/// The configures sent while the placements are applied, in order.
pub open spec fn arrangement_commands(ws: Seq<WindowRecord>, ps: Seq<LayoutPlacement>) -> Seq<GeometryCommand>
    decreases ps.len(),
{
    if ps.len() == 0 {
        seq![]
    } else {
        arrangement_commands(ws, ps.drop_last()) + step_commands(arranged(ws, ps.drop_last()), ps.last())
    }
}

pub proof fn lemma_placement_target_range(ws: Seq<WindowRecord>, p: LayoutPlacement)
    ensures
        placement_target(ws, p) matches Some(i) ==> 0 <= i < ws.len() && ws[i].root == Some(p.window),
{
    lemma_index_of_root_range(roots(ws), p.window);
}

/// Applying placements keeps every window but its target.
pub proof fn lemma_arranged_keeps_windows(ws: Seq<WindowRecord>, ps: Seq<LayoutPlacement>)
    ensures
        arranged(ws, ps).len() == ws.len(),
        forall|i: int| 0 <= i < ws.len() ==> #[trigger] arranged(ws, ps)[i] == ws[i].with_target(arranged(ws, ps)[i].target),
        roots(arranged(ws, ps)) == roots(ws),
    decreases ps.len(),
{
    if ps.len() > 0 {
        lemma_arranged_keeps_windows(ws, ps.drop_last());
        let prev = arranged(ws, ps.drop_last());
        lemma_placement_target_range(prev, ps.last());
        assert(roots(arranged(ws, ps)) =~= roots(prev));
    } else {
        assert forall|i: int| 0 <= i < ws.len() implies #[trigger] arranged(ws, ps)[i] == ws[i].with_target(arranged(ws, ps)[i].target) by {}
    }
}

/// Whether arranging `a`, with the layout membership `spaces`, with the
/// placements `ps` reports a change.
pub open spec fn arrange_changed_from(a: WaylandFrontend, spaces: Map<u64, LayoutSpace>, ps: Seq<LayoutPlacement>) -> bool {
    !a.mobile_shell && a.layout_kind.spec_manages_geometry() && (ownership_changed(
        a.windows@,
        a.surface_ids@,
        spaces,
        a.window_workspaces@,
    ) || arrangement_changed(a.windows@, ps))
}

/// `b` is the frontend after arranging `a`, with its layout membership
/// replaced by `spaces`, with the layout's placements `ps`, reporting
/// `changed` and sending `commands`.
pub open spec fn arrange_outcome_from(
    a: WaylandFrontend,
    spaces: Map<u64, LayoutSpace>,
    b: WaylandFrontend,
    ps: Seq<LayoutPlacement>,
    changed: bool,
    commands: Seq<GeometryCommand>,
) -> bool {
    &&& (a.mobile_shell ==> {
        &&& changed == false
        &&& commands == mobile_commands(a.windows@.len() as int)
        &&& b.windows@ == a.windows@
        &&& b.window_workspaces@ == a.window_workspaces@
        &&& b.minimized_window_outputs@ == a.minimized_window_outputs@
    })
    &&& (!a.mobile_shell && !a.layout_kind.spec_manages_geometry() ==> {
        &&& changed == false
        &&& commands == Seq::<GeometryCommand>::empty()
        &&& b.windows@ == a.windows@
        &&& b.window_workspaces@ == a.window_workspaces@
        &&& b.minimized_window_outputs@ == a.minimized_window_outputs@
    })
    &&& (!a.mobile_shell && a.layout_kind.spec_manages_geometry() ==> {
        &&& b.windows@ == arranged(a.windows@, ps)
        &&& b.window_workspaces@ == owned_workspaces(
            a.windows@,
            a.surface_ids@,
            spaces,
            a.window_workspaces@,
        )
        &&& b.minimized_window_outputs@ == retained_minimized(
            a.windows@,
            a.surface_ids@,
            spaces,
            a.minimized_window_outputs@,
        )
        &&& changed == (ownership_changed(
            a.windows@,
            a.surface_ids@,
            spaces,
            a.window_workspaces@,
        ) || arrangement_changed(a.windows@, ps))
        &&& commands == arrangement_commands(a.windows@, ps)
    })
    &&& (b.outputs == a.outputs)
    &&& (b.layout_spaces@ == spaces)
    &&& (a.spec_shell_constraints_consistent() ==> b.spec_shell_constraints_consistent())
    &&& (b.surface_ids@ == a.surface_ids@)
    &&& (b.layout_kind == a.layout_kind)
    &&& (b.layout_restore_geometries@ == a.layout_restore_geometries@)
    &&& (b.restore_window_geometries@ == a.restore_window_geometries@)
    &&& (b.layout_insertion_anchors@ == a.layout_insertion_anchors@)
    &&& (b.maximize_padding == a.maximize_padding)
    &&& (b.workspaces_enabled == a.workspaces_enabled)
    &&& (b.workspace_count == a.workspace_count)
    &&& (b.focused_root == a.focused_root)
    &&& (b.ticker_output == a.ticker_output)
    &&& (b.mobile_shell == a.mobile_shell)
    &&& (b.shell_maximize_restore_geometries@ == a.shell_maximize_restore_geometries@)
    &&& (b.shell_fullscreen_restore_geometries@ == a.shell_fullscreen_restore_geometries@)
}

/// Whether arranging `a` with the placements `ps` reports a change.
pub open spec fn arrange_changed(a: WaylandFrontend, ps: Seq<LayoutPlacement>) -> bool {
    arrange_changed_from(a, a.layout_spaces@, ps)
}

/// `b` is the frontend after arranging `a` with the layout's placements
/// `ps`, reporting `changed` and sending `commands`.
pub open spec fn arrange_outcome(
    a: WaylandFrontend,
    b: WaylandFrontend,
    ps: Seq<LayoutPlacement>,
    changed: bool,
    commands: Seq<GeometryCommand>,
) -> bool {
    arrange_outcome_from(a, a.layout_spaces@, b, ps, changed, commands)
}

/// Fit each of the first `n` windows to the mobile shell, in order.
pub open spec fn mobile_commands(n: int) -> Seq<GeometryCommand> {
    Seq::new(n as nat, |i: int| GeometryCommand::ConfigureMobile { window: i as usize })
}

impl WaylandFrontend {
    /// Refresh the shell's workspace table from the layout: the layout is the
    /// sole owner of a tiled window's output and workspace. Windows without a
    /// stable shell id or a layout leaf are left alone.
    pub fn reconcile_layout_workspace_ownership(&mut self) -> (changed: bool)
        ensures
            final(self).windows == old(self).windows,
            final(self).outputs == old(self).outputs,
            final(self).layout_spaces@ == old(self).layout_spaces@,
            final(self).surface_ids@ == old(self).surface_ids@,
            final(self).layout_kind == old(self).layout_kind,
            final(self).layout_restore_geometries@ == old(self).layout_restore_geometries@,
            final(self).restore_window_geometries@ == old(self).restore_window_geometries@,
            final(self).layout_insertion_anchors@ == old(self).layout_insertion_anchors@,
            final(self).maximize_padding == old(self).maximize_padding,
            final(self).workspaces_enabled == old(self).workspaces_enabled,
            final(self).workspace_count == old(self).workspace_count,
            final(self).focused_root == old(self).focused_root,
            final(self).ticker_output == old(self).ticker_output,
            final(self).mobile_shell == old(self).mobile_shell,
            final(self).shell_maximize_restore_geometries@ == old(self).shell_maximize_restore_geometries@,
            final(self).shell_fullscreen_restore_geometries@ == old(self).shell_fullscreen_restore_geometries@,
            final(self).window_workspaces@ == owned_workspaces(
                old(self).windows@,
                old(self).surface_ids@,
                old(self).layout_spaces@,
                old(self).window_workspaces@,
            ),
            final(self).minimized_window_outputs@ == retained_minimized(
                old(self).windows@,
                old(self).surface_ids@,
                old(self).layout_spaces@,
                old(self).minimized_window_outputs@,
            ),
            changed == ownership_changed(
                old(self).windows@,
                old(self).surface_ids@,
                old(self).layout_spaces@,
                old(self).window_workspaces@,
            ),
    {
        let ghost ws = self.windows@;
        let ghost ids = self.surface_ids@;
        let ghost spaces = self.layout_spaces@;
        let ghost init = self.window_workspaces@;
        let ghost init_min = self.minimized_window_outputs@;
        let mut changed = false;
        let mut i: usize = 0;
        while i < self.windows.len()
            invariant
                i <= self.windows.len(),
                self.windows@ == ws,
                self.surface_ids@ == ids,
                self.layout_spaces@ == spaces,
                self.window_workspaces@ == owned_workspaces(ws.take(i as int), ids, spaces, init),
                self.minimized_window_outputs@ == retained_minimized(ws.take(i as int), ids, spaces, init_min),
                changed == ownership_changed(ws.take(i as int), ids, spaces, init),
                self.windows == old(self).windows,
                self.outputs == old(self).outputs,
                self.layout_kind == old(self).layout_kind,
                self.layout_restore_geometries@ == old(self).layout_restore_geometries@,
                self.restore_window_geometries@ == old(self).restore_window_geometries@,
                self.layout_insertion_anchors@ == old(self).layout_insertion_anchors@,
                self.maximize_padding == old(self).maximize_padding,
                self.workspaces_enabled == old(self).workspaces_enabled,
                self.workspace_count == old(self).workspace_count,
                self.focused_root == old(self).focused_root,
                self.ticker_output == old(self).ticker_output,
                self.mobile_shell == old(self).mobile_shell,
                self.shell_maximize_restore_geometries@ == old(self).shell_maximize_restore_geometries@,
                self.shell_fullscreen_restore_geometries@ == old(self).shell_fullscreen_restore_geometries@,
            decreases self.windows.len() - i,
        {
            assert(ws.take(i as int + 1).drop_last() =~= ws.take(i as int));
            assert(ws.take(i as int + 1).last() == ws[i as int]);
            let w = self.windows[i];
            if let Some(root) = w.root {
                let stable = self.surface_ids.get(&root);
                let space = self.layout_spaces.get(&root);
                if let (Some(stable), Some(space)) = (stable, space) {
                    let stable = *stable;
                    let space = *space;
                    self.minimized_window_outputs.remove(&stable);
                    let previous = self.window_workspaces.insert(stable, space);
                    let same = match previous {
                        Some(p) => p == space,
                        None => false,
                    };
                    changed = changed || !same;
                }
            }
            i += 1;
        }
        assert(ws.take(ws.len() as int) =~= ws);
        changed
    }

    /// Move every placed window to its tile. Fullscreen and maximized windows
    /// keep overlaying their retained tile; placements of windows that are
    /// not mapped are skipped. Returns whether a geometry target moved and
    /// the configures to send.
    pub fn apply_layout_placements(&mut self, placements: &Vec<LayoutPlacement>) -> (r: (bool, Vec<GeometryCommand>))
        ensures
            final(self).windows@ == arranged(old(self).windows@, placements@),
            r.0 == arrangement_changed(old(self).windows@, placements@),
            r.1@ == arrangement_commands(old(self).windows@, placements@),
            final(self).outputs == old(self).outputs,
            final(self).layout_spaces@ == old(self).layout_spaces@,
            final(self).surface_ids@ == old(self).surface_ids@,
            final(self).window_workspaces@ == old(self).window_workspaces@,
            final(self).minimized_window_outputs@ == old(self).minimized_window_outputs@,
            final(self).layout_kind == old(self).layout_kind,
            final(self).layout_restore_geometries@ == old(self).layout_restore_geometries@,
            final(self).restore_window_geometries@ == old(self).restore_window_geometries@,
            final(self).layout_insertion_anchors@ == old(self).layout_insertion_anchors@,
            final(self).maximize_padding == old(self).maximize_padding,
            final(self).workspaces_enabled == old(self).workspaces_enabled,
            final(self).workspace_count == old(self).workspace_count,
            final(self).focused_root == old(self).focused_root,
            final(self).ticker_output == old(self).ticker_output,
            final(self).mobile_shell == old(self).mobile_shell,
            final(self).shell_maximize_restore_geometries@ == old(self).shell_maximize_restore_geometries@,
            final(self).shell_fullscreen_restore_geometries@ == old(self).shell_fullscreen_restore_geometries@,
    {
        let ghost ws = self.windows@;
        let ghost ps = placements@;
        let mut changed = false;
        let mut commands: Vec<GeometryCommand> = Vec::new();
        let mut k: usize = 0;
        while k < placements.len()
            invariant
                k <= placements.len(),
                ps == placements@,
                self.windows@ == arranged(ws, ps.take(k as int)),
                changed == arrangement_changed(ws, ps.take(k as int)),
                commands@ == arrangement_commands(ws, ps.take(k as int)),
                self.outputs == old(self).outputs,
                self.layout_spaces@ == old(self).layout_spaces@,
                self.surface_ids@ == old(self).surface_ids@,
                self.window_workspaces@ == old(self).window_workspaces@,
                self.minimized_window_outputs@ == old(self).minimized_window_outputs@,
                self.layout_kind == old(self).layout_kind,
                self.layout_restore_geometries@ == old(self).layout_restore_geometries@,
                self.restore_window_geometries@ == old(self).restore_window_geometries@,
                self.layout_insertion_anchors@ == old(self).layout_insertion_anchors@,
                self.maximize_padding == old(self).maximize_padding,
                self.workspaces_enabled == old(self).workspaces_enabled,
                self.workspace_count == old(self).workspace_count,
                self.focused_root == old(self).focused_root,
                self.ticker_output == old(self).ticker_output,
                self.mobile_shell == old(self).mobile_shell,
                self.shell_maximize_restore_geometries@ == old(self).shell_maximize_restore_geometries@,
                self.shell_fullscreen_restore_geometries@ == old(self).shell_fullscreen_restore_geometries@,
            decreases placements.len() - k,
        {
            let ghost cur = self.windows@;
            assert(ps.take(k as int + 1).drop_last() =~= ps.take(k as int));
            assert(ps.take(k as int + 1).last() == ps[k as int]);
            let p = placements[k];
            proof {
                lemma_placement_target_range(cur, p);
            }
            match self.window_for_layout_id(p.window) {
                Some(i) => {
                    if !self.window_has_constrained_state(i) {
                        let previous = self.windows[i];
                        if previous.managed {
                            commands.push(
                                GeometryCommand::PrepareTiled {
                                    window: i,
                                    target: p.geometry,
                                    resize: layout_resize_required(previous.target, previous.committed_size, p.geometry),
                                },
                            );
                        }
                        let mut next = previous;
                        next.target = p.geometry;
                        self.windows.set(i, next);
                        changed = changed || previous.target != p.geometry;
                        assert(self.windows@ =~= arrange_step(cur, p));
                    }
                },
                None => {},
            }
            k += 1;
        }
        assert(ps.take(ps.len() as int) =~= ps);
        (changed, commands)
    }

    /// Apply the layout's placements to the mapped windows after the shell's
    /// workspace table has been refreshed from the layout. On the mobile
    /// shell no layout applies: every window is fitted to the shell instead
    /// and nothing is reported as changed. Each window's target is its tile
    /// as placed: a shell that insets tiles for frames it draws itself hands
    /// in the inset placements. `placements` are
    /// what the layout produced for the requests of
    /// `prepare_layout_arrangement`. Nothing happens while the layout leaves
    /// geometry to the clients.
    pub fn arrange_layout_windows(&mut self, placements: &Vec<LayoutPlacement>) -> (r: (bool, Vec<GeometryCommand>))
        ensures
            arrange_outcome(*old(self), *final(self), placements@, r.0, r.1@),
    {
        if self.mobile_shell {
            let mut commands: Vec<GeometryCommand> = Vec::new();
            let mut i: usize = 0;
            while i < self.windows.len()
                invariant
                    i <= self.windows.len(),
                    commands@ == mobile_commands(i as int),
                decreases self.windows.len() - i,
            {
                commands.push(GeometryCommand::ConfigureMobile { window: i });
                assert(commands@ =~= mobile_commands(i as int + 1));
                i += 1;
            }
            return (false, commands);
        }
        if !self.window_layout_manages_geometry() {
            return (false, Vec::new());
        }
        let ghost ws = self.windows@;
        let ownership = self.reconcile_layout_workspace_ownership();
        let (changed, commands) = self.apply_layout_placements(placements);
        proof {
            lemma_arranged_keeps_windows(ws, placements@);
            assert forall|i: int|
                0 <= i < self.windows@.len() && (#[trigger] self.windows@[i]).root is Some implies self.windows@[i]
                == ws[i].with_target(self.windows@[i].target) by {}
        }
        (ownership || changed, commands)
    }
}

} // verus!
