use vstd::prelude::*;

use crate::arrange::{
    owned_workspaces, ownership_changed, ownership_of,
    arrange_step, arranged, arrangement_changed, lemma_arranged_keeps_windows, lemma_placement_target_range,
    placement_target, step_changes,
};
use crate::enroll::last_in_space;
use crate::geometry::{spec_has_visible_size, spec_visible_stacking_restore, Rect};
use crate::model::{roots, LayoutInsertion, LayoutPlacement, WaylandFrontend, WindowRecord};
use crate::enroll::RebuildCandidate;

verus! {

/// No two placements name the same window.
pub open spec fn distinct_windows(ps: Seq<LayoutPlacement>) -> bool {
    forall|a: int, b: int| 0 <= a < b < ps.len() ==> ps[a].window != ps[b].window
}

/// Where a placement lands does not depend on the windows' targets.
proof fn lemma_placement_target_ignores_targets(ws1: Seq<WindowRecord>, ws2: Seq<WindowRecord>, p: LayoutPlacement)
    requires
        ws1.len() == ws2.len(),
        forall|i: int| 0 <= i < ws1.len() ==> #[trigger] ws2[i] == ws1[i].with_target(ws2[i].target),
    ensures
        placement_target(ws1, p) == placement_target(ws2, p),
{
    assert(roots(ws1) =~= roots(ws2));
}

proof fn lemma_arranged_target_stable(ws: Seq<WindowRecord>, ps: Seq<LayoutPlacement>, p: LayoutPlacement)
    ensures
        placement_target(arranged(ws, ps), p) == placement_target(ws, p),
{
    lemma_arranged_keeps_windows(ws, ps);
    lemma_placement_target_ignores_targets(ws, arranged(ws, ps), p);
}

/// After distinct placements are applied, each placed window sits at its
/// placement.
proof fn lemma_arranged_places(ws: Seq<WindowRecord>, ps: Seq<LayoutPlacement>, k: int)
    requires
        distinct_windows(ps),
        0 <= k < ps.len(),
        placement_target(ws, ps[k]) is Some,
    ensures
        arranged(ws, ps)[placement_target(ws, ps[k])->0].target == ps[k].geometry,
    decreases ps.len(),
{
    let n = ps.len();
    let prev = ps.drop_last();
    let j = placement_target(ws, ps[k])->0;
    lemma_placement_target_range(ws, ps[k]);
    lemma_arranged_target_stable(ws, prev, ps.last());
    lemma_arranged_keeps_windows(ws, prev);
    if k < n - 1 {
        assert(prev[k] == ps[k]);
        lemma_arranged_places(ws, prev, k);
        let t = placement_target(ws, ps.last());
        lemma_placement_target_range(ws, ps.last());
        if t is Some {
            assert(ps[k].window != ps[n - 1].window);
        }
    }
}

/// Arranging again with the same placements changes nothing, as long as no
/// window is placed twice.
pub proof fn lemma_arrange_idempotent(ws: Seq<WindowRecord>, ps: Seq<LayoutPlacement>)
    requires
        distinct_windows(ps),
    ensures
        arranged(arranged(ws, ps), ps) == arranged(ws, ps),
        !arrangement_changed(arranged(ws, ps), ps),
{
    let ws2 = arranged(ws, ps);
    lemma_arrange_settled_prefix(ws, ps, ps.len() as int);
    assert(ps.take(ps.len() as int) =~= ps);
}

proof fn lemma_arrange_settled_prefix(ws: Seq<WindowRecord>, ps: Seq<LayoutPlacement>, m: int)
    requires
        distinct_windows(ps),
        0 <= m <= ps.len(),
    ensures
        arranged(arranged(ws, ps), ps.take(m)) == arranged(ws, ps),
        !arrangement_changed(arranged(ws, ps), ps.take(m)),
    decreases m,
{
    let ws2 = arranged(ws, ps);
    if m > 0 {
        lemma_arrange_settled_prefix(ws, ps, m - 1);
        let pre = ps.take(m);
        assert(pre.drop_last() =~= ps.take(m - 1));
        assert(pre.last() == ps[m - 1]);
        let p = ps[m - 1];
        lemma_arranged_target_stable(ws, ps, p);
        lemma_arranged_keeps_windows(ws, ps);
        match placement_target(ws, p) {
            Some(j) => {
                lemma_arranged_places(ws, ps, m - 1);
                lemma_placement_target_range(ws, p);
                assert(ws2[j].with_target(p.geometry) == ws2[j]);
                assert(arrange_step(ws2, p) =~= ws2);
                assert(!step_changes(ws2, p));
            },
            None => {},
        }
    }
}

/// A rebuilt layout chains each space: an insertion is anchored to the
/// latest earlier insertion into the same space, and the first insertion
/// into a space has no anchor.
pub proof fn lemma_last_in_space(ins: Seq<LayoutInsertion>, space: crate::model::LayoutSpace)
    ensures
        last_in_space(ins, space) matches Some(a) ==> exists|j: int|
            0 <= j < ins.len() && ins[j].window == a && ins[j].space == space && forall|l: int|
                j < l < ins.len() ==> ins[l].space != space,
        last_in_space(ins, space) is None ==> forall|j: int| 0 <= j < ins.len() ==> ins[j].space != space,
    decreases ins.len(),
{
    if ins.len() > 0 {
        let prev = ins.drop_last();
        lemma_last_in_space(prev, space);
        if ins.last().space == space {
            assert(ins[ins.len() - 1].space == space);
        } else if let Some(a) = last_in_space(prev, space) {
            let j = choose|j: int|
                0 <= j < prev.len() && prev[j].window == a && prev[j].space == space && forall|l: int|
                    j < l < prev.len() ==> prev[l].space != space;
            assert(ins[j] == prev[j]);
            assert forall|l: int| j < l < ins.len() implies ins[l].space != space by {
                if l < prev.len() {
                    assert(ins[l] == prev[l]);
                }
            }
        } else {
            assert forall|j: int| 0 <= j < ins.len() implies ins[j].space != space by {
                if j < prev.len() {
                    assert(ins[j] == prev[j]);
                }
            }
        }
    }
}

/// Fullscreen and maximized windows overlay their retained tile: arranging
/// never moves them.
pub proof fn lemma_arrange_skips_constrained(ws: Seq<WindowRecord>, ps: Seq<LayoutPlacement>, i: int)
    requires
        0 <= i < ws.len(),
        ws[i].spec_constrained(),
    ensures
        arranged(ws, ps)[i] == ws[i],
    decreases ps.len(),
{
    if ps.len() > 0 {
        let prev = ps.drop_last();
        lemma_arrange_skips_constrained(ws, prev, i);
        lemma_arranged_keeps_windows(ws, prev);
        lemma_placement_target_range(arranged(ws, prev), ps.last());
    }
}

/// A window that no placement reaches keeps its geometry target.
pub proof fn lemma_arrange_leaves_unplaced(ws: Seq<WindowRecord>, ps: Seq<LayoutPlacement>, i: int)
    requires
        0 <= i < ws.len(),
        forall|k: int| 0 <= k < ps.len() ==> placement_target(ws, #[trigger] ps[k]) != Some(i),
    ensures
        arranged(ws, ps)[i] == ws[i],
    decreases ps.len(),
{
    if ps.len() > 0 {
        let prev = ps.drop_last();
        assert forall|k: int| 0 <= k < prev.len() implies placement_target(ws, #[trigger] prev[k]) != Some(i) by {
            assert(prev[k] == ps[k]);
        }
        lemma_arrange_leaves_unplaced(ws, prev, i);
        lemma_arranged_keeps_windows(ws, prev);
        lemma_arranged_target_stable(ws, prev, ps.last());
        assert(placement_target(ws, ps[ps.len() - 1]) != Some(i));
    }
}

/// Rebuilding preserves every floating rectangle saved before: new
/// rectangles are only recorded for windows without one.
pub proof fn lemma_rebuild_keeps_saved_rectangles(
    f: &WaylandFrontend,
    cs: Seq<RebuildCandidate>,
    outs: Seq<Option<u32>>,
    init: Map<u64, Rect>,
    n: int,
)
    ensures
        forall|r: u64| #[trigger] init.contains_key(r) ==> f.spec_rebuild_restores(cs, outs, init, n).contains_key(r)
            && f.spec_rebuild_restores(cs, outs, init, n)[r] == init[r],
    decreases n,
{
    if n > 0 {
        lemma_rebuild_keeps_saved_rectangles(f, cs, outs, init, n - 1);
    }
}

/// Each insertion of a rebuilt layout joins the leaf inserted last into
/// the same space before it; see `lemma_last_in_space` for what that leaf is.
pub proof fn lemma_rebuild_anchors(
    f: &WaylandFrontend,
    cs: Seq<RebuildCandidate>,
    outs: Seq<Option<u32>>,
    n: int,
)
    ensures
        ({
            let ins = f.spec_rebuild_insertions(cs, outs, n);
            forall|k: int|
                0 <= k < ins.len() ==> (#[trigger] ins[k]).anchor == last_in_space(ins.take(k), ins[k].space)
        }),
    decreases n,
{
    if n > 0 {
        lemma_rebuild_anchors(f, cs, outs, n - 1);
        let prev = f.spec_rebuild_insertions(cs, outs, n - 1);
        let ins = f.spec_rebuild_insertions(cs, outs, n);
        assert forall|k: int| 0 <= k < ins.len() implies (#[trigger] ins[k]).anchor == last_in_space(
            ins.take(k),
            ins[k].space,
        ) by {
            if k < prev.len() {
                assert(ins[k] == prev[k]);
                assert(ins.take(k) =~= prev.take(k));
            } else {
                assert(ins.take(k) =~= prev);
            }
        }
    }
}

/// Exchanging the same two leaves twice restores the layout membership.
pub proof fn lemma_swap_twice(spaces: Map<u64, crate::model::LayoutSpace>, a: u64, b: u64)
    requires
        spaces.contains_key(a),
        spaces.contains_key(b),
    ensures
        crate::steps::swapped_spaces(crate::steps::swapped_spaces(spaces, a, b), a, b) == spaces,
{
    assert(crate::steps::swapped_spaces(crate::steps::swapped_spaces(spaces, a, b), a, b) =~= spaces);
}

/// The stable id of an assignment.
pub open spec fn owner_id(o: Option<(u64, crate::model::LayoutSpace)>) -> u64 {
    match o {
        Some((s, _)) => s,
        None => 0,
    }
}

/// The workspace of an assignment.
pub open spec fn owner_space(o: Option<(u64, crate::model::LayoutSpace)>) -> crate::model::LayoutSpace {
    match o {
        Some((_, sp)) => sp,
        None => crate::model::LayoutSpace { output: 0, workspace: 0 },
    }
}

/// An assignment of stable id `s`.
pub open spec fn touches(o: Option<(u64, crate::model::LayoutSpace)>, s: u64) -> bool {
    o is Some && owner_id(o) == s
}

/// No stable shell id is assigned two different workspaces by the windows.
pub open spec fn consistent_ownership(
    ws: Seq<WindowRecord>,
    ids: Map<u64, u64>,
    spaces: Map<u64, crate::model::LayoutSpace>,
) -> bool {
    forall|i: int, j: int|
        #![trigger ownership_of(ws[i], ids, spaces), ownership_of(ws[j], ids, spaces)]
        0 <= i < ws.len() && 0 <= j < ws.len() && ownership_of(ws[i], ids, spaces) is Some
            && ownership_of(ws[j], ids, spaces) is Some
            && owner_id(ownership_of(ws[i], ids, spaces)) == owner_id(ownership_of(ws[j], ids, spaces))
            ==> ownership_of(ws[i], ids, spaces) == ownership_of(ws[j], ids, spaces)
}

/// Some window assigns stable id `s` the workspace `sp`.
pub open spec fn assigns(
    ws: Seq<WindowRecord>,
    ids: Map<u64, u64>,
    spaces: Map<u64, crate::model::LayoutSpace>,
    s: u64,
    sp: crate::model::LayoutSpace,
) -> bool {
    exists|i: int| 0 <= i < ws.len() && ownership_of(ws[i], ids, spaces) == Some((s, sp))
}

/// Some window's assignment differs from the table `init`.
pub open spec fn assignment_differs(
    ws: Seq<WindowRecord>,
    ids: Map<u64, u64>,
    spaces: Map<u64, crate::model::LayoutSpace>,
    init: Map<u64, crate::model::LayoutSpace>,
) -> bool {
    exists|i: int|
        0 <= i < ws.len() && #[trigger] ownership_of(ws[i], ids, spaces) is Some && !(init.contains_key(
            owner_id(ownership_of(ws[i], ids, spaces)),
        ) && init[owner_id(ownership_of(ws[i], ids, spaces))] == owner_space(ownership_of(ws[i], ids, spaces)))
}

proof fn lemma_consistent_prefix(
    ws: Seq<WindowRecord>,
    ids: Map<u64, u64>,
    spaces: Map<u64, crate::model::LayoutSpace>,
)
    requires
        ws.len() > 0,
        consistent_ownership(ws, ids, spaces),
    ensures
        consistent_ownership(ws.drop_last(), ids, spaces),
{
    let p = ws.drop_last();
    assert forall|i: int, j: int|
        0 <= i < p.len() && 0 <= j < p.len() && ownership_of(p[i], ids, spaces) is Some
            && ownership_of(p[j], ids, spaces) is Some
            && owner_id(ownership_of(p[i], ids, spaces)) == owner_id(ownership_of(p[j], ids, spaces))
            implies #[trigger] ownership_of(p[i], ids, spaces) == #[trigger] ownership_of(p[j], ids, spaces) by {
        assert(p[i] == ws[i]);
        assert(p[j] == ws[j]);
    }
}

/// The refreshed table agrees with `init` on a stable id no window assigns.
pub proof fn lemma_owned_workspaces_unassigned(
    ws: Seq<WindowRecord>,
    ids: Map<u64, u64>,
    spaces: Map<u64, crate::model::LayoutSpace>,
    init: Map<u64, crate::model::LayoutSpace>,
    s: u64,
)
    requires
        forall|i: int| 0 <= i < ws.len() ==> !touches(#[trigger] ownership_of(ws[i], ids, spaces), s),
    ensures
        owned_workspaces(ws, ids, spaces, init).contains_key(s) == init.contains_key(s),
        init.contains_key(s) ==> owned_workspaces(ws, ids, spaces, init)[s] == init[s],
    decreases ws.len(),
{
    if ws.len() > 0 {
        let p = ws.drop_last();
        let last = ws.len() - 1;
        assert forall|i: int| 0 <= i < p.len() implies !touches(#[trigger] ownership_of(p[i], ids, spaces), s) by {
            assert(p[i] == ws[i]);
            assert(!touches(ownership_of(ws[i], ids, spaces), s));
        }
        lemma_owned_workspaces_unassigned(p, ids, spaces, init, s);
        assert(!touches(ownership_of(ws[last], ids, spaces), s));
    }
}

/// The refreshed table holds every assignment.
pub proof fn lemma_owned_workspaces_table(
    ws: Seq<WindowRecord>,
    ids: Map<u64, u64>,
    spaces: Map<u64, crate::model::LayoutSpace>,
    init: Map<u64, crate::model::LayoutSpace>,
)
    requires
        consistent_ownership(ws, ids, spaces),
    ensures
        forall|i: int|
            0 <= i < ws.len() && #[trigger] ownership_of(ws[i], ids, spaces) is Some ==> {
                let (s, sp) = ownership_of(ws[i], ids, spaces)->0;
                owned_workspaces(ws, ids, spaces, init).contains_key(s) && owned_workspaces(ws, ids, spaces, init)[s]
                    == sp
            },
    decreases ws.len(),
{
    if ws.len() > 0 {
        let p = ws.drop_last();
        lemma_consistent_prefix(ws, ids, spaces);
        lemma_owned_workspaces_table(p, ids, spaces, init);
        let last = ws.len() - 1;
        assert forall|i: int|
            0 <= i < ws.len() && #[trigger] ownership_of(ws[i], ids, spaces) is Some implies {
                let (s, sp) = ownership_of(ws[i], ids, spaces)->0;
                owned_workspaces(ws, ids, spaces, init).contains_key(s) && owned_workspaces(ws, ids, spaces, init)[s]
                    == sp
            } by {
            if i < last {
                assert(p[i] == ws[i]);
                assert(ownership_of(p[i], ids, spaces) is Some);
                if ownership_of(ws[last], ids, spaces) is Some {
                    assert(ownership_of(ws[i], ids, spaces) is Some && ownership_of(ws[last], ids, spaces) is Some);
                }
            }
        }
    }
}

/// The shell's workspace table is reported as changed exactly when some
/// window's assignment differs from the table as it was, provided no stable
/// id is assigned two different workspaces; refreshing a second time then
/// reports nothing.
pub proof fn lemma_ownership_change_law(
    ws: Seq<WindowRecord>,
    ids: Map<u64, u64>,
    spaces: Map<u64, crate::model::LayoutSpace>,
    init: Map<u64, crate::model::LayoutSpace>,
)
    requires
        consistent_ownership(ws, ids, spaces),
    ensures
        ownership_changed(ws, ids, spaces, init) == assignment_differs(ws, ids, spaces, init),
        !ownership_changed(ws, ids, spaces, owned_workspaces(ws, ids, spaces, init)),
    decreases ws.len(),
{
    lemma_ownership_changed_iff(ws, ids, spaces, init);
    let t = owned_workspaces(ws, ids, spaces, init);
    lemma_ownership_changed_iff(ws, ids, spaces, t);
    lemma_owned_workspaces_table(ws, ids, spaces, init);
    if assignment_differs(ws, ids, spaces, t) {
        let i = choose|i: int|
            0 <= i < ws.len() && #[trigger] ownership_of(ws[i], ids, spaces) is Some && !(t.contains_key(
                owner_id(ownership_of(ws[i], ids, spaces)),
            ) && t[owner_id(ownership_of(ws[i], ids, spaces))] == owner_space(ownership_of(ws[i], ids, spaces)));
        assert(false);
    }
}

proof fn lemma_ownership_changed_iff(
    ws: Seq<WindowRecord>,
    ids: Map<u64, u64>,
    spaces: Map<u64, crate::model::LayoutSpace>,
    init: Map<u64, crate::model::LayoutSpace>,
)
    requires
        consistent_ownership(ws, ids, spaces),
    ensures
        ownership_changed(ws, ids, spaces, init) == assignment_differs(ws, ids, spaces, init),
    decreases ws.len(),
{
    if ws.len() > 0 {
        let p = ws.drop_last();
        let last = ws.len() - 1;
        lemma_consistent_prefix(ws, ids, spaces);
        lemma_ownership_changed_iff(p, ids, spaces, init);
        lemma_owned_workspaces_table(p, ids, spaces, init);
        let m = owned_workspaces(p, ids, spaces, init);
        // A witness in the prefix is a witness in the whole sequence.
        if assignment_differs(p, ids, spaces, init) {
            let i = choose|i: int|
                0 <= i < p.len() && #[trigger] ownership_of(p[i], ids, spaces) is Some && !(init.contains_key(
                    owner_id(ownership_of(p[i], ids, spaces)),
                ) && init[owner_id(ownership_of(p[i], ids, spaces))] == owner_space(ownership_of(p[i], ids, spaces)));
            assert(p[i] == ws[i]);
            assert(ownership_of(ws[i], ids, spaces) is Some);
        }
        match ownership_of(ws[last], ids, spaces) {
            Some((s, sp)) => {
                if exists|j: int| 0 <= j < p.len() && touches(#[trigger] ownership_of(p[j], ids, spaces), s) {
                    let j = choose|j: int| 0 <= j < p.len() && touches(#[trigger] ownership_of(p[j], ids, spaces), s);
                    assert(p[j] == ws[j]);
                    assert(ownership_of(ws[j], ids, spaces) is Some && ownership_of(ws[last], ids, spaces) is Some);
                    assert(ownership_of(ws[j], ids, spaces) == ownership_of(ws[last], ids, spaces));
                    assert(m.contains_key(s) && m[s] == sp);
                    if assignment_differs(ws, ids, spaces, init) {
                        let i = choose|i: int|
                            0 <= i < ws.len() && #[trigger] ownership_of(ws[i], ids, spaces) is Some && !(init.contains_key(
                                owner_id(ownership_of(ws[i], ids, spaces)),
                            ) && init[owner_id(ownership_of(ws[i], ids, spaces))] == owner_space(ownership_of(ws[i], ids, spaces)));
                        if i == last {
                            assert(ownership_of(p[j], ids, spaces) is Some);
                        } else {
                            assert(p[i] == ws[i]);
                            assert(ownership_of(p[i], ids, spaces) is Some);
                        }
                    }
                } else {
                    assert forall|j: int| 0 <= j < p.len() implies !touches(#[trigger] ownership_of(p[j], ids, spaces), s) by {}
                    lemma_owned_workspaces_unassigned(p, ids, spaces, init, s);
                    if assignment_differs(ws, ids, spaces, init) {
                        let i = choose|i: int|
                            0 <= i < ws.len() && #[trigger] ownership_of(ws[i], ids, spaces) is Some && !(init.contains_key(
                                owner_id(ownership_of(ws[i], ids, spaces)),
                            ) && init[owner_id(ownership_of(ws[i], ids, spaces))] == owner_space(ownership_of(ws[i], ids, spaces)));
                        if i < last {
                            assert(p[i] == ws[i]);
                            assert(ownership_of(p[i], ids, spaces) is Some);
                        }
                    }
                }
            },
            None => {
                if assignment_differs(ws, ids, spaces, init) {
                    let i = choose|i: int|
                        0 <= i < ws.len() && #[trigger] ownership_of(ws[i], ids, spaces) is Some && !(init.contains_key(
                            owner_id(ownership_of(ws[i], ids, spaces)),
                        ) && init[owner_id(ownership_of(ws[i], ids, spaces))] == owner_space(ownership_of(ws[i], ids, spaces)));
                    assert(i < last);
                    assert(p[i] == ws[i]);
                    assert(ownership_of(p[i], ids, spaces) is Some);
                }
            },
        }
    }
}

/// A floating window keeps the location it was saved at, and it is
/// restored at a visible size whenever the saved or the current rectangle
/// has one; a visible saved rectangle is restored unchanged.
pub proof fn lemma_visible_stacking_restore(saved: Rect, current: Rect)
    ensures
        spec_visible_stacking_restore(saved, current).loc == saved.loc,
        spec_has_visible_size(saved) || spec_has_visible_size(current) ==> spec_has_visible_size(
            spec_visible_stacking_restore(saved, current),
        ),
        spec_has_visible_size(saved) ==> spec_visible_stacking_restore(saved, current) == saved,
{
}

/// Two first outputs with the same id are the same output.
pub proof fn lemma_first_output_unique(outputs: Seq<crate::model::OutputRecord>, id: u32, i: int, j: int)
    requires
        crate::frontend::first_output_with_id(outputs, id, i),
        crate::frontend::first_output_with_id(outputs, id, j),
    ensures
        i == j,
{
    if i < j {
        assert(outputs[i].id != id);
    } else if j < i {
        assert(outputs[j].id != id);
    }
}

/// The workspace an output shows is the active workspace recorded for the
/// first output with its id.
pub proof fn lemma_active_workspace_of_output(f: &WaylandFrontend, id: u32, k: int)
    requires
        crate::frontend::first_output_with_id(f.outputs@, id, k),
    ensures
        f.spec_active_workspace(id) == f.outputs@[k].active_workspace,
{
    crate::enroll::lemma_output_index_of_found(f.outputs@, id, k);
}

/// The space an output shows, where drops land and where swap and drop
/// targets are looked for, is that output with its active workspace.
pub proof fn lemma_shown_space_is_active_workspace(f: &WaylandFrontend, o: int, k: int)
    requires
        0 <= o < f.outputs@.len(),
        crate::frontend::first_output_with_id(f.outputs@, f.outputs@[o].id, k),
    ensures
        f.spec_shown_space(o) == (crate::model::LayoutSpace {
            output: f.outputs@[o].id,
            workspace: f.outputs@[k].active_workspace,
        }),
{
    lemma_active_workspace_of_output(f, f.outputs@[o].id, k);
}

/// A window the shell shows on a workspace joins that workspace, whatever
/// output its restore rectangle lies on; any other window joins the active
/// workspace of its output.
pub proof fn lemma_window_joins_shell_workspace(f: &WaylandFrontend, w: int, physical_output: u32)
    requires
        0 <= w < f.windows@.len(),
    ensures
        forall|r: u64|
            f.windows@[w].root == Some(r) && f.surface_ids@.contains_key(r) && #[trigger] f.window_workspaces@.contains_key(
                f.surface_ids@[r],
            ) ==> f.spec_layout_space_for_window(w, physical_output) == f.window_workspaces@[f.surface_ids@[r]],
        (forall|r: u64|
            !(f.windows@[w].root == Some(r) && f.surface_ids@.contains_key(r) && #[trigger] f.window_workspaces@.contains_key(
                f.surface_ids@[r],
            ))) ==> forall|k: int|
            crate::frontend::first_output_with_id(f.outputs@, physical_output, k) ==> f.spec_layout_space_for_window(
                w,
                physical_output,
            ) == (crate::model::LayoutSpace { output: physical_output, workspace: f.outputs@[k].active_workspace }),
{
    assert forall|k: int| crate::frontend::first_output_with_id(f.outputs@, physical_output, k) implies f.spec_active_workspace(
        physical_output,
    ) == f.outputs@[k].active_workspace by {
        lemma_active_workspace_of_output(f, physical_output, k);
    }
    if let Some(r) = f.windows@[w].root {
        if f.surface_ids@.contains_key(r) {
            assert(f.window_workspaces@.contains_key(f.surface_ids@[r]) == f.window_workspaces@.contains_key(
                f.surface_ids@[r],
            ));
        }
    }
}

/// Eligibility, on the window's own facts: a window with a root surface and
/// client facts that is alive, has no transient parent, is neither auxiliary
/// nor override-redirect, and is not minimized. In particular a minimized
/// window never tiles.
pub proof fn lemma_layout_eligible_facts(w: WindowRecord)
    ensures
        w.spec_layout_eligible() <==> (w.root is Some && w.managed && w.alive && !w.transient && !w.auxiliary
            && !w.override_redirect && !w.minimized),
        w.minimized ==> !w.spec_layout_eligible(),
{
}

/// A rebuild never hands the layout a minimized or otherwise ineligible
/// window.
pub proof fn lemma_rebuild_candidates_eligible(f: &WaylandFrontend, n: int)
    requires
        0 <= n <= f.windows@.len(),
    ensures
        forall|k: int|
            0 <= k < f.spec_rebuild_candidates(n).len() ==> {
                let c = #[trigger] f.spec_rebuild_candidates(n)[k];
                &&& c.window < n
                &&& !f.windows@[c.window as int].minimized
                &&& f.windows@[c.window as int].spec_layout_eligible()
                &&& f.windows@[c.window as int].root == Some(c.root)
            },
    decreases n,
{
    if n > 0 {
        lemma_rebuild_candidates_eligible(f, n - 1);
        let s = f.spec_rebuild_candidates(n - 1);
        assert forall|k: int| 0 <= k < f.spec_rebuild_candidates(n).len() implies {
            let c = #[trigger] f.spec_rebuild_candidates(n)[k];
            &&& c.window < n
            &&& !f.windows@[c.window as int].minimized
            &&& f.windows@[c.window as int].spec_layout_eligible()
            &&& f.windows@[c.window as int].root == Some(c.root)
        } by {
            if k < s.len() {
                assert(f.spec_rebuild_candidates(n)[k] == s[k]);
            } else {
                assert(f.windows@.len() == f.windows.len());
                assert(((n - 1) as usize) as int == n - 1);
            }
        }
    }
}

/// A scroll gesture works on the focused tile's space, and its work area,
/// monitor geometry and axis all belong to the first output with that
/// space's output id.
pub proof fn lemma_scroll_context_output(f: &WaylandFrontend)
    ensures
        f.spec_horizontal_layout_scroll_context() matches Some(c) ==> {
            &&& f.focused_root matches Some(r) && f.layout_spaces@.contains_key(r) && c.space == f.layout_spaces@[r]
            &&& exists|o: int| crate::frontend::first_output_with_id(f.outputs@, c.space.output, o)
            &&& forall|o: int|
                crate::frontend::first_output_with_id(f.outputs@, c.space.output, o) ==> {
                    &&& c.work_area == f.outputs@[o].work_area
                    &&& c.monitor_geometry == f.outputs@[o].logical_geometry
                    &&& c.axis == crate::axis::spec_scrolling_layout_axis(f.outputs@[o].transform)
                }
        },
{
    if let Some(c) = f.spec_horizontal_layout_scroll_context() {
        let space = c.space;
        let k = crate::enroll::output_index_of(f.outputs@, space.output)->0;
        crate::enroll::lemma_output_index_of_range(f.outputs@, space.output);
        assert forall|o: int| crate::frontend::first_output_with_id(f.outputs@, c.space.output, o) implies {
            &&& c.work_area == f.outputs@[o].work_area
            &&& c.monitor_geometry == f.outputs@[o].logical_geometry
            &&& c.axis == crate::axis::spec_scrolling_layout_axis(f.outputs@[o].transform)
        } by {
            lemma_first_output_unique(f.outputs@, space.output, o, k);
        }
    }
}

/// A tile's context is its own root, its layout space, and the work area of
/// the first output with that space's output id.
pub proof fn lemma_window_context_output(f: &WaylandFrontend, w: int)
    requires
        0 <= w < f.windows@.len(),
    ensures
        f.spec_layout_window_context(w) matches Some(c) ==> {
            &&& f.windows@[w].root == Some(c.window_id)
            &&& f.layout_spaces@.contains_key(c.window_id)
            &&& c.space == f.layout_spaces@[c.window_id]
            &&& c.gap == crate::frontend::spec_layout_gap(f.maximize_padding)
            &&& exists|o: int| crate::frontend::first_output_with_id(f.outputs@, c.space.output, o)
            &&& forall|o: int|
                crate::frontend::first_output_with_id(f.outputs@, c.space.output, o) ==> c.work_area
                    == f.outputs@[o].work_area
        },
{
    if let Some(c) = f.spec_layout_window_context(w) {
        let k = crate::enroll::output_index_of(f.outputs@, c.space.output)->0;
        crate::enroll::lemma_output_index_of_range(f.outputs@, c.space.output);
        assert forall|o: int| crate::frontend::first_output_with_id(f.outputs@, c.space.output, o) implies c.work_area
            == f.outputs@[o].work_area by {
            lemma_first_output_unique(f.outputs@, c.space.output, o, k);
        }
    }
}

} // verus!
