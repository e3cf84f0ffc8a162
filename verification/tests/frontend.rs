use std::collections::{HashMap, HashSet};

use denial_compositor::axis::{LayoutAxis, OutputTransform};
use denial_compositor::enroll::ReconcileOutcome;
use denial_compositor::geometry::{Point, Rect, Size};
use denial_compositor::model::{
    GeometryCommand, LayoutInsertion, LayoutPlacement, LayoutSpace, OutputRecord, WaylandFrontend, WindowLayoutKind,
    WindowRecord,
};
use denial_compositor::steps::LayoutWindowContext;
use denial_compositor::targets::LayoutDrop;

fn rect(x: i32, y: i32, w: i32, h: i32) -> Rect {
    Rect::new(x, y, w, h)
}

fn window(root: u64, target: Rect) -> WindowRecord {
    WindowRecord {
        root: Some(root),
        target,
        committed_size: target.size,
        managed: true,
        fullscreen: false,
        shell_constrained: false,
        alive: true,
        transient: false,
        auxiliary: false,
        override_redirect: false,
        minimized: false,
        minimum_size: Size { w: 0, h: 0 },
        maximum_size: Size { w: 0, h: 0 },
    }
}

fn output(id: u32, geometry: Rect) -> OutputRecord {
    OutputRecord {
        id,
        logical_geometry: geometry,
        work_area: geometry,
        transform: OutputTransform::Normal,
        active_workspace: 1,
    }
}

fn frontend(kind: WindowLayoutKind, windows: Vec<WindowRecord>, outputs: Vec<OutputRecord>) -> WaylandFrontend {
    WaylandFrontend {
        layout_kind: kind,
        layout_spaces: HashMap::new(),
        windows,
        outputs,
        maximize_padding: Some(8),
        workspaces_enabled: false,
        workspace_count: 1,
        focused_root: None,
        ticker_output: None,
        layout_restore_geometries: HashMap::new(),
        restore_window_geometries: HashMap::new(),
        layout_insertion_anchors: HashMap::new(),
        surface_ids: HashMap::new(),
        window_workspaces: HashMap::new(),
        minimized_window_outputs: HashSet::new(),
        mobile_shell: false,
        shell_maximize_restore_geometries: HashMap::new(),
        shell_fullscreen_restore_geometries: HashMap::new(),
    }
}

fn space(output: u32, workspace: u8) -> LayoutSpace {
    LayoutSpace::new(output, workspace)
}

fn placement(window: u64, geometry: Rect) -> LayoutPlacement {
    LayoutPlacement { window, geometry }
}

#[test]
fn arranging_moves_placed_windows_and_configures_the_clients() {
    let mut f = frontend(
        WindowLayoutKind::Dwindle,
        vec![window(1, rect(0, 0, 500, 500)), window(2, rect(0, 0, 500, 500))],
        vec![output(7, rect(0, 0, 1000, 800))],
    );
    let placements = vec![placement(1, rect(0, 0, 500, 800)), placement(2, rect(500, 0, 500, 800))];
    let (changed, commands) = f.arrange_layout_windows(&placements);
    assert!(changed);
    assert_eq!(f.windows[0].target, rect(0, 0, 500, 800));
    assert_eq!(f.windows[1].target, rect(500, 0, 500, 800));
    assert_eq!(
        commands,
        vec![
            GeometryCommand::PrepareTiled { window: 0, target: rect(0, 0, 500, 800), resize: true },
            GeometryCommand::PrepareTiled { window: 1, target: rect(500, 0, 500, 800), resize: true },
        ]
    );
}

#[test]
fn arranging_twice_with_the_same_placements_changes_nothing() {
    let mut f = frontend(
        WindowLayoutKind::Dwindle,
        vec![window(1, rect(0, 0, 500, 500)), window(2, rect(0, 0, 500, 500))],
        vec![output(7, rect(0, 0, 1000, 800))],
    );
    let placements = vec![placement(1, rect(0, 0, 500, 800)), placement(2, rect(500, 0, 500, 800))];
    assert!(f.arrange_layout_windows(&placements).0);
    let after_first = f.windows.clone();
    let (changed, commands) = f.arrange_layout_windows(&placements);
    assert!(!changed);
    assert_eq!(f.windows, after_first);
    // The committed size still differs from the tile, so the clients are
    // asked again for the tiled size.
    assert_eq!(commands.len(), 2);
}

#[test]
fn fullscreen_windows_keep_overlaying_their_tile() {
    let mut fullscreen = window(1, rect(0, 0, 1000, 800));
    fullscreen.fullscreen = true;
    let mut f = frontend(WindowLayoutKind::Dwindle, vec![fullscreen], vec![output(7, rect(0, 0, 1000, 800))]);
    let (changed, commands) = f.arrange_layout_windows(&vec![placement(1, rect(0, 0, 500, 800))]);
    assert!(!changed);
    assert!(commands.is_empty());
    assert_eq!(f.windows[0].target, rect(0, 0, 1000, 800));
}

#[test]
fn placements_of_unmapped_windows_are_skipped() {
    let mut f = frontend(WindowLayoutKind::Dwindle, vec![window(1, rect(0, 0, 10, 10))], vec![]);
    let (changed, commands) = f.arrange_layout_windows(&vec![placement(9, rect(0, 0, 500, 800))]);
    assert!(!changed);
    assert!(commands.is_empty());
}

#[test]
fn stacking_layouts_arrange_nothing() {
    let mut f = frontend(WindowLayoutKind::Stacking, vec![window(1, rect(0, 0, 10, 10))], vec![]);
    let (changed, commands) = f.arrange_layout_windows(&vec![placement(1, rect(0, 0, 500, 800))]);
    assert!(!changed);
    assert!(commands.is_empty());
    assert_eq!(f.windows[0].target, rect(0, 0, 10, 10));
}

#[test]
fn arranging_refreshes_the_shell_workspace_table() {
    let mut f = frontend(WindowLayoutKind::Dwindle, vec![window(1, rect(0, 0, 10, 10))], vec![]);
    f.layout_spaces.insert(1, space(7, 2));
    f.surface_ids.insert(1, 100);
    f.minimized_window_outputs.insert(100);
    let (changed, _) = f.arrange_layout_windows(&vec![]);
    assert!(changed);
    assert_eq!(f.window_workspaces.get(&100), Some(&space(7, 2)));
    assert!(!f.minimized_window_outputs.contains(&100));
    assert!(!f.reconcile_layout_workspace_ownership());
}

#[test]
fn choosing_the_current_layout_changes_nothing() {
    let mut f = frontend(WindowLayoutKind::Scrolling, vec![window(1, rect(0, 0, 10, 10))], vec![]);
    f.layout_spaces.insert(1, space(7, 1));
    f.layout_insertion_anchors.insert(3, 1);
    let change = f.set_window_layout_kind(WindowLayoutKind::Scrolling);
    assert!(!change.changed);
    assert!(!change.rebuild);
    assert_eq!(f.layout_spaces.len(), 1);
    assert_eq!(f.layout_insertion_anchors.len(), 1);
}

#[test]
fn returning_to_stacking_floats_windows_at_their_saved_rectangles() {
    let mut maximized = window(2, rect(0, 0, 1000, 800));
    maximized.shell_constrained = true;
    let mut f = frontend(
        WindowLayoutKind::Dwindle,
        vec![window(1, rect(0, 0, 500, 800)), maximized],
        vec![output(7, rect(0, 0, 1000, 800))],
    );
    f.layout_spaces.insert(1, space(7, 1));
    f.layout_spaces.insert(2, space(7, 1));
    f.layout_restore_geometries.insert(1, rect(100, 100, 0, 0));
    f.layout_restore_geometries.insert(2, rect(40, 40, 300, 200));
    f.layout_insertion_anchors.insert(5, 1);
    let change = f.set_window_layout_kind(WindowLayoutKind::Stacking);
    assert!(change.changed);
    assert!(!change.rebuild);
    assert_eq!(f.windows[0].target, rect(100, 100, 500, 800));
    assert_eq!(f.windows[1].target, rect(0, 0, 1000, 800));
    assert_eq!(f.restore_window_geometries.get(&2), Some(&rect(40, 40, 300, 200)));
    assert_eq!(
        change.restore_commands,
        vec![GeometryCommand::PrepareRestore { window: 0, size: Size { w: 500, h: 800 }, detached: false }]
    );
    assert!(f.layout_spaces.is_empty());
    assert!(f.layout_restore_geometries.is_empty());
    assert!(f.layout_insertion_anchors.is_empty());
}

#[test]
fn switching_between_managed_layouts_keeps_the_floating_rectangles() {
    let mut f = frontend(WindowLayoutKind::Dwindle, vec![window(1, rect(0, 0, 500, 800))], vec![]);
    f.layout_spaces.insert(1, space(7, 1));
    f.layout_restore_geometries.insert(1, rect(100, 100, 300, 200));
    let change = f.set_window_layout_kind(WindowLayoutKind::Scrolling);
    assert!(change.changed);
    assert!(change.rebuild);
    assert!(change.restore_commands.is_empty());
    assert!(f.layout_spaces.is_empty());
    assert_eq!(f.layout_restore_geometries.get(&1), Some(&rect(100, 100, 300, 200)));
    assert_eq!(f.windows[0].target, rect(0, 0, 500, 800));
}

#[test]
fn rebuilding_chains_each_space_and_saves_visible_rectangles() {
    let mut dialog = window(3, rect(0, 0, 100, 100));
    dialog.transient = true;
    let mut f = frontend(
        WindowLayoutKind::Dwindle,
        vec![window(1, rect(0, 0, 500, 800)), window(2, rect(10, 10, 0, 0)), dialog, window(4, rect(2000, 0, 400, 300))],
        vec![output(7, rect(0, 0, 1000, 800)), output(8, rect(1000, 0, 1000, 800))],
    );
    let candidates = f.layout_rebuild_candidates();
    assert_eq!(candidates.len(), 3);
    assert_eq!(candidates[2].window, 3);
    let insertions = f.rebuild_window_layout(&vec![Some(7), None, Some(8)]).unwrap();
    assert_eq!(
        insertions,
        vec![
            LayoutInsertion { window: 1, space: space(7, 1), anchor: None },
            LayoutInsertion { window: 2, space: space(7, 1), anchor: Some(1) },
            LayoutInsertion { window: 4, space: space(8, 1), anchor: None },
        ]
    );
    assert_eq!(f.layout_spaces.get(&2), Some(&space(7, 1)));
    assert_eq!(f.layout_spaces.get(&4), Some(&space(8, 1)));
    assert_eq!(f.layout_restore_geometries.get(&1), Some(&rect(0, 0, 500, 800)));
    assert_eq!(f.layout_restore_geometries.get(&2), None);
}

#[test]
fn rebuilding_a_stacking_layout_does_nothing() {
    let mut f = frontend(WindowLayoutKind::Stacking, vec![window(1, rect(0, 0, 500, 800))], vec![]);
    assert_eq!(f.rebuild_window_layout(&vec![None]), None);
    assert!(f.layout_spaces.is_empty());
}

#[test]
fn reconciling_inserts_an_eligible_window_next_to_the_focused_leaf() {
    let mut f = frontend(
        WindowLayoutKind::Dwindle,
        vec![window(1, rect(0, 0, 500, 800)), window(2, rect(30, 40, 640, 480))],
        vec![output(7, rect(0, 0, 1000, 800))],
    );
    f.layout_spaces.insert(1, space(7, 1));
    f.focused_root = Some(1);
    let outcome = f.reconcile_window_layout(1, None);
    assert_eq!(
        outcome,
        ReconcileOutcome::Inserted(LayoutInsertion { window: 2, space: space(7, 1), anchor: Some(1) })
    );
    assert_eq!(f.layout_restore_geometries.get(&2), Some(&rect(30, 40, 640, 480)));
    assert_eq!(f.reconcile_window_layout(1, None), ReconcileOutcome::Ignored);
}

#[test]
fn a_remembered_anchor_wins_over_the_focus() {
    let mut f = frontend(
        WindowLayoutKind::Dwindle,
        vec![window(1, rect(0, 0, 1, 1)), window(2, rect(0, 0, 1, 1)), window(3, rect(0, 0, 1, 1))],
        vec![output(7, rect(0, 0, 1000, 800))],
    );
    f.layout_spaces.insert(1, space(7, 1));
    f.layout_spaces.insert(2, space(7, 1));
    f.focused_root = Some(1);
    f.layout_insertion_anchors.insert(3, 2);
    match f.reconcile_window_layout(2, Some(7)) {
        ReconcileOutcome::Inserted(ins) => assert_eq!(ins.anchor, Some(2)),
        other => panic!("unexpected {:?}", other),
    }
    assert!(f.layout_insertion_anchors.is_empty());
    assert!(f.layout_restore_geometries.is_empty());
}

#[test]
fn a_window_that_stops_being_regular_leaves_the_layout() {
    let mut f = frontend(WindowLayoutKind::Dwindle, vec![window(1, rect(0, 0, 500, 800))], vec![]);
    f.layout_spaces.insert(1, space(7, 1));
    f.layout_restore_geometries.insert(1, rect(100, 100, 0, 0));
    f.windows[0].transient = true;
    assert_eq!(
        f.reconcile_window_layout(0, None),
        ReconcileOutcome::Detached { restore: rect(100, 100, 500, 800) }
    );
    assert!(f.layout_spaces.is_empty());
    assert!(f.layout_restore_geometries.is_empty());
}

#[test]
fn a_window_without_any_output_is_not_inserted() {
    let mut f = frontend(WindowLayoutKind::Dwindle, vec![window(1, rect(0, 0, 500, 800))], vec![]);
    assert_eq!(f.reconcile_window_layout(0, None), ReconcileOutcome::Ignored);
    assert!(f.layout_spaces.is_empty());
}

#[test]
fn minimizing_keeps_the_floating_rectangle_and_closing_forgets_it() {
    let mut f = frontend(WindowLayoutKind::Dwindle, vec![window(1, rect(0, 0, 500, 800))], vec![]);
    f.layout_spaces.insert(1, space(7, 1));
    f.layout_restore_geometries.insert(1, rect(1, 2, 300, 200));
    assert!(f.remove_window_from_layout(0, false));
    assert!(!f.window_is_layout_managed(0));
    assert_eq!(f.layout_restore_geometries.get(&1), Some(&rect(1, 2, 300, 200)));
    assert!(!f.remove_window_from_layout(0, true));
    assert!(f.layout_restore_geometries.is_empty());
}

#[test]
fn the_focused_leaf_is_remembered_as_an_insertion_anchor() {
    let mut f = frontend(WindowLayoutKind::Dwindle, vec![window(1, rect(0, 0, 1, 1)), window(2, rect(0, 0, 1, 1))], vec![]);
    f.focused_root = Some(1);
    f.remember_layout_insertion_anchor(1);
    assert!(f.layout_insertion_anchors.is_empty());
    f.layout_spaces.insert(1, space(7, 1));
    f.remember_layout_insertion_anchor(1);
    assert_eq!(f.layout_insertion_anchors.get(&2), Some(&1));
}

#[test]
fn the_topmost_tile_under_the_pointer_is_the_swap_target() {
    let mut f = frontend(
        WindowLayoutKind::Dwindle,
        vec![window(1, rect(0, 0, 500, 800)), window(2, rect(0, 0, 500, 800)), window(3, rect(500, 0, 500, 800))],
        vec![output(7, rect(0, 0, 1000, 800))],
    );
    for root in 1..=3 {
        f.layout_spaces.insert(root, space(7, 1));
    }
    assert_eq!(f.layout_swap_target_at(Point { x: 10, y: 10 }), Some(1));
    assert_eq!(f.layout_swap_target_at(Point { x: 600, y: 10 }), Some(2));
    assert_eq!(f.layout_swap_target_at(Point { x: 2000, y: 10 }), None);
}

#[test]
fn a_drop_between_tiles_picks_the_nearest_centre() {
    let mut f = frontend(
        WindowLayoutKind::Dwindle,
        vec![window(1, rect(0, 0, 400, 800)), window(2, rect(600, 0, 400, 800)), window(3, rect(0, 0, 10, 10))],
        vec![output(7, rect(0, 0, 1000, 800))],
    );
    f.layout_spaces.insert(1, space(7, 1));
    f.layout_spaces.insert(2, space(7, 1));
    f.layout_spaces.insert(3, space(7, 1));
    f.windows[2].fullscreen = true;
    assert_eq!(f.layout_drop_target_at(0, Point { x: 550, y: 400 }), Some(1));
    // Equidistant from both centres: the lower window wins.
    assert_eq!(f.layout_drop_target_at(0, Point { x: 500, y: 400 }), Some(0));
}

#[test]
fn overview_drops_swap_insert_or_float() {
    let mut f = frontend(
        WindowLayoutKind::Dwindle,
        vec![window(1, rect(0, 0, 500, 800)), window(2, rect(500, 0, 500, 800)), window(3, rect(0, 0, 10, 10))],
        vec![output(7, rect(0, 0, 1000, 800)), output(8, rect(1000, 0, 1000, 800))],
    );
    f.layout_spaces.insert(1, space(7, 1));
    f.layout_spaces.insert(2, space(7, 1));
    assert_eq!(f.apply_layout_drop(2, Point { x: 10, y: 10 }), LayoutDrop::Floating);
    assert_eq!(f.apply_layout_drop(0, Point { x: 10, y: 10 }), LayoutDrop::Kept);
    assert_eq!(f.apply_layout_drop(0, Point { x: 5000, y: 10 }), LayoutDrop::Kept);
    assert_eq!(
        f.apply_layout_drop(0, Point { x: 1500, y: 10 }),
        LayoutDrop::Insert(LayoutInsertion { window: 1, space: space(8, 1), anchor: None })
    );
    assert_eq!(f.layout_spaces.get(&1), Some(&space(8, 1)));
}

#[test]
fn scrolling_needs_a_focused_free_tile() {
    let mut f = frontend(
        WindowLayoutKind::Scrolling,
        vec![window(1, rect(0, 0, 500, 800))],
        vec![OutputRecord { transform: OutputTransform::Rotate90, ..output(7, rect(0, 0, 800, 1000)) }],
    );
    assert!(!f.can_scroll_layout_horizontally());
    f.focused_root = Some(1);
    assert!(!f.can_scroll_layout_horizontally());
    f.layout_spaces.insert(1, space(7, 1));
    assert!(f.can_scroll_layout_horizontally());
    let context = f.horizontal_layout_scroll_context().unwrap();
    assert_eq!(context.space, space(7, 1));
    assert_eq!(context.gap, 8);
    assert_eq!(context.axis, LayoutAxis::Vertical);
    assert_eq!(context.monitor_geometry, rect(0, 0, 800, 1000));
    f.windows[0].fullscreen = true;
    assert!(!f.can_scroll_layout_horizontally());
    f.windows[0].fullscreen = false;
    f.layout_kind = WindowLayoutKind::Dwindle;
    assert!(!f.can_scroll_layout_horizontally());
    assert!(f.horizontal_layout_scroll_context().is_some());
}

#[test]
fn a_scroll_frame_shows_the_free_placed_windows() {
    let mut maximized = window(2, rect(0, 0, 1000, 800));
    maximized.shell_constrained = true;
    let f = frontend(
        WindowLayoutKind::Scrolling,
        vec![window(1, rect(3, 4, 500, 800)), maximized],
        vec![output(7, rect(0, 0, 1000, 800))],
    );
    let frame = f.horizontal_layout_scroll_frame(
        &vec![placement(2, rect(0, 0, 1, 1)), placement(9, rect(0, 0, 1, 1)), placement(1, rect(0, 0, 1, 1))],
        rect(0, 0, 1000, 800),
        Some(0),
    );
    assert_eq!(frame.placements, vec![(0, rect(3, 4, 500, 800))]);
    assert_eq!(frame.selected, Some(0));
}

#[test]
fn arrangement_requests_cover_every_workspace_of_every_output() {
    let mut f = frontend(
        WindowLayoutKind::Dwindle,
        vec![],
        vec![output(7, rect(0, 0, 1000, 800)), OutputRecord { transform: OutputTransform::Rotate270, ..output(8, rect(1000, 0, 800, 1000)) }],
    );
    f.workspaces_enabled = true;
    f.workspace_count = 2;
    let requests = f.prepare_layout_arrangement();
    let spaces: Vec<LayoutSpace> = requests.iter().map(|r| r.space).collect();
    assert_eq!(spaces, vec![space(7, 1), space(7, 2), space(8, 1), space(8, 2)]);
    assert_eq!(requests[3].axis, LayoutAxis::Vertical);
    assert_eq!(requests[0].axis, LayoutAxis::Horizontal);
    assert_eq!(requests[2].work_area, rect(1000, 0, 800, 1000));
    f.workspaces_enabled = false;
    assert_eq!(f.prepare_layout_arrangement().len(), 2);
}

#[test]
fn a_resize_reports_the_moved_tiles_of_its_space() {
    let mut f = frontend(
        WindowLayoutKind::Dwindle,
        vec![window(1, rect(0, 0, 600, 800)), window(2, rect(600, 0, 400, 800)), window(3, rect(0, 0, 1, 1))],
        vec![],
    );
    f.layout_spaces.insert(1, space(7, 1));
    f.layout_spaces.insert(2, space(7, 1));
    f.layout_spaces.insert(3, space(8, 1));
    let before = vec![placement(1, rect(0, 0, 500, 800)), placement(2, rect(500, 0, 500, 800)), placement(3, rect(0, 0, 5, 5))];
    let after = vec![placement(1, rect(0, 0, 600, 800)), placement(2, rect(500, 0, 500, 800)), placement(3, rect(0, 0, 6, 6))];
    assert_eq!(
        f.resized_layout_windows(&before, &after, space(7, 1)),
        vec![(0, rect(0, 0, 600, 800))]
    );
}

#[test]
fn the_gap_is_the_non_negative_padding() {
    let mut f = frontend(WindowLayoutKind::Dwindle, vec![], vec![]);
    assert_eq!(f.layout_gap(), 8);
    f.maximize_padding = Some(-4);
    assert_eq!(f.layout_gap(), 0);
    f.maximize_padding = None;
    assert_eq!(f.layout_gap(), 0);
    f.maximize_padding = Some(i64::MAX);
    assert_eq!(f.layout_gap(), i32::MAX);
}

#[test]
fn workspaces_count_only_when_enabled() {
    let mut f = frontend(WindowLayoutKind::Dwindle, vec![], vec![]);
    f.workspace_count = 4;
    assert_eq!(f.layout_workspace_count(), 1);
    f.workspaces_enabled = true;
    assert_eq!(f.layout_workspace_count(), 4);
}

#[test]
fn stacking_leaves_geometry_to_the_clients() {
    let f = frontend(WindowLayoutKind::Stacking, vec![], vec![]);
    assert!(!f.window_layout_manages_geometry());
    let f = frontend(WindowLayoutKind::Scrolling, vec![], vec![]);
    assert!(f.window_layout_manages_geometry());
}

#[test]
fn a_drop_onto_another_tile_asks_for_a_swap() {
    let mut f = frontend(
        WindowLayoutKind::Dwindle,
        vec![window(1, rect(0, 0, 500, 800)), window(2, rect(1000, 0, 500, 800))],
        vec![output(7, rect(0, 0, 1000, 800)), output(8, rect(1000, 0, 1000, 800))],
    );
    f.layout_spaces.insert(1, space(7, 1));
    f.layout_spaces.insert(2, space(8, 1));
    assert_eq!(f.apply_layout_drop(0, Point { x: 1200, y: 10 }), LayoutDrop::Swap { target: 1 });
    assert_eq!(f.layout_spaces.get(&1), Some(&space(7, 1)));
    let placements = vec![placement(1, rect(1000, 0, 1000, 800)), placement(2, rect(0, 0, 1000, 800))];
    f.layout_spaces.insert(1, space(7, 1));
    let (swapped, commands) = f.swap_layout_windows(0, 1, true, &placements);
    assert!(swapped);
    assert_eq!(commands.len(), 2);
    assert_eq!(f.layout_spaces.get(&1), Some(&space(8, 1)));
    assert_eq!(f.layout_spaces.get(&2), Some(&space(7, 1)));
    assert_eq!(f.windows[0].target, rect(1000, 0, 1000, 800));
}

#[test]
fn a_refused_swap_changes_nothing() {
    let mut f = frontend(
        WindowLayoutKind::Dwindle,
        vec![window(1, rect(0, 0, 1, 1)), window(2, rect(0, 0, 1, 1))],
        vec![],
    );
    f.layout_spaces.insert(1, space(7, 1));
    f.layout_spaces.insert(2, space(8, 2));
    let (swapped, commands) = f.swap_layout_windows(0, 1, false, &vec![placement(1, rect(5, 5, 5, 5))]);
    assert!(!swapped);
    assert!(commands.is_empty());
    assert_eq!(f.layout_spaces.get(&1), Some(&space(7, 1)));
    assert_eq!(f.windows[0].target, rect(0, 0, 1, 1));
}

#[test]
fn swapping_twice_restores_the_membership() {
    let mut f = frontend(
        WindowLayoutKind::Dwindle,
        vec![window(1, rect(0, 0, 1, 1)), window(2, rect(0, 0, 1, 1)), window(3, rect(0, 0, 1, 1))],
        vec![],
    );
    f.layout_spaces.insert(1, space(7, 1));
    f.layout_spaces.insert(2, space(8, 2));
    assert!(f.swap_layout_windows(0, 1, true, &vec![]).0);
    assert_eq!(f.layout_spaces.get(&1), Some(&space(8, 2)));
    assert!(f.swap_layout_windows(0, 1, true, &vec![]).0);
    assert_eq!(f.layout_spaces.get(&1), Some(&space(7, 1)));
    assert_eq!(f.layout_spaces.get(&2), Some(&space(8, 2)));
    let mut rootless = window(0, rect(0, 0, 1, 1));
    rootless.root = None;
    f.windows.push(rootless);
    assert!(!f.swap_layout_windows(0, 3, true, &vec![]).0);
    assert_eq!(f.layout_spaces.len(), 2);
}

#[test]
fn activation_arranges_only_when_the_layout_accepts() {
    let mut f = frontend(WindowLayoutKind::Scrolling, vec![window(1, rect(0, 0, 500, 800))], vec![]);
    f.layout_spaces.insert(1, space(7, 1));
    let placements = vec![placement(1, rect(-100, 0, 500, 800))];
    let (changed, commands) = f.activate_layout_window(0, false, &placements);
    assert!(!changed && commands.is_empty());
    assert_eq!(f.windows[0].target, rect(0, 0, 500, 800));
    let (changed, commands) = f.activate_layout_window(0, true, &placements);
    assert!(changed);
    assert_eq!(commands.len(), 1);
    assert_eq!(f.windows[0].target, rect(-100, 0, 500, 800));
}

#[test]
fn the_mobile_shell_only_fits_windows_to_itself() {
    let mut f = frontend(
        WindowLayoutKind::Dwindle,
        vec![window(1, rect(0, 0, 10, 10)), window(2, rect(0, 0, 10, 10))],
        vec![output(7, rect(0, 0, 1000, 800))],
    );
    f.mobile_shell = true;
    let (changed, commands) = f.arrange_layout_windows(&vec![placement(1, rect(0, 0, 500, 800))]);
    assert!(!changed);
    assert_eq!(
        commands,
        vec![GeometryCommand::ConfigureMobile { window: 0 }, GeometryCommand::ConfigureMobile { window: 1 }]
    );
    assert_eq!(f.windows[0].target, rect(0, 0, 10, 10));
    assert_eq!(f.reconcile_window_layout(0, Some(7)), ReconcileOutcome::Ignored);
    assert!(f.layout_spaces.is_empty());
}

#[test]
fn returning_to_stacking_refreshes_the_shell_restore_rectangles() {
    let mut maximized = window(2, rect(0, 0, 1000, 800));
    maximized.shell_constrained = true;
    let mut f = frontend(WindowLayoutKind::Dwindle, vec![maximized], vec![]);
    f.layout_restore_geometries.insert(2, rect(40, 40, 300, 200));
    f.shell_maximize_restore_geometries.insert(2, rect(0, 0, 5, 5));
    f.set_window_layout_kind(WindowLayoutKind::Stacking);
    assert_eq!(f.shell_maximize_restore_geometries.get(&2), Some(&rect(40, 40, 300, 200)));
    assert!(f.shell_fullscreen_restore_geometries.is_empty());
    assert_eq!(f.restore_window_geometries.get(&2), Some(&rect(40, 40, 300, 200)));
}

#[test]
fn shell_restore_rectangles_come_first_for_the_stacking_geometry() {
    let mut f = frontend(WindowLayoutKind::Dwindle, vec![window(1, rect(0, 0, 10, 10))], vec![]);
    assert_eq!(f.stacking_geometry_for_layout(0, rect(9, 9, 9, 9)), rect(9, 9, 9, 9));
    f.restore_window_geometries.insert(1, rect(1, 1, 1, 1));
    assert_eq!(f.stacking_geometry_for_layout(0, rect(9, 9, 9, 9)), rect(1, 1, 1, 1));
    f.shell_fullscreen_restore_geometries.insert(1, rect(2, 2, 2, 2));
    assert_eq!(f.stacking_geometry_for_layout(0, rect(9, 9, 9, 9)), rect(2, 2, 2, 2));
    f.shell_maximize_restore_geometries.insert(1, rect(3, 3, 3, 3));
    assert_eq!(f.stacking_geometry_for_layout(0, rect(9, 9, 9, 9)), rect(3, 3, 3, 3));
}

#[test]
fn a_detached_window_floats_at_its_limited_size() {
    let mut f = frontend(WindowLayoutKind::Dwindle, vec![window(1, rect(0, 0, 500, 800))], vec![]);
    assert_eq!(
        f.restore_detached_window_geometry(0, rect(100, 100, 900, 900), Size { w: 640, h: 480 }),
        Some(GeometryCommand::PrepareRestore { window: 0, size: Size { w: 640, h: 480 }, detached: true })
    );
    assert_eq!(f.windows[0].target, rect(100, 100, 640, 480));
    f.windows[0].managed = false;
    assert_eq!(f.restore_detached_window_geometry(0, rect(1, 1, 9, 9), Size { w: 9, h: 9 }), None);
}

#[test]
fn a_tile_context_needs_a_leaf_on_a_known_output() {
    let mut f = frontend(WindowLayoutKind::Dwindle, vec![window(1, rect(0, 0, 1, 1))], vec![output(7, rect(0, 0, 1000, 800))]);
    assert_eq!(f.layout_window_context(0), None);
    f.layout_spaces.insert(1, space(9, 1));
    assert_eq!(f.layout_window_context(0), None);
    f.layout_spaces.insert(1, space(7, 1));
    assert_eq!(
        f.layout_window_context(0),
        Some(LayoutWindowContext { window_id: 1, space: space(7, 1), work_area: rect(0, 0, 1000, 800), gap: 8 })
    );
}

#[test]
fn a_refused_resize_changes_nothing_and_an_accepted_one_reports_moved_tiles() {
    let mut f = frontend(
        WindowLayoutKind::Dwindle,
        vec![window(1, rect(0, 0, 500, 800)), window(2, rect(500, 0, 500, 800))],
        vec![output(7, rect(0, 0, 1000, 800))],
    );
    f.layout_spaces.insert(1, space(7, 1));
    f.layout_spaces.insert(2, space(7, 1));
    let before = vec![placement(1, rect(0, 0, 500, 800)), placement(2, rect(500, 0, 500, 800))];
    let after = vec![placement(1, rect(0, 0, 600, 800)), placement(2, rect(600, 0, 400, 800))];
    let (moved, commands) = f.resize_layout_window(space(7, 1), false, &before, &after);
    assert!(moved.is_empty() && commands.is_empty());
    assert_eq!(f.windows[0].target, rect(0, 0, 500, 800));
    let (moved, commands) = f.resize_layout_window(space(7, 1), true, &before, &after);
    assert_eq!(moved, vec![(0, rect(0, 0, 600, 800)), (1, rect(600, 0, 400, 800))]);
    assert_eq!(commands.len(), 2);
}

#[test]
fn scroll_steps_arrange_and_build_frames() {
    let mut f = frontend(
        WindowLayoutKind::Scrolling,
        vec![window(1, rect(0, 0, 600, 800)), window(2, rect(600, 0, 600, 800))],
        vec![output(7, rect(0, 0, 1000, 800))],
    );
    f.layout_spaces.insert(1, space(7, 1));
    f.layout_spaces.insert(2, space(7, 1));
    f.focused_root = Some(1);
    let context = f.horizontal_layout_scroll_context().unwrap();
    let placements = vec![placement(1, rect(-200, 0, 600, 800)), placement(2, rect(400, 0, 600, 800))];
    assert!(f.scroll_layout_horizontally(context, false, &placements, &placements).is_none());
    assert_eq!(f.windows[0].target, rect(0, 0, 600, 800));
    let (frame, commands) = f.scroll_layout_horizontally(context, true, &placements, &placements).unwrap();
    assert_eq!(frame.placements, vec![(0, rect(-200, 0, 600, 800)), (1, rect(400, 0, 600, 800))]);
    assert_eq!(frame.selected, None);
    assert_eq!(commands.len(), 2);
    assert!(f.finish_layout_horizontal_scroll(context, None, &placements, &placements).is_none());
    let (frame, _) = f.finish_layout_horizontal_scroll(context, Some(2), &placements, &placements).unwrap();
    assert_eq!(frame.selected, Some(1));
    assert_eq!(frame.monitor_geometry, rect(0, 0, 1000, 800));
}
