use std::collections::HashMap;
use std::collections::HashSet;

use vstd::prelude::*;

use crate::axis::OutputTransform;
use crate::geometry::{Rect, Size};
use crate::properties::LayoutWindowProperties;

verus! {

/// The layout algorithms the desktop can switch between.
#[derive(Clone, Copy, Debug, PartialEq, Eq, Structural)]
pub enum WindowLayoutKind {
    /// Free-floating windows; the layout owns no geometry.
    Stacking,
    /// Binary space partitioning that splits the focused tile.
    Dwindle,
    /// Columns on a strip that scrolls along the output's main axis.
    Scrolling,
}

impl WindowLayoutKind {
    /// Every algorithm but stacking owns the geometry of its windows.
    pub open spec fn spec_manages_geometry(self) -> bool {
        self != WindowLayoutKind::Stacking
    }

    pub fn manages_geometry(&self) -> (r: bool)
        ensures
            r == self.spec_manages_geometry(),
    {
        match self {
            WindowLayoutKind::Stacking => false,
            _ => true,
        }
    }
}

/// One output's workspace: the unit a layout arranges independently.
#[derive(Clone, Copy, Debug, PartialEq, Eq, Hash, Structural)]
pub struct LayoutSpace {
    pub output: u32,
    pub workspace: u8,
}

impl LayoutSpace {
    pub fn new(output: u32, workspace: u8) -> (r: LayoutSpace)
        ensures
            r == (LayoutSpace { output, workspace }),
    {
        LayoutSpace { output, workspace }
    }
}

/// An output as the layout sees it.
#[derive(Clone, Copy, Debug, PartialEq, Eq, Structural)]
pub struct OutputRecord {
    pub id: u32,
    pub logical_geometry: Rect,
    /// The area left for maximized and tiled windows once panels are reserved.
    pub work_area: Rect,
    pub transform: OutputTransform,
    pub active_workspace: u8,
}

/// A mapped window as the layout sees it.
#[derive(Clone, Copy, Debug, PartialEq, Eq, Structural)]
pub struct WindowRecord {
    /// Protocol id of the window's root surface, once it has one.
    pub root: Option<u64>,
    /// The geometry the compositor wants the window to have.
    pub target: Rect,
    /// The size of the client's last committed buffer.
    pub committed_size: Size,
    /// Whether the window is an XDG toplevel or an X11 window that the
    /// compositor configures; other elements carry no client facts.
    pub managed: bool,
    /// The client asked for fullscreen.
    pub fullscreen: bool,
    /// The shell holds the window fullscreen or maximized, or placed it at an
    /// exact geometry. A window with a shell maximize restore rectangle is
    /// always held (`WaylandFrontend::spec_shell_constraints_consistent`).
    pub shell_constrained: bool,
    pub alive: bool,
    pub transient: bool,
    pub auxiliary: bool,
    pub override_redirect: bool,
    pub minimized: bool,
    pub minimum_size: Size,
    pub maximum_size: Size,
}

/// Where a layout places a window.
#[derive(Clone, Copy, Debug, PartialEq, Eq, Structural)]
pub struct LayoutPlacement {
    pub window: u64,
    pub geometry: Rect,
}

/// A window handed to a layout, next to an existing leaf when `anchor` is set.
#[derive(Clone, Copy, Debug, PartialEq, Eq, Structural)]
pub struct LayoutInsertion {
    pub window: u64,
    pub space: LayoutSpace,
    pub anchor: Option<u64>,
}

/// A configure the frontend must send to a client before it moves the
/// window's geometry target.
#[derive(Clone, Copy, Debug, PartialEq, Eq, Structural)]
pub enum GeometryCommand {
    /// Tell the client its tiled rectangle; `resize` asks for a new size.
    PrepareTiled { window: usize, target: Rect, resize: bool },
    /// Hand the client back its floating size; `detached` when the window
    /// alone leaves the layout.
    PrepareRestore { window: usize, size: Size, detached: bool },
    /// Fit the window to the mobile shell's fixed presentation.
    ConfigureMobile { window: usize },
}

/// The frontend state that the layout adapter reads and writes.
pub struct WaylandFrontend {
    pub layout_kind: WindowLayoutKind,
    /// The layout space of every window the layout holds, by root id.
    pub layout_spaces: HashMap<u64, LayoutSpace>,
    /// Mapped windows, bottom to top.
    pub windows: Vec<WindowRecord>,
    pub outputs: Vec<OutputRecord>,
    /// The maximize padding rounded to whole pixels; `None` when the setting
    /// is not a finite number.
    pub maximize_padding: Option<i64>,
    pub workspaces_enabled: bool,
    pub workspace_count: u8,
    /// Root id of the toplevel that holds keyboard focus.
    pub focused_root: Option<u64>,
    pub ticker_output: Option<u32>,
    /// Floating rectangles of tiled windows, restored when they float again.
    pub layout_restore_geometries: HashMap<u64, Rect>,
    /// Rectangles a fullscreen or maximized window returns to.
    pub restore_window_geometries: HashMap<u64, Rect>,
    /// Leaves that a new window is inserted next to, by the new window.
    pub layout_insertion_anchors: HashMap<u64, u64>,
    /// Stable shell ids of root surfaces.
    pub surface_ids: HashMap<u64, u64>,
    /// The workspace each stable shell id is shown on.
    pub window_workspaces: HashMap<u64, LayoutSpace>,
    /// Stable shell ids whose minimized output is still remembered.
    pub minimized_window_outputs: HashSet<u64>,
    /// The shell presents every window full-screen on a phone; no desktop
    /// layout applies.
    pub mobile_shell: bool,
    /// Rectangles that windows the shell maximized return to, by root id.
    pub shell_maximize_restore_geometries: HashMap<u64, Rect>,
    /// Rectangles that windows the shell made fullscreen return to, by root id.
    pub shell_fullscreen_restore_geometries: HashMap<u64, Rect>,
}

impl WindowRecord {
    pub open spec fn spec_properties(self) -> LayoutWindowProperties {
        LayoutWindowProperties {
            alive: self.alive,
            transient: self.transient,
            auxiliary: self.auxiliary,
            override_redirect: self.override_redirect,
            minimized: self.minimized,
        }
    }

    /// Fullscreen and maximized windows overlay their tile.
    pub open spec fn spec_constrained(self) -> bool {
        self.shell_constrained || (self.managed && self.fullscreen)
    }

    /// A window may be tiled once it has a root, carries client facts, and
    /// is a regular toplevel.
    pub open spec fn spec_layout_eligible(self) -> bool {
        self.root is Some && self.managed && self.spec_properties().spec_is_tiling_candidate()
    }

    pub open spec fn with_target(self, target: Rect) -> WindowRecord {
        WindowRecord { target, ..self }
    }
}

impl WaylandFrontend {
    /// Every window that the shell keeps a maximize restore rectangle for is
    /// marked as held by the shell.
    pub open spec fn spec_shell_constraints_consistent(&self) -> bool {
        forall|i: int|
            0 <= i < self.windows@.len() && (#[trigger] self.windows@[i]).root is Some
                && self.shell_maximize_restore_geometries@.contains_key(self.windows@[i].root->0)
                ==> self.windows@[i].shell_constrained
    }
}

/// `b` keeps every table of `a` but the windows and the layout membership.
pub open spec fn same_tables(a: WaylandFrontend, b: WaylandFrontend) -> bool {
    &&& b.layout_kind == a.layout_kind
    &&& b.outputs == a.outputs
    &&& b.maximize_padding == a.maximize_padding
    &&& b.workspaces_enabled == a.workspaces_enabled
    &&& b.workspace_count == a.workspace_count
    &&& b.focused_root == a.focused_root
    &&& b.ticker_output == a.ticker_output
    &&& b.layout_restore_geometries@ == a.layout_restore_geometries@
    &&& b.restore_window_geometries@ == a.restore_window_geometries@
    &&& b.layout_insertion_anchors@ == a.layout_insertion_anchors@
    &&& b.surface_ids@ == a.surface_ids@
    &&& b.window_workspaces@ == a.window_workspaces@
    &&& b.minimized_window_outputs@ == a.minimized_window_outputs@
    &&& b.mobile_shell == a.mobile_shell
    &&& b.shell_maximize_restore_geometries@ == a.shell_maximize_restore_geometries@
    &&& b.shell_fullscreen_restore_geometries@ == a.shell_fullscreen_restore_geometries@
}

/// The root ids of `windows`, in order.
pub open spec fn roots(windows: Seq<WindowRecord>) -> Seq<Option<u64>> {
    windows.map_values(|w: WindowRecord| w.root)
}

/// `i` is the first position whose root is `id`.
pub open spec fn first_with_root(rs: Seq<Option<u64>>, id: u64, i: int) -> bool {
    &&& 0 <= i < rs.len()
    &&& rs[i] == Some(id)
    &&& forall|j: int| 0 <= j < i ==> rs[j] != Some(id)
}

/// The first window whose root is `id`.
pub open spec fn index_of_root(rs: Seq<Option<u64>>, id: u64) -> Option<int> {
    if exists|i: int| first_with_root(rs, id, i) {
        Some(choose|i: int| first_with_root(rs, id, i))
    } else {
        None
    }
}

pub proof fn lemma_index_of_root_found(rs: Seq<Option<u64>>, id: u64, i: int)
    requires
        first_with_root(rs, id, i),
    ensures
        index_of_root(rs, id) == Some(i),
{
    let k = choose|k: int| first_with_root(rs, id, k);
    assert(first_with_root(rs, id, k));
    if k < i {
        assert(rs[k] != Some(id));
    } else if i < k {
        assert(rs[i] != Some(id));
    }
}

pub proof fn lemma_index_of_root_absent(rs: Seq<Option<u64>>, id: u64)
    requires
        forall|j: int| 0 <= j < rs.len() ==> rs[j] != Some(id),
    ensures
        index_of_root(rs, id) is None,
{
}

pub proof fn lemma_index_of_root_range(rs: Seq<Option<u64>>, id: u64)
    ensures
        index_of_root(rs, id) matches Some(i) ==> first_with_root(rs, id, i),
{
    if exists|i: int| first_with_root(rs, id, i) {
        let k = choose|k: int| first_with_root(rs, id, k);
        lemma_index_of_root_found(rs, id, k);
    }
}

} // verus!
