//! Snapshot of the compositor's windows, workspaces and outputs, as plain
//! values, and the queries the policies make on such snapshots.

use vstd::prelude::*;

verus! {

/// Placement of a window in the compositor's layout.
#[derive(Clone, Copy, Debug)]
pub struct WindowLayout {
    /// Position of the tile in the workspace view, in whole pixels.
    pub tile_pos: Option<(i32, i32)>,
    /// Size of the window.
    pub window_size: Option<(u32, u32)>,
    /// `(column, tile in column)`, both 1-based, for tiled windows.
    pub pos_in_scrolling_layout: Option<(usize, usize)>,
}

/// A window as one poll of the compositor sees it.
#[derive(Clone, Debug)]
pub struct Window {
    pub id: u64,
    pub title: String,
    pub app_id: Option<String>,
    pub floating: bool,
    pub workspace_id: Option<u64>,
    pub pid: Option<u32>,
    pub layout: Option<WindowLayout>,
}

/// A workspace as one poll of the compositor sees it.
#[derive(Clone, Debug)]
pub struct Workspace {
    pub id: u64,
    /// 1-based position on its output.
    pub idx: u8,
    pub name: Option<String>,
    pub is_focused: bool,
    pub active_window_id: Option<u64>,
}

/// Logical geometry of an output.
#[derive(Clone, Copy, Debug, PartialEq, Eq, Structural)]
pub struct OutputLogical {
    pub x: i32,
    pub y: i32,
    pub width: u32,
    pub height: u32,
}

#[derive(Clone, Debug)]
pub struct Output {
    pub name: String,
    pub focused: bool,
    pub logical: Option<OutputLogical>,
}

/// Handle on the compositor's control socket: where it is, when it is not
/// the default place.
#[derive(Clone, Debug)]
pub struct NiriIpc {
    socket_path: Option<String>,
}

/// An event of the compositor's event stream.
#[derive(Clone, Debug)]
pub enum Event {
    WorkspaceActivated { id: u64, focused: bool },
    WindowOpenedOrChanged { window: Window },
    WindowClosed { id: u64 },
    WindowFocusChanged { id: Option<u64> },
    WindowFocusTimestampChanged { id: u64 },
    WindowLayoutsChanged,
    /// Any other event of the stream.
    Other,
}

/// Output size assumed when the compositor reports none.
pub const DEFAULT_OUTPUT_WIDTH: u32 = 1920;

pub const DEFAULT_OUTPUT_HEIGHT: u32 = 1080;

/// Size of the focused output, or the default size when it is unknown.
pub open spec fn output_dimensions(o: Option<Output>) -> (u32, u32) {
    match o {
        Some(out) => match out.logical {
            Some(l) => (l.width, l.height),
            None => (DEFAULT_OUTPUT_WIDTH, DEFAULT_OUTPUT_HEIGHT),
        },
        None => (DEFAULT_OUTPUT_WIDTH, DEFAULT_OUTPUT_HEIGHT),
    }
}

/// Index of the first window with id `id`.
pub open spec fn first_window_with_id(ws: Seq<Window>, id: u64) -> Option<int> {
    if exists|i: int| 0 <= i < ws.len() && ws[i].id == id {
        Some(choose|i: int| 0 <= i < ws.len() && ws[i].id == id && forall|j: int| 0 <= j < i ==> ws[j].id != id)
    } else {
        None
    }
}

/// Index of the first workspace with id `id`.
pub open spec fn first_workspace_with_id(ws: Seq<Workspace>, id: u64) -> Option<int> {
    if exists|i: int| 0 <= i < ws.len() && ws[i].id == id {
        Some(choose|i: int| 0 <= i < ws.len() && ws[i].id == id && forall|j: int| 0 <= j < i ==> ws[j].id != id)
    } else {
        None
    }
}

/// Position and size of a floating window whose layout gives both.
pub open spec fn floating_geometry(w: Window) -> Option<(i32, i32, u32, u32)> {
    if w.floating && w.layout is Some && w.layout->Some_0.tile_pos is Some
        && w.layout->Some_0.window_size is Some {
        let p = w.layout->Some_0.tile_pos->Some_0;
        let s = w.layout->Some_0.window_size->Some_0;
        Some((p.0, p.1, s.0, s.1))
    } else {
        None
    }
}

/// The least index of a window with id `id`, if any.
pub fn find_window_index(windows: &Vec<Window>, id: u64) -> (r: Option<usize>)
    ensures
        r matches Some(i) ==> i < windows@.len() && windows@[i as int].id == id && forall|j: int|
            0 <= j < i ==> windows@[j].id != id,
        r is None <==> forall|j: int| 0 <= j < windows@.len() ==> windows@[j].id != id,
        r matches Some(i) ==> first_window_with_id(windows@, id) == Some(i as int),
        r is None ==> first_window_with_id(windows@, id) is None,
{
    let mut i: usize = 0;
    while i < windows.len()
        invariant
            i <= windows@.len(),
            forall|j: int| 0 <= j < i ==> windows@[j].id != id,
        decreases windows.len() - i,
    {
        if windows[i].id == id {
            proof {
                let k = choose|k: int| 0 <= k < windows@.len() && windows@[k].id == id && forall|j: int| 0 <= j < k ==> windows@[j].id != id;
                assert(k == i as int) by {
                    if k < i {
                    } else if k > i {
                        assert(windows@[i as int].id == id);
                    }
                }
            }
            return Some(i);
        }
        i += 1;
    }
    None
}

impl NiriIpc {
    /// A handle on the socket at `socket_path`, or on the compositor's own
    /// default socket.
    pub fn new(socket_path: Option<String>) -> (r: NiriIpc)
        ensures
            r.socket_path() == socket_path,
    {
        NiriIpc { socket_path }
    }

    pub closed spec fn socket_path(&self) -> Option<String> {
        self.socket_path
    }

    /// Where the socket is, when it is not the default place.
    pub fn path(&self) -> (r: Option<String>)
        ensures
            r == self.socket_path(),
    {
        self.socket_path.clone()
    }

    /// The idx of the first workspace with id `workspace_id`.
    pub fn get_workspace_idx_from_id(workspaces: &Vec<Workspace>, workspace_id: u64) -> (r: Option<u64>)
        ensures
            r == (match first_workspace_with_id(workspaces@, workspace_id) {
                Some(i) => Some(workspaces@[i].idx as u64),
                None => None,
            }),
    {
        let mut i: usize = 0;
        while i < workspaces.len()
            invariant
                i <= workspaces@.len(),
                forall|j: int| 0 <= j < i ==> workspaces@[j].id != workspace_id,
            decreases workspaces.len() - i,
        {
            if workspaces[i].id == workspace_id {
                proof {
                    let k = choose|k: int| 0 <= k < workspaces@.len() && workspaces@[k].id == workspace_id && forall|j: int| 0 <= j < k ==> workspaces@[j].id != workspace_id;
                    assert(k == i as int) by {
                        if k > i {
                            assert(workspaces@[i as int].id == workspace_id);
                        }
                    }
                }
                return Some(workspaces[i].idx as u64);
            }
            i += 1;
        }
        None
    }

    /// Width and height of the focused output, the default size where it is
    /// unknown.
    pub fn get_output_dimensions(focused: Option<&Output>) -> (r: (u32, u32))
        ensures
            r == output_dimensions(
                match focused {
                    Some(o) => Some(*o),
                    None => None,
                },
            ),
    {
        match focused {
            Some(o) => match o.logical {
                Some(l) => (l.width, l.height),
                None => (DEFAULT_OUTPUT_WIDTH, DEFAULT_OUTPUT_HEIGHT),
            },
            None => (DEFAULT_OUTPUT_WIDTH, DEFAULT_OUTPUT_HEIGHT),
        }
    }

    /// `(x, y, width, height)` of window `window_id`, when it is the first
    /// window with that id, is floating, and its layout gives both.
    pub fn get_window_position(windows: &Vec<Window>, window_id: u64) -> (r: Option<(i32, i32, u32, u32)>)
        ensures
            r == (match first_window_with_id(windows@, window_id) {
                Some(i) => floating_geometry(windows@[i]),
                None => None,
            }),
    {
        match find_window_index(windows, window_id) {
            Some(i) => {
                let w = &windows[i];
                if w.floating {
                    match w.layout {
                        Some(l) => match (l.tile_pos, l.window_size) {
                            (Some(p), Some(s)) => Some((p.0, p.1, s.0, s.1)),
                            _ => None,
                        },
                        None => None,
                    }
                } else {
                    None
                }
            },
            None => None,
        }
    }
}

} // verus!
