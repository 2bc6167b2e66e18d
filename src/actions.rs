//! Compositor actions that the policies issue, as plain values.

use vstd::prelude::*;
use crate::text::{parse_uint, parse_uint_spec};

verus! {

/// How an action names a workspace.
#[derive(Clone, Debug)]
pub enum WorkspaceReference {
    Index(u8),
    Id(u64),
    Name(String),
}

#[derive(Clone, Debug)]
pub enum Action {
    FocusWindow { id: u64 },
    FocusWorkspace { reference: WorkspaceReference },
    MoveWindowToWorkspace { window_id: u64, reference: WorkspaceReference, focus: bool },
    MoveWindowToMonitor { id: u64, output: String },
    MoveWindowToFloating { id: u64 },
    MoveWindowToTiling { id: u64 },
    /// Moves a floating window by `(dx, dy)` pixels.
    MoveFloatingWindow { id: u64, dx: i64, dy: i64 },
    SetWindowWidth { id: u64, width: u32 },
    SetWindowHeight { id: u64, height: u32 },
    /// Moves the focused column to a 1-based index.
    MoveColumnToIndex { index: usize },
    ConsumeOrExpelWindowLeft { id: u64 },
    FocusColumnLeft,
    FocusColumnRight,
}

/// A workspace written as text names it by index when it reads as a `u8`,
/// else by id when it reads as a `u64`, else by name.
pub open spec fn reference_for(s: Seq<char>, r: WorkspaceReference) -> bool {
    match r {
        WorkspaceReference::Index(i) => parse_uint_spec(s, 255) == Some(i as nat),
        WorkspaceReference::Id(x) => parse_uint_spec(s, 255) is None && parse_uint_spec(
            s,
            u64::MAX as nat,
        ) == Some(x as nat),
        WorkspaceReference::Name(n) => parse_uint_spec(s, 255) is None && parse_uint_spec(
            s,
            u64::MAX as nat,
        ) is None && n@ == s,
    }
}

/// The reference for a workspace written as `s`.
pub fn workspace_reference(s: &str) -> (r: WorkspaceReference)
    ensures
        reference_for(s@, r),
{
    match parse_uint(s, 255) {
        Some(i) => WorkspaceReference::Index(i as u8),
        None => match parse_uint(s, u64::MAX) {
            Some(x) => WorkspaceReference::Id(x),
            None => WorkspaceReference::Name(s.to_owned()),
        },
    }
}

} // verus!
