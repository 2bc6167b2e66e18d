//! Keeping the last column of the focused workspace flush with the right
//! edge after windows close or the layout changes.

use vstd::prelude::*;
use crate::actions::Action;
use crate::niri::{Window, first_window_with_id, find_window_index};

verus! {

/// Column of a tiled window of workspace `ws_id` whose layout gives one.
pub open spec fn placed_column(w: Window, ws_id: u64) -> Option<usize> {
    if w.workspace_id == Some(ws_id) && !w.floating && w.layout is Some
        && w.layout->Some_0.pos_in_scrolling_layout is Some {
        Some(w.layout->Some_0.pos_in_scrolling_layout->Some_0.0)
    } else {
        None
    }
}

/// The window in the rightmost column, the last one listed among equals.
pub open spec fn last_column_window(ws: Seq<Window>, ws_id: u64) -> Option<(usize, u64)>
    decreases ws.len(),
{
    if ws.len() == 0 {
        None
    } else {
        let r = last_column_window(ws.drop_last(), ws_id);
        match placed_column(ws.last(), ws_id) {
            Some(c) => match r {
                Some((best, _)) => if c >= best {
                    Some((c, ws.last().id))
                } else {
                    r
                },
                None => Some((c, ws.last().id)),
            },
            None => r,
        }
    }
}

/// Number of tiled windows of workspace `ws_id`.
pub open spec fn tiled_count(ws: Seq<Window>, ws_id: u64) -> nat
    decreases ws.len(),
{
    if ws.len() == 0 {
        0
    } else {
        tiled_count(ws.drop_last(), ws_id) + if ws.last().workspace_id == Some(ws_id) && !ws.last().floating {
            1nat
        } else {
            0nat
        }
    }
}

/// Window whose column to realign: on the focused window's workspace, with
/// more than one tiled window there, the window in the rightmost column.
pub open spec fn align_target(focused: Option<u64>, ws: Seq<Window>) -> Option<u64> {
    match focused {
        None => None,
        Some(f) => match first_window_with_id(ws, f) {
            None => None,
            Some(i) => match ws[i].workspace_id {
                None => None,
                Some(w) => if tiled_count(ws, w) <= 1 {
                    None
                } else {
                    match last_column_window(ws, w) {
                        Some((_, id)) => Some(id),
                        None => None,
                    }
                },
            },
        },
    }
}

proof fn lemma_tiled_count_le(ws: Seq<Window>, w: u64)
    ensures
        tiled_count(ws, w) <= ws.len(),
    decreases ws.len(),
{
    if ws.len() > 0 {
        lemma_tiled_count_le(ws.drop_last(), w);
    }
}

pub fn autofill_target(focused: Option<u64>, windows: &Vec<Window>) -> (r: Option<u64>)
    ensures
        r == align_target(focused, windows@),
{
    let f = match focused {
        Some(f) => f,
        None => {
            return None;
        },
    };
    let i = match find_window_index(windows, f) {
        Some(i) => i,
        None => {
            return None;
        },
    };
    let w = match windows[i].workspace_id {
        Some(w) => w,
        None => {
            return None;
        },
    };
    let mut count: usize = 0;
    let mut best: Option<(usize, u64)> = None;
    let mut k: usize = 0;
    while k < windows.len()
        invariant
            k <= windows@.len(),
            count as nat == tiled_count(windows@.take(k as int), w),
            best == last_column_window(windows@.take(k as int), w),
        decreases windows.len() - k,
    {
        assert(windows@.take(k + 1).drop_last() =~= windows@.take(k as int));
        proof {
            lemma_tiled_count_le(windows@.take(k as int), w);
        }
        let x = &windows[k];
        if x.workspace_id == Some(w) && !x.floating {
            count = count + 1;
            if let Some(l) = x.layout {
                if let Some(p) = l.pos_in_scrolling_layout {
                    best = match best {
                        Some((c, id)) => if p.0 >= c {
                            Some((p.0, x.id))
                        } else {
                            Some((c, id))
                        },
                        None => Some((p.0, x.id)),
                    };
                }
            }
        }
        k += 1;
    }
    assert(windows@.take(windows@.len() as int) =~= windows@);
    if count <= 1 {
        return None;
    }
    match best {
        Some((_, id)) => Some(id),
        None => None,
    }
}

/// Focusing the window, then the column left of it and back, scrolls its
/// column flush with the right edge.
pub fn align_actions(id: u64) -> (r: Vec<Action>)
    ensures
        r@ == seq![Action::FocusWindow { id }, Action::FocusColumnLeft, Action::FocusColumnRight],
{
    let mut r: Vec<Action> = Vec::new();
    r.push(Action::FocusWindow { id });
    r.push(Action::FocusColumnLeft);
    r.push(Action::FocusColumnRight);
    assert(r@ =~= seq![Action::FocusWindow { id }, Action::FocusColumnLeft, Action::FocusColumnRight]);
    r
}

} // verus!
