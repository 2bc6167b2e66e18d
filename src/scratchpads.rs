//! Scratchpad slots: which window each named slot holds, whether it is shown,
//! and the decisions of a toggle: which window to use, what visibility comes
//! next, where the window goes, and which window gets focus after a hide.

use vstd::prelude::*;
use crate::config::{ScratchpadConfig, ScratchpadDefaults};
use crate::geometry::{
    Direction, calculate_hide_position, calculate_position, fits_i32, hidden_position,
    visible_position,
};
use crate::actions::{Action, WorkspaceReference};
use crate::niri::{NiriIpc, Window};
use crate::size::{percent_of, percent_of_spec, size_of_text};
use crate::text::{push_char, push_decimal, str_eq};
use vstd::string::StringExecFns;

verus! {

/// Runtime state of one named scratchpad.
#[derive(Clone, Debug)]
pub struct ScratchpadState {
    pub window_id: Option<u64>,
    pub is_visible: bool,
    /// Window focused before the scratchpad was last shown.
    pub previous_focused: Option<u64>,
    pub config: ScratchpadConfig,
    /// Added from a live window rather than configured.
    pub is_dynamic: bool,
}

#[derive(Clone, Debug)]
pub enum ScratchpadError {
    /// No configured or added scratchpad has this name.
    NotFound(String),
    /// An added scratchpad whose window has closed.
    ScratchpadGone(String),
    AlreadyExists(String),
    NoFocusedWindow,
    NoAppId,
    LaunchTimeout(String),
    InvalidSize(String),
    /// The compositor gives no position for the scratchpad's window.
    NoPosition(String),
    /// A target position does not fit in the compositor's coordinates.
    OutOfRange(String),
}

/// What the client is told of a failed scratchpad request.
pub open spec fn error_text(e: ScratchpadError) -> Seq<char> {
    match e {
        ScratchpadError::NotFound(n) => "Scratchpad '"@ + n@ + "' not found. Use 'piri scratchpads "@ + n@
            + " add <direction>' to add it first."@,
        ScratchpadError::ScratchpadGone(n) => "Scratchpad '"@ + n@ + "' window is gone"@,
        ScratchpadError::AlreadyExists(n) => "Scratchpad '"@ + n@ + "' already exists"@,
        ScratchpadError::NoFocusedWindow => "No focused window found"@,
        ScratchpadError::NoAppId => "Focused window has no app_id"@,
        ScratchpadError::LaunchTimeout(n) => "Timeout waiting for window to appear for scratchpad "@ + n@,
        ScratchpadError::InvalidSize(z) => "Size must be in format 'width% height%', got: "@ + z@,
        ScratchpadError::NoPosition(n) => "Failed to get window position for scratchpad "@ + n@,
        ScratchpadError::OutOfRange(n) => "Position out of range for scratchpad "@ + n@,
    }
}

impl ScratchpadError {
    pub fn message(&self) -> (r: String)
        ensures
            r@ == error_text(*self),
    {
        match self {
            ScratchpadError::NotFound(n) => {
                let mut s = String::from_str("Scratchpad '");
                s.append(n.as_str());
                s.append("' not found. Use 'piri scratchpads ");
                s.append(n.as_str());
                s.append(" add <direction>' to add it first.");
                s
            },
            ScratchpadError::ScratchpadGone(n) => {
                let mut s = String::from_str("Scratchpad '");
                s.append(n.as_str());
                s.append("' window is gone");
                s
            },
            ScratchpadError::AlreadyExists(n) => {
                let mut s = String::from_str("Scratchpad '");
                s.append(n.as_str());
                s.append("' already exists");
                s
            },
            ScratchpadError::NoFocusedWindow => String::from_str("No focused window found"),
            ScratchpadError::NoAppId => String::from_str("Focused window has no app_id"),
            ScratchpadError::LaunchTimeout(n) => {
                let mut s = String::from_str("Timeout waiting for window to appear for scratchpad ");
                s.append(n.as_str());
                s
            },
            ScratchpadError::InvalidSize(z) => {
                let mut s = String::from_str("Size must be in format 'width% height%', got: ");
                s.append(z.as_str());
                s
            },
            ScratchpadError::NoPosition(n) => {
                let mut s = String::from_str("Failed to get window position for scratchpad ");
                s.append(n.as_str());
                s
            },
            ScratchpadError::OutOfRange(n) => {
                let mut s = String::from_str("Position out of range for scratchpad ");
                s.append(n.as_str());
                s
            },
        }
    }
}

/// State of the first slot called `k`, where slots are looked up first to last.
pub open spec fn slot_of<V>(m: Seq<(String, V)>, k: Seq<char>) -> Option<V>
    decreases m.len(),
{
    if m.len() == 0 {
        None
    } else {
        let r = slot_of(m.drop_last(), k);
        if r is Some {
            r
        } else if m.last().0@ == k {
            Some(m.last().1)
        } else {
            None
        }
    }
}

/// The slots not called `k`, in order.
pub open spec fn other_slots<V>(m: Seq<(String, V)>, k: Seq<char>) -> Seq<(String, V)>
    decreases m.len(),
{
    if m.len() == 0 {
        m
    } else {
        let r = other_slots(m.drop_last(), k);
        if m.last().0@ == k {
            r
        } else {
            r.push(m.last())
        }
    }
}

pub proof fn lemma_other_slots<V>(m: Seq<(String, V)>, k: Seq<char>, n: Seq<char>)
    ensures
        slot_of(other_slots(m, k), k) is None,
        n != k ==> slot_of(other_slots(m, k), n) == slot_of(m, n),
    decreases m.len(),
{
    if m.len() > 0 {
        lemma_other_slots::<V>(m.drop_last(), k, n);
        let r = other_slots(m.drop_last(), k);
        if m.last().0@ != k {
            assert(r.push(m.last()).drop_last() =~= r);
        }
    }
}

pub proof fn lemma_slot_push<V>(m: Seq<(String, V)>, e: (String, V), n: Seq<char>)
    requires
        slot_of(m, e.0@) is None,
    ensures
        slot_of(m.push(e), e.0@) == Some(e.1),
        n != e.0@ ==> slot_of(m.push(e), n) == slot_of(m, n),
{
    assert(m.push(e).drop_last() =~= m);
}

/// Writing or dropping the slot of one name leaves every other name's slot as
/// it was, and an empty table has no slot: a name that no request has named
/// has no slot, so nothing is ever done for it.
pub proof fn lemma_other_names_untouched<V>(m: Seq<(String, V)>, e: (String, V), n: Seq<char>)
    requires
        n != e.0@,
    ensures
        slot_of(Seq::<(String, V)>::empty(), n) is None,
        slot_of(other_slots(m, e.0@), n) == slot_of(m, n),
        slot_of(other_slots(m, e.0@).push(e), n) == slot_of(m, n),
        slot_of(other_slots(m, e.0@).push(e), e.0@) == Some(e.1),
{
    lemma_other_slots::<V>(m, e.0@, n);
    lemma_other_slots::<V>(m, e.0@, e.0@);
    lemma_slot_push::<V>(other_slots(m, e.0@), e, n);
    lemma_slot_push::<V>(other_slots(m, e.0@), e, e.0@);
}

/// Next visibility of a toggled scratchpad: a shown one on the focused
/// workspace hides; one shown elsewhere is brought over and stays shown; a
/// hidden one shows.
pub open spec fn next_visibility(is_visible: bool, in_current_ws: bool) -> bool {
    if is_visible {
        !in_current_ws
    } else {
        true
    }
}

pub fn next_visible(is_visible: bool, in_current_ws: bool) -> (r: bool)
    ensures
        r == next_visibility(is_visible, in_current_ws),
{
    if is_visible {
        !in_current_ws
    } else {
        true
    }
}

/// Two toggles restore visibility: after the first toggle a shown window is on
/// the focused workspace, so the second toggle undoes the first whenever the
/// scratchpad started hidden or shown on the focused workspace.
pub proof fn lemma_two_toggles_restore(is_visible: bool, in_current_ws: bool)
    requires
        !is_visible || in_current_ws,
    ensures
        next_visibility(next_visibility(is_visible, in_current_ws), true) == is_visible,
{
}

/// What the first phase of a toggle does for its window.
#[derive(Clone, Copy, Debug, PartialEq, Eq, Structural)]
pub enum WindowSource {
    /// The slot's window still exists.
    Bound(u64),
    /// The slot was added from a window that has closed.
    Gone,
    /// A live window has the configured application id: adopt it.
    Adopt(u64),
    /// No window: launch the command.
    Launch,
}

pub open spec fn window_exists(ws: Seq<Window>, id: u64) -> bool {
    exists|i: int| 0 <= i < ws.len() && ws[i].id == id
}

/// Index of the first window whose application id is `app`.
pub open spec fn first_with_app_id(ws: Seq<Window>, app: Seq<char>) -> Option<int> {
    if exists|i: int| 0 <= i < ws.len() && ws[i].app_id is Some && ws[i].app_id->Some_0@ == app {
        Some(
            choose|i: int|
                0 <= i < ws.len() && ws[i].app_id is Some && ws[i].app_id->Some_0@ == app && forall|j: int|
                    0 <= j < i ==> !(ws[j].app_id is Some && ws[j].app_id->Some_0@ == app),
        )
    } else {
        None
    }
}

pub open spec fn source_for(slot: Option<ScratchpadState>, app: Seq<char>, ws: Seq<Window>) -> WindowSource {
    if slot is Some && slot->Some_0.window_id is Some && window_exists(ws, slot->Some_0.window_id->Some_0) {
        WindowSource::Bound(slot->Some_0.window_id->Some_0)
    } else if slot is Some && slot->Some_0.is_dynamic {
        WindowSource::Gone
    } else {
        match first_with_app_id(ws, app) {
            Some(i) => WindowSource::Adopt(ws[i].id),
            None => WindowSource::Launch,
        }
    }
}

/// Ids of the windows of workspace `ws_id` other than `hidden`, in order.
pub open spec fn windows_left(ws: Seq<Window>, ws_id: u64, hidden: u64) -> Seq<u64>
    decreases ws.len(),
{
    if ws.len() == 0 {
        seq![]
    } else {
        let r = windows_left(ws.drop_last(), ws_id, hidden);
        let w = ws.last();
        if w.id != hidden && w.workspace_id == Some(ws_id) {
            r.push(w.id)
        } else {
            r
        }
    }
}

/// Window of the focused workspace to focus after a hide: the one focused
/// before the show when it still lives there; none when nothing was focused
/// then; else the middle one of the other windows of the focused workspace.
pub open spec fn focus_after_hide_spec(previous: Option<u64>, ws: Seq<Window>, current_ws: u64, hidden: u64) -> Option<u64> {
    match previous {
        None => None,
        Some(p) => if exists|i: int| 0 <= i < ws.len() && ws[i].id == p && ws[i].workspace_id == Some(current_ws) {
            Some(p)
        } else {
            let others = windows_left(ws, current_ws, hidden);
            if others.len() == 0 {
                None
            } else {
                Some(others[others.len() as int / 2])
            }
        },
    }
}

/// Window size of a scratchpad on an output of `(ow, oh)`.
pub open spec fn scratchpad_size_spec(size: Seq<char>, ow: u32, oh: u32) -> Option<(u32, u32)> {
    match size_of_text(size) {
        Some((w, h)) => if percent_of_spec(ow as nat, w as nat) <= u32::MAX && percent_of_spec(oh as nat, h as nat) <= u32::MAX {
            Some((percent_of_spec(ow as nat, w as nat) as u32, percent_of_spec(oh as nat, h as nat) as u32))
        } else {
            None
        },
        None => None,
    }
}

/// Size of a scratchpad window on an output of `(ow, oh)`, `None` when its
/// size string is malformed or the size does not fit.
pub fn scratchpad_size(config: &ScratchpadConfig, ow: u32, oh: u32) -> (r: Option<(u32, u32)>)
    ensures
        r == scratchpad_size_spec(config.size@, ow, oh),
{
    match config.parse_size() {
        Some((w, h)) => match (percent_of(ow, w), percent_of(oh, h)) {
            (Some(a), Some(b)) => Some((a, b)),
            _ => None,
        },
        None => None,
    }
}

/// Visible position of a scratchpad window, `None` where it does not fit in `i32`.
pub fn visible_target(d: Direction, ow: u32, oh: u32, ww: u32, wh: u32, m: u32) -> (r: Option<(i32, i32)>)
    ensures
        r is Some <==> fits_i32(visible_position(d, ow as int, oh as int, ww as int, wh as int, m as int)),
        r matches Some(p) ==> (p.0 as int, p.1 as int) == visible_position(d, ow as int, oh as int, ww as int, wh as int, m as int),
{
    if fits(d, ow, oh, ww, wh, m, false) {
        Some(calculate_position(d, ow, oh, ww, wh, m))
    } else {
        None
    }
}

/// Hidden position of a scratchpad window, `None` where it does not fit in `i32`.
pub fn hidden_target(d: Direction, ow: u32, oh: u32, ww: u32, wh: u32, m: u32) -> (r: Option<(i32, i32)>)
    ensures
        r is Some <==> fits_i32(hidden_position(d, ow as int, oh as int, ww as int, wh as int, m as int)),
        r matches Some(p) ==> (p.0 as int, p.1 as int) == hidden_position(d, ow as int, oh as int, ww as int, wh as int, m as int),
{
    if fits(d, ow, oh, ww, wh, m, true) {
        Some(calculate_hide_position(d, ow, oh, ww, wh, m))
    } else {
        None
    }
}

fn in_i32(v: i64) -> (r: bool)
    ensures
        r == (i32::MIN <= v <= i32::MAX),
{
    -2147483648i64 <= v && v <= 2147483647i64
}

fn fits(d: Direction, ow: u32, oh: u32, ww: u32, wh: u32, m: u32, hidden: bool) -> (r: bool)
    ensures
        !hidden ==> r == fits_i32(visible_position(d, ow as int, oh as int, ww as int, wh as int, m as int)),
        hidden ==> r == fits_i32(hidden_position(d, ow as int, oh as int, ww as int, wh as int, m as int)),
{
    let (ow, oh, ww, wh, m) = (ow as i64, oh as i64, ww as i64, wh as i64, m as i64);
    let cx = if ow >= ww { (ow - ww) / 2 } else { -((ww - ow) / 2) };
    let cy = if oh >= wh { (oh - wh) / 2 } else { -((wh - oh) / 2) };
    let (x, y) = if !hidden {
        match d {
            Direction::FromTop => (cx, m),
            Direction::FromBottom => (cx, oh - wh - m),
            Direction::FromLeft => (m, cy),
            Direction::FromRight => (ow - ww - m, cy),
        }
    } else {
        match d {
            Direction::FromTop => (cx, -(wh + m)),
            Direction::FromBottom => (cx, oh + m),
            Direction::FromLeft => (-(ww + m), cy),
            Direction::FromRight => (ow + m, cy),
        }
    };
    in_i32(x) && in_i32(y)
}

/// Window of the focused workspace to focus after hiding window `hidden`.
pub fn focus_after_hide(previous: Option<u64>, windows: &Vec<Window>, current_ws: u64, hidden: u64) -> (r: Option<u64>)
    ensures
        r == focus_after_hide_spec(previous, windows@, current_ws, hidden),
{
    let p = match previous {
        Some(p) => p,
        None => {
            return None;
        },
    };
    let mut i: usize = 0;
    while i < windows.len()
        invariant
            i <= windows@.len(),
            previous == Some(p),
            forall|j: int| 0 <= j < i ==> !(windows@[j].id == p && windows@[j].workspace_id == Some(current_ws)),
        decreases windows.len() - i,
    {
        if windows[i].id == p && windows[i].workspace_id == Some(current_ws) {
            return Some(p);
        }
        i += 1;
    }
    let mut others: Vec<u64> = Vec::new();
    let mut k: usize = 0;
    while k < windows.len()
        invariant
            k <= windows@.len(),
            others@ == windows_left(windows@.take(k as int), current_ws, hidden),
        decreases windows.len() - k,
    {
        assert(windows@.take(k + 1).drop_last() =~= windows@.take(k as int));
        if windows[k].id != hidden && windows[k].workspace_id == Some(current_ws) {
            others.push(windows[k].id);
        }
        k += 1;
    }
    assert(windows@.take(windows@.len() as int) =~= windows@);
    if others.len() == 0 {
        None
    } else {
        Some(others[others.len() / 2])
    }
}

/// Named scratchpad slots.
pub struct ScratchpadManager {
    niri: NiriIpc,
    slots: Vec<(String, ScratchpadState)>,
}

impl View for ScratchpadManager {
    type V = Seq<(String, ScratchpadState)>;

    closed spec fn view(&self) -> Seq<(String, ScratchpadState)> {
        self.slots@
    }
}

impl ScratchpadConfig {
    /// An identical copy.
    pub fn duplicate(&self) -> (r: ScratchpadConfig)
        ensures
            r == *self,
    {
        ScratchpadConfig {
            direction: self.direction,
            command: self.command.clone(),
            app_id: self.app_id.clone(),
            size: self.size.clone(),
            margin: self.margin,
        }
    }
}

impl ScratchpadState {
    /// An identical copy.
    pub fn duplicate(&self) -> (r: ScratchpadState)
        ensures
            r == *self,
    {
        ScratchpadState {
            window_id: self.window_id,
            is_visible: self.is_visible,
            previous_focused: self.previous_focused,
            config: self.config.duplicate(),
            is_dynamic: self.is_dynamic,
        }
    }
}

impl ScratchpadManager {
    /// A manager with no slots.
    pub fn new(niri: NiriIpc) -> (r: ScratchpadManager)
        ensures
            r@ == Seq::<(String, ScratchpadState)>::empty(),
    {
        ScratchpadManager { niri, slots: Vec::new() }
    }

    pub fn niri(&self) -> &NiriIpc {
        &self.niri
    }

    /// State of the slot called `name`.
    pub fn slot(&self, name: &str) -> (r: Option<ScratchpadState>)
        ensures
            r == slot_of(self@, name@),
    {
        let mut i: usize = 0;
        while i < self.slots.len()
            invariant
                i <= self@.len(),
                slot_of(self@.take(i as int), name@) is None,
            decreases self.slots.len() - i,
        {
            assert(self@.take(i + 1).drop_last() =~= self@.take(i as int));
            if str_eq(self.slots[i].0.as_str(), name) {
                proof {
                    lemma_slot_prefix(self@, i + 1, name@);
                }
                return Some(self.slots[i].1.duplicate());
            }
            i += 1;
        }
        assert(self@.take(self@.len() as int) =~= self@);
        None
    }

    /// Window the slot called `name` holds.
    pub fn get_window_id(&self, name: &str) -> (r: Option<u64>)
        ensures
            r == match slot_of(self@, name@) {
                Some(s) => s.window_id,
                None => None,
            },
    {
        match self.slot(name) {
            Some(s) => s.window_id,
            None => None,
        }
    }

    /// Whether the slot called `name` is shown; false when there is no such slot.
    pub fn is_visible(&self, name: &str) -> (r: bool)
        ensures
            r == match slot_of(self@, name@) {
                Some(s) => s.is_visible,
                None => false,
            },
    {
        match self.slot(name) {
            Some(s) => s.is_visible,
            None => false,
        }
    }

    /// Configuration to toggle `name` with: that of an added slot, else the
    /// one provided.
    pub fn get_config(&self, name: &str, provided_config: Option<&ScratchpadConfig>) -> (r: Option<ScratchpadConfig>)
        ensures
            r == match slot_of(self@, name@) {
                Some(s) => if s.is_dynamic {
                    Some(s.config)
                } else {
                    match provided_config {
                        Some(c) => Some(*c),
                        None => None,
                    }
                },
                None => match provided_config {
                    Some(c) => Some(*c),
                    None => None,
                },
            },
    {
        match self.slot(name) {
            Some(s) => if s.is_dynamic {
                return Some(s.config);
            },
            None => {},
        }
        match provided_config {
            Some(c) => Some(c.duplicate()),
            None => None,
        }
    }

    /// Sets the slot called `name`; no other slot changes.
    pub fn put(&mut self, name: &str, state: ScratchpadState)
        ensures
            slot_of(final(self)@, name@) == Some(state),
            forall|n: Seq<char>| n != name@ ==> slot_of(final(self)@, n) == #[trigger] slot_of(old(self)@, n),
    {
        self.remove_slot(name);
        let ghost mid = self@;
        let e = (name.to_owned(), state);
        self.slots.push(e);
        proof {
            assert forall|n: Seq<char>| n != name@ implies slot_of(self@, n) == #[trigger] slot_of(old(self)@, n) by {
                lemma_slot_push(mid, e, n);
            }
            lemma_slot_push(mid, e, name@);
        }
    }

    /// Drops the slot called `name`; no other slot changes.
    pub fn remove_slot(&mut self, name: &str)
        ensures
            slot_of(final(self)@, name@) is None,
            forall|n: Seq<char>| n != name@ ==> slot_of(final(self)@, n) == #[trigger] slot_of(old(self)@, n),
    {
        let ghost m = self@;
        let mut r: Vec<(String, ScratchpadState)> = Vec::new();
        let mut i: usize = 0;
        while i < self.slots.len()
            invariant
                i <= self@.len(),
                m == self@,
                r@ == other_slots(m.take(i as int), name@),
            decreases self.slots.len() - i,
        {
            assert(m.take(i + 1).drop_last() =~= m.take(i as int));
            if !str_eq(self.slots[i].0.as_str(), name) {
                let e = (self.slots[i].0.clone(), self.slots[i].1.duplicate());
                r.push(e);
            }
            i += 1;
        }
        assert(m.take(m.len() as int) =~= m);
        self.slots = r;
        proof {
            lemma_other_slots(m, name@, name@);
            assert forall|n: Seq<char>| n != name@ implies slot_of(self@, n) == #[trigger] slot_of(m, n) by {
                lemma_other_slots(m, name@, n);
            }
        }
    }

    /// First phase of a toggle of `name`: the window to use, given the live
    /// windows and the configuration the slot would be made with.
    pub fn window_source(&self, name: &str, config: &ScratchpadConfig, windows: &Vec<Window>) -> (r: WindowSource)
        ensures
            r == source_for(slot_of(self@, name@), config.app_id@, windows@),
    {
        let slot = self.slot(name);
        if let Some(s) = &slot {
            if let Some(id) = s.window_id {
                if crate::niri::find_window_index(windows, id).is_some() {
                    return WindowSource::Bound(id);
                }
            }
            if s.is_dynamic {
                return WindowSource::Gone;
            }
        }
        let ghost sl = slot_of(self@, name@);
        assert(!(sl is Some && sl->Some_0.window_id is Some && window_exists(windows@, sl->Some_0.window_id->Some_0)));
        assert(!(sl is Some && sl->Some_0.is_dynamic));
        let mut i: usize = 0;
        while i < windows.len()
            invariant
                i <= windows@.len(),
                sl == slot_of(self@, name@),
                !(sl is Some && sl->Some_0.window_id is Some && window_exists(windows@, sl->Some_0.window_id->Some_0)),
                !(sl is Some && sl->Some_0.is_dynamic),
                forall|j: int| 0 <= j < i ==> !(windows@[j].app_id is Some && windows@[j].app_id->Some_0@ == config.app_id@),
            decreases windows.len() - i,
        {
            let hit = match &windows[i].app_id {
                Some(a) => str_eq(a.as_str(), config.app_id.as_str()),
                None => false,
            };
            if hit {
                proof {
                    let app = config.app_id@;
                    let ws = windows@;
                    let k = choose|k: int| 0 <= k < ws.len() && ws[k].app_id is Some && ws[k].app_id->Some_0@ == app && forall|j: int| 0 <= j < k ==> !(ws[j].app_id is Some && ws[j].app_id->Some_0@ == app);
                    assert(k == i as int) by {
                        if k > i {
                            assert(ws[i as int].app_id is Some && ws[i as int].app_id->Some_0@ == app);
                        }
                    }
                }
                return WindowSource::Adopt(windows[i].id);
            }
            i += 1;
        }
        WindowSource::Launch
    }

    /// Binds `window_id` to the slot `name`, hidden, after its setup; the
    /// focus recorded before keeps.
    pub fn bind(&mut self, name: &str, window_id: u64, config: ScratchpadConfig, is_dynamic: bool)
        ensures
            slot_of(final(self)@, name@) == Some(
                ScratchpadState {
                    window_id: Some(window_id),
                    is_visible: false,
                    previous_focused: match slot_of(old(self)@, name@) {
                        Some(s) => s.previous_focused,
                        None => None,
                    },
                    config,
                    is_dynamic,
                },
            ),
            forall|n: Seq<char>| n != name@ ==> slot_of(final(self)@, n) == #[trigger] slot_of(old(self)@, n),
    {
        let previous_focused = match self.slot(name) {
            Some(s) => s.previous_focused,
            None => None,
        };
        self.put(name, ScratchpadState { window_id: Some(window_id), is_visible: false, previous_focused, config, is_dynamic });
    }

    /// Second phase of a toggle of `name`: the visibility to reach, given
    /// whether its window is on the focused workspace. When it will be shown,
    /// the currently focused window is recorded. `None` when the slot holds no window.
    pub fn plan_visibility(&mut self, name: &str, in_current_ws: bool, focused_window: Option<u64>) -> (r: Option<bool>)
        ensures
            match slot_of(old(self)@, name@) {
                Some(s) => if s.window_id is Some {
                    let next = next_visibility(s.is_visible, in_current_ws);
                    &&& r == Some(next)
                    &&& slot_of(final(self)@, name@) == Some(
                        if next {
                            ScratchpadState { previous_focused: focused_window, ..s }
                        } else {
                            s
                        },
                    )
                } else {
                    r is None && final(self)@ == old(self)@
                },
                None => r is None && final(self)@ == old(self)@,
            },
            forall|n: Seq<char>| n != name@ ==> slot_of(final(self)@, n) == #[trigger] slot_of(old(self)@, n),
    {
        let s = match self.slot(name) {
            Some(s) => s,
            None => {
                return None;
            },
        };
        if s.window_id.is_none() {
            return None;
        }
        let next = next_visible(s.is_visible, in_current_ws);
        if next {
            let updated = ScratchpadState { previous_focused: focused_window, ..s };
            self.put(name, updated);
        }
        Some(next)
    }

    /// Last phase of a toggle of `name`: records the visibility reached.
    pub fn set_visible(&mut self, name: &str, visible: bool)
        ensures
            match slot_of(old(self)@, name@) {
                Some(s) => slot_of(final(self)@, name@) == Some(ScratchpadState { is_visible: visible, ..s }),
                None => final(self)@ == old(self)@,
            },
            forall|n: Seq<char>| n != name@ ==> slot_of(final(self)@, n) == #[trigger] slot_of(old(self)@, n),
    {
        match self.slot(name) {
            Some(s) => {
                self.put(name, ScratchpadState { is_visible: visible, ..s });
            },
            None => {},
        }
    }

    /// Checks before adding the focused window as scratchpad `name`; gives
    /// the window's application id.
    pub fn check_add(&self, name: &str, focused: Option<&Window>, windows: &Vec<Window>) -> (r: Result<String, ScratchpadError>)
        ensures
            match focused {
                None => r matches Err(ScratchpadError::NoFocusedWindow),
                Some(w) => match w.app_id {
                    None => r matches Err(ScratchpadError::NoAppId),
                    Some(a) => {
                        let taken = match slot_of(self@, name@) {
                            Some(s) => s.window_id is Some && window_exists(windows@, s.window_id->Some_0),
                            None => false,
                        };
                        if taken {
                            r matches Err(ScratchpadError::AlreadyExists(n)) && n@ == name@
                        } else {
                            r matches Ok(x) && x@ == a@
                        }
                    },
                },
            },
    {
        let w = match focused {
            Some(w) => w,
            None => {
                return Err(ScratchpadError::NoFocusedWindow);
            },
        };
        let a = match &w.app_id {
            Some(a) => a,
            None => {
                return Err(ScratchpadError::NoAppId);
            },
        };
        match self.slot(name) {
            Some(s) => match s.window_id {
                Some(id) => {
                    if crate::niri::find_window_index(windows, id).is_some() {
                        return Err(ScratchpadError::AlreadyExists(name.to_owned()));
                    }
                },
                None => {},
            },
            None => {},
        }
        Ok(a.clone())
    }
}

/// Shows `s` is the first slot named `k` once the prefix of length `j` has it.
pub proof fn lemma_slot_prefix<V>(m: Seq<(String, V)>, j: int, k: Seq<char>)
    requires
        0 <= j <= m.len(),
        slot_of(m.take(j), k) is Some,
    ensures
        slot_of(m, k) == slot_of(m.take(j), k),
    decreases m.len() - j,
{
    if j < m.len() {
        assert(m.take(j + 1).drop_last() =~= m.take(j));
        lemma_slot_prefix::<V>(m, j + 1, k);
    } else {
        assert(m.take(j) =~= m);
    }
}

/// Placeholder command of a scratchpad added from window `window_id`.
pub open spec fn added_command_text(window_id: u64) -> Seq<char> {
    seq!['#', ' ', 'w', 'i', 'n', 'd', 'o', 'w', ' '] + crate::text::decimal(window_id as nat)
}

/// Configuration of a scratchpad added from the focused window: its
/// application id, the given direction, the default size and margin, and a
/// placeholder command.
pub fn added_config(direction: Direction, app_id: String, defaults: &ScratchpadDefaults, window_id: u32) -> (r: ScratchpadConfig)
    ensures
        r.direction == direction,
        r.app_id == app_id,
        r.size == defaults.default_size,
        r.margin == defaults.default_margin,
        r.command@ == added_command_text(window_id as u64),
{
    let mut command = String::new();
    push_char(&mut command, '#');
    push_char(&mut command, ' ');
    push_char(&mut command, 'w');
    push_char(&mut command, 'i');
    push_char(&mut command, 'n');
    push_char(&mut command, 'd');
    push_char(&mut command, 'o');
    push_char(&mut command, 'w');
    push_char(&mut command, ' ');
    push_decimal(&mut command, window_id);
    assert(command@ =~= added_command_text(window_id as u64));
    ScratchpadConfig { direction, command, app_id, size: defaults.default_size.clone(), margin: defaults.default_margin }
}

/// The window `id` stands on the focused workspace `focused_ws`.
pub open spec fn on_focused_workspace(ws: Seq<Window>, id: u64, focused_ws: Option<u64>) -> bool {
    match (crate::niri::first_window_with_id(ws, id), focused_ws) {
        (Some(i), Some(f)) => ws[i].workspace_id == Some(f),
        _ => false,
    }
}

pub fn in_current_workspace(windows: &Vec<Window>, id: u64, focused_ws: Option<u64>) -> (r: bool)
    ensures
        r == on_focused_workspace(windows@, id, focused_ws),
{
    match (crate::niri::find_window_index(windows, id), focused_ws) {
        (Some(i), Some(f)) => windows[i].workspace_id == Some(f),
        _ => false,
    }
}

/// Setup of an adopted window: float it and give it its size.
pub fn setup_actions(id: u64, width: u32, height: u32) -> (r: Vec<Action>)
    ensures
        r@ == seq![
            Action::MoveWindowToFloating { id },
            Action::SetWindowWidth { id, width },
            Action::SetWindowHeight { id, height },
        ],
{
    let mut r: Vec<Action> = Vec::new();
    r.push(Action::MoveWindowToFloating { id });
    r.push(Action::SetWindowWidth { id, width });
    r.push(Action::SetWindowHeight { id, height });
    assert(r@ =~= seq![
        Action::MoveWindowToFloating { id },
        Action::SetWindowWidth { id, width },
        Action::SetWindowHeight { id, height },
    ]);
    r
}

/// Moving a shown scratchpad from `(cx, cy)` to its visible position and
/// focusing it.
pub fn show_actions(id: u64, cx: i32, cy: i32, target: (i32, i32)) -> (r: Vec<Action>)
    ensures
        r@ == seq![
            Action::MoveFloatingWindow { id, dx: (target.0 - cx) as i64, dy: (target.1 - cy) as i64 },
            Action::FocusWindow { id },
        ],
{
    let (dx, dy) = crate::geometry::move_delta(cx, cy, target.0, target.1);
    let mut r: Vec<Action> = Vec::new();
    r.push(Action::MoveFloatingWindow { id, dx, dy });
    r.push(Action::FocusWindow { id });
    assert(r@ =~= seq![
        Action::MoveFloatingWindow { id, dx: (target.0 - cx) as i64, dy: (target.1 - cy) as i64 },
        Action::FocusWindow { id },
    ]);
    r
}

/// Hiding a scratchpad from `(cx, cy)`: move it off screen, park it on a
/// workspace when one is configured, and give focus back.
pub open spec fn hide_plan(id: u64, cx: i32, cy: i32, target: (i32, i32), park: Option<WorkspaceReference>, focus: Option<u64>) -> Seq<Action> {
    let a = seq![Action::MoveFloatingWindow { id, dx: (target.0 - cx) as i64, dy: (target.1 - cy) as i64 }];
    let b = match park {
        Some(p) => a.push(Action::MoveWindowToWorkspace { window_id: id, reference: p, focus: false }),
        None => a,
    };
    match focus {
        Some(f) => b.push(Action::FocusWindow { id: f }),
        None => b,
    }
}

pub fn hide_actions(id: u64, cx: i32, cy: i32, target: (i32, i32), park: Option<WorkspaceReference>, focus: Option<u64>) -> (r: Vec<Action>)
    ensures
        r@ == hide_plan(id, cx, cy, target, park, focus),
{
    let ghost p = park;
    let (dx, dy) = crate::geometry::move_delta(cx, cy, target.0, target.1);
    let mut r: Vec<Action> = Vec::new();
    r.push(Action::MoveFloatingWindow { id, dx, dy });
    match park {
        Some(reference) => {
            r.push(Action::MoveWindowToWorkspace { window_id: id, reference, focus: false });
        },
        None => {},
    }
    match focus {
        Some(f) => {
            r.push(Action::FocusWindow { id: f });
        },
        None => {},
    }
    assert(r@ =~= hide_plan(id, cx, cy, target, p, focus));
    r
}

/// What a toggle does once its window is known.
pub enum TogglePlan {
    /// Bring the window over (`bring`), wait, give it `(width, height)`, then
    /// move it from wherever it is to `target` with `show_actions`.
    Show { id: u64, bring: Vec<Action>, width: u32, height: u32, target: (i32, i32) },
    /// Move it off screen, park it, give focus back.
    Hide { actions: Vec<Action> },
}

impl ScratchpadManager {
    /// Second and third phase of a toggle of `name`, whose window is bound:
    /// the visibility to reach and how. Showing records the focused window;
    /// hiding leaves the slot as it is.
    pub fn plan_toggle(
        &mut self,
        name: &str,
        config: &ScratchpadConfig,
        windows: &Vec<Window>,
        focused_ws: Option<&crate::niri::Workspace>,
        focused_window: Option<u64>,
        output: (u32, u32),
        park: Option<WorkspaceReference>,
    ) -> (r: Result<TogglePlan, ScratchpadError>)
        ensures
            forall|n: Seq<char>| n != name@ ==> slot_of(final(self)@, n) == #[trigger] slot_of(old(self)@, n),
            match slot_of(old(self)@, name@) {
                Some(s) if s.window_id is Some => {
                    let id = s.window_id->Some_0;
                    let fws = match focused_ws {
                        Some(w) => Some(w.id),
                        None => None,
                    };
                    let next = next_visibility(s.is_visible, on_focused_workspace(windows@, id, fws));
                    match scratchpad_size_spec(config.size@, output.0, output.1) {
                        None => r matches Err(ScratchpadError::InvalidSize(z)) && z@ == config.size@,
                        Some((ww, wh)) => if next {
                            let v = visible_position(config.direction, output.0 as int, output.1 as int, ww as int, wh as int, config.margin as int);
                            if fits_i32(v) {
                                &&& slot_of(final(self)@, name@) == Some(ScratchpadState { previous_focused: focused_window, ..s })
                                &&& r matches Ok(TogglePlan::Show { id: i, bring, width, height, target })
                                &&& i == id && width == ww && height == wh
                                &&& target.0 as int == v.0 && target.1 as int == v.1
                                &&& match focused_ws {
                                    Some(w) => bring@.len() == 1 && (bring@[0] matches Action::MoveWindowToWorkspace { window_id, reference, focus }
                                        && window_id == id && !focus && crate::actions::reference_for(crate::rules::workspace_key(*w), reference)),
                                    None => bring@.len() == 0,
                                }
                            } else {
                                r matches Err(ScratchpadError::OutOfRange(n)) && n@ == name@
                            }
                        } else {
                            &&& slot_of(final(self)@, name@) == Some(s)
                            &&& match crate::niri::first_window_with_id(windows@, id) {
                                Some(i) => match crate::niri::floating_geometry(windows@[i]) {
                                    Some(g) => {
                                        let h = hidden_position(config.direction, output.0 as int, output.1 as int, g.2 as int, g.3 as int, config.margin as int);
                                        if fits_i32(h) {
                                            r matches Ok(TogglePlan::Hide { actions }) && actions@ == hide_plan(
                                                id, g.0, g.1, (h.0 as i32, h.1 as i32), park,
                                                match fws {
                                                    Some(f) => focus_after_hide_spec(s.previous_focused, windows@, f, id),
                                                    None => None,
                                                },
                                            )
                                        } else {
                                            r matches Err(ScratchpadError::OutOfRange(n)) && n@ == name@
                                        }
                                    },
                                    None => r matches Err(ScratchpadError::NoPosition(n)) && n@ == name@,
                                },
                                None => r matches Err(ScratchpadError::NoPosition(n)) && n@ == name@,
                            }
                        },
                    }
                },
                _ => (r matches Err(ScratchpadError::NotFound(n)) && n@ == name@) && final(self)@ == old(self)@,
            },
    {
        let s = match self.slot(name) {
            Some(s) => s,
            None => {
                return Err(ScratchpadError::NotFound(name.to_owned()));
            },
        };
        let id = match s.window_id {
            Some(id) => id,
            None => {
                return Err(ScratchpadError::NotFound(name.to_owned()));
            },
        };
        let fws = match focused_ws {
            Some(w) => Some(w.id),
            None => None,
        };
        let next = next_visible(s.is_visible, in_current_workspace(windows, id, fws));
        let (ww, wh) = match scratchpad_size(config, output.0, output.1) {
            Some(x) => x,
            None => {
                return Err(ScratchpadError::InvalidSize(config.size.clone()));
            },
        };
        if next {
            let target = match visible_target(config.direction, output.0, output.1, ww, wh, config.margin) {
                Some(t) => t,
                None => {
                    return Err(ScratchpadError::OutOfRange(name.to_owned()));
                },
            };
            let mut bring: Vec<Action> = Vec::new();
            if let Some(w) = focused_ws {
                let key = crate::rules::workspace_key_of(w);
                bring.push(Action::MoveWindowToWorkspace { window_id: id, reference: crate::actions::workspace_reference(key.as_str()), focus: false });
            }
            self.put(name, ScratchpadState { previous_focused: focused_window, ..s });
            Ok(TogglePlan::Show { id, bring, width: ww, height: wh, target })
        } else {
            let g = match NiriIpc::get_window_position(windows, id) {
                Some(g) => g,
                None => {
                    return Err(ScratchpadError::NoPosition(name.to_owned()));
                },
            };
            let target = match hidden_target(config.direction, output.0, output.1, g.2, g.3, config.margin) {
                Some(t) => t,
                None => {
                    return Err(ScratchpadError::OutOfRange(name.to_owned()));
                },
            };
            let back = match fws {
                Some(f) => focus_after_hide(s.previous_focused, windows, f, id),
                None => None,
            };
            Ok(TogglePlan::Hide { actions: hide_actions(id, g.0, g.1, target, park, back) })
        }
    }
}

} // verus!
