//! Reordering the tiled columns of a workspace by per-application weight:
//! the target permutation, the simulation of a column move, and the greedy
//! choice of moves that reaches the target.

use vstd::prelude::*;
use crate::niri::{Window, Workspace};
use crate::text::{chars_of, contains_chars, contains_seq, parse_u8, parse_u8_spec, str_eq};

verus! {

/// A tiled window of the focused workspace, as the sorter sees it.
#[derive(Clone, Copy, Debug, PartialEq, Eq, Structural)]
pub struct OrderEntry {
    pub id: u64,
    /// Current column, 1-based.
    pub column: usize,
    pub weight: u32,
}

/// One move of a window's column from `from` to `to` (both 1-based).
#[derive(Clone, Copy, Debug, PartialEq, Eq, Structural)]
pub struct ColumnMove {
    /// Position of the window in the list the plan was made for.
    pub index: usize,
    pub window_id: u64,
    pub from: usize,
    pub to: usize,
}

/// Window `j` sorts before window `i`: heavier first, then by current column,
/// then by position in the list.
pub open spec fn sorts_before(ws: Seq<OrderEntry>, j: int, i: int) -> bool {
    ws[j].weight > ws[i].weight || (ws[j].weight == ws[i].weight && (ws[j].column < ws[i].column || (
    ws[j].column == ws[i].column && j < i)))
}

/// Number of windows among the first `k` that sort before window `i`.
pub open spec fn count_before(ws: Seq<OrderEntry>, i: int, k: int) -> nat
    decreases k,
{
    if k <= 0 {
        0
    } else {
        count_before(ws, i, k - 1) + if sorts_before(ws, k - 1, i) {
            1nat
        } else {
            0nat
        }
    }
}

/// Column that window `i` is to stand in.
pub open spec fn target_column(ws: Seq<OrderEntry>, i: int) -> int {
    count_before(ws, i, ws.len() as int) + 1int
}

/// Columns after the window at `idx` moves to column `to`: the windows it
/// passes shift by one toward where it came from.
pub open spec fn shifted(cols: Seq<usize>, idx: int, to: usize) -> Seq<usize> {
    let from = cols[idx];
    Seq::new(
        cols.len(),
        |k: int|
            if k == idx {
                to
            } else if from < to && from < cols[k] && cols[k] <= to {
                (cols[k] - 1) as usize
            } else if from > to && to <= cols[k] && cols[k] < from {
                (cols[k] + 1) as usize
            } else {
                cols[k]
            },
    )
}

/// Number of positions below `k` where `a` and `b` agree.
pub open spec fn count_equal(a: Seq<usize>, b: Seq<usize>, k: int) -> nat
    decreases k,
{
    if k <= 0 {
        0
    } else {
        count_equal(a, b, k - 1) + if a[k - 1] == b[k - 1] {
            1nat
        } else {
            0nat
        }
    }
}

/// How many windows stand in their target column after moving window `idx` there.
pub open spec fn move_score(cols: Seq<usize>, target: Seq<usize>, idx: int) -> nat {
    count_equal(shifted(cols, idx, target[idx]), target, cols.len() as int)
}

pub open spec fn distance(a: usize, b: usize) -> nat {
    if a >= b {
        (a - b) as nat
    } else {
        (b - a) as nat
    }
}

/// Moving window `idx` to its target is a best move: no other misplaced window
/// puts more windows in place, nor as many over a shorter distance.
pub open spec fn greedy_choice(cols: Seq<usize>, target: Seq<usize>, idx: int) -> bool {
    &&& 0 <= idx < cols.len()
    &&& cols[idx] != target[idx]
    &&& forall|j: int|
        0 <= j < cols.len() && cols[j] != target[j] ==> move_score(cols, target, j) < move_score(
            cols,
            target,
            idx,
        ) || (#[trigger] move_score(cols, target, j) == move_score(cols, target, idx) && distance(
            cols[j],
            target[j],
        ) >= distance(cols[idx], target[idx]))
}

/// Columns after replaying `ms` from `cols`.
pub open spec fn replay(cols: Seq<usize>, ms: Seq<ColumnMove>) -> Seq<usize>
    decreases ms.len(),
{
    if ms.len() == 0 {
        cols
    } else {
        let prev = replay(cols, ms.drop_last());
        shifted(prev, ms.last().index as int, ms.last().to)
    }
}

/// Move `k` of `ms` is a best move of window `ms[k].index` from the columns
/// that the moves before it leave, to that window's target column.
pub open spec fn planned_step(ws: Seq<OrderEntry>, ms: Seq<ColumnMove>, k: int) -> bool {
    let before = replay(columns_of(ws), ms.take(k));
    let m = ms[k];
    &&& m.index < ws.len()
    &&& m.window_id == ws[m.index as int].id
    &&& m.from == before[m.index as int]
    &&& m.to == targets_of(ws)[m.index as int]
    &&& greedy_choice(before, targets_of(ws), m.index as int)
}

pub open spec fn columns_of(ws: Seq<OrderEntry>) -> Seq<usize> {
    Seq::new(ws.len(), |i: int| ws[i].column)
}

pub open spec fn targets_of(ws: Seq<OrderEntry>) -> Seq<usize> {
    Seq::new(ws.len(), |i: int| target_column(ws, i) as usize)
}

/// Most moves one pass makes.
pub const MAX_MOVES: usize = 100;

proof fn lemma_count_before_le(ws: Seq<OrderEntry>, i: int, k: int)
    ensures
        count_before(ws, i, k) <= if k < 0 {
            0
        } else {
            k
        },
    decreases k,
{
    if k > 0 {
        lemma_count_before_le(ws, i, k - 1);
    }
}

proof fn lemma_count_equal_le(a: Seq<usize>, b: Seq<usize>, k: int)
    ensures
        count_equal(a, b, k) <= if k < 0 {
            0
        } else {
            k
        },
    decreases k,
{
    if k > 0 {
        lemma_count_equal_le(a, b, k - 1);
    }
}

/// Target column of every window.
pub fn target_columns(ws: &Vec<OrderEntry>) -> (r: Vec<usize>)
    requires
        ws@.len() < usize::MAX,
    ensures
        r@ == targets_of(ws@),
{
    let n = ws.len();
    let mut r: Vec<usize> = Vec::new();
    let mut i: usize = 0;
    while i < n
        invariant
            n == ws@.len(),
            n < usize::MAX,
            i <= n,
            r@.len() == i,
            forall|q: int| 0 <= q < i ==> r@[q] == target_column(ws@, q) as usize,
        decreases n - i,
    {
        let mut c: usize = 0;
        let mut j: usize = 0;
        while j < n
            invariant
                n == ws@.len(),
                n < usize::MAX,
                i < n,
                j <= n,
                c == count_before(ws@, i as int, j as int),
            decreases n - j,
        {
            proof {
                lemma_count_before_le(ws@, i as int, j as int);
            }
            let a = ws[j];
            let b = ws[i];
            if a.weight > b.weight || (a.weight == b.weight && (a.column < b.column || (a.column
                == b.column && j < i))) {
                c = c + 1;
            }
            j += 1;
        }
        proof {
            lemma_count_before_le(ws@, i as int, n as int);
        }
        r.push(c + 1);
        i += 1;
    }
    assert(r@ =~= targets_of(ws@));
    r
}

/// Columns after moving the window at `idx` to column `to`.
pub fn apply_move(cols: &Vec<usize>, idx: usize, to: usize) -> (r: Vec<usize>)
    requires
        idx < cols@.len(),
    ensures
        r@ == shifted(cols@, idx as int, to),
{
    let from = cols[idx];
    let mut r: Vec<usize> = Vec::new();
    let mut k: usize = 0;
    while k < cols.len()
        invariant
            k <= cols@.len(),
            idx < cols@.len(),
            from == cols@[idx as int],
            r@ =~= shifted(cols@, idx as int, to).subrange(0, k as int),
        decreases cols.len() - k,
    {
        let c = cols[k];
        let v = if k == idx {
            to
        } else if from < to && from < c && c <= to {
            c - 1
        } else if from > to && to <= c && c < from {
            c + 1
        } else {
            c
        };
        r.push(v);
        k += 1;
    }
    r
}

/// Number of positions where `a` and `b` agree.
pub fn count_correct(a: &Vec<usize>, b: &Vec<usize>) -> (r: usize)
    requires
        a@.len() == b@.len(),
    ensures
        r as nat == count_equal(a@, b@, a@.len() as int),
{
    let mut c: usize = 0;
    let mut k: usize = 0;
    while k < a.len()
        invariant
            a@.len() == b@.len(),
            k <= a@.len(),
            c as nat == count_equal(a@, b@, k as int),
        decreases a.len() - k,
    {
        proof {
            lemma_count_equal_le(a@, b@, k as int);
        }
        if a[k] == b[k] {
            c = c + 1;
        }
        k += 1;
    }
    c
}

fn abs_diff(a: usize, b: usize) -> (r: usize)
    ensures
        r as nat == distance(a, b),
{
    if a >= b {
        a - b
    } else {
        b - a
    }
}

/// Best move from `cols` toward `target`, `None` when every window is in place.
/// Among equally good moves that would finish the pass, the focused window moves.
fn choose_move(ws: &Vec<OrderEntry>, cols: &Vec<usize>, target: &Vec<usize>, focused: Option<u64>) -> (r: Option<usize>)
    requires
        cols@.len() == ws@.len(),
        target@.len() == ws@.len(),
    ensures
        r is None <==> cols@ == target@,
        r matches Some(i) ==> greedy_choice(cols@, target@, i as int),
{
    let n = cols.len();
    let mut best: Option<usize> = None;
    let mut best_score: usize = 0;
    let mut best_dist: usize = 0;
    let mut best_focused = false;
    let mut i: usize = 0;
    while i < n
        invariant
            n == cols@.len(),
            n == target@.len(),
            n == ws@.len(),
            i <= n,
            best is None ==> forall|q: int| 0 <= q < i ==> cols@[q] == target@[q],
            best matches Some(b) ==> {
                &&& b < i
                &&& cols@[b as int] != target@[b as int]
                &&& best_score as nat == move_score(cols@, target@, b as int)
                &&& best_dist as nat == distance(cols@[b as int], target@[b as int])
                &&& forall|j: int|
                    0 <= j < i && cols@[j] != target@[j] ==> move_score(cols@, target@, j)
                        < best_score || (#[trigger] move_score(cols@, target@, j) == best_score
                        && distance(cols@[j], target@[j]) >= best_dist)
            },
        decreases n - i,
    {
        if cols[i] != target[i] {
            let next = apply_move(cols, i, target[i]);
            let score = count_correct(&next, target);
            let dist = abs_diff(cols[i], target[i]);
            let is_focused = match focused {
                Some(f) => f == ws[i].id,
                None => false,
            };
            let completes = score == n;
            let better = match best {
                None => true,
                Some(_) => score > best_score || (score == best_score && (dist < best_dist || (dist
                    == best_dist && completes && is_focused && !best_focused))),
            };
            if better {
                best = Some(i);
                best_score = score;
                best_dist = dist;
                best_focused = is_focused;
            }
        }
        i += 1;
    }
    proof {
        if best is None {
            assert(cols@ =~= target@);
        }
    }
    best
}

/// Moves that bring the windows of `ws` into weight order, at most
/// `MAX_MOVES` of them, each a best move from the columns that the moves
/// before it leave.
pub fn plan_moves(ws: &Vec<OrderEntry>, focused: Option<u64>) -> (r: Vec<ColumnMove>)
    requires
        ws@.len() < usize::MAX,
    ensures
        r@.len() <= MAX_MOVES,
        forall|k: int| 0 <= k < r@.len() ==> #[trigger] planned_step(ws@, r@, k),
        r@.len() < MAX_MOVES ==> replay(columns_of(ws@), r@) == targets_of(ws@),
        columns_of(ws@) == targets_of(ws@) ==> r@.len() == 0,
{
    let n = ws.len();
    let target = target_columns(ws);
    let mut cols: Vec<usize> = Vec::new();
    let mut k: usize = 0;
    while k < n
        invariant
            n == ws@.len(),
            k <= n,
            cols@ =~= columns_of(ws@).subrange(0, k as int),
        decreases n - k,
    {
        cols.push(ws[k].column);
        k += 1;
    }
    let ghost start = cols@;
    assert(start =~= columns_of(ws@));
    let mut moves: Vec<ColumnMove> = Vec::new();
    let mut done = false;
    while !done && moves.len() < MAX_MOVES
        invariant
            n == ws@.len(),
            target@ == targets_of(ws@),
            start == columns_of(ws@),
            cols@.len() == n,
            moves@.len() <= MAX_MOVES,
            cols@ == replay(start, moves@),
            done ==> cols@ == target@,
            start == target@ ==> moves@.len() == 0,
            forall|q: int| 0 <= q < moves@.len() ==> #[trigger] planned_step(ws@, moves@, q),
        decreases MAX_MOVES - moves@.len() + if done {
            0int
        } else {
            1int
        },
    {
        match choose_move(ws, &cols, &target, focused) {
            None => {
                done = true;
            },
            Some(i) => {
                let m = ColumnMove { index: i, window_id: ws[i].id, from: cols[i], to: target[i] };
                let ghost old_moves = moves@;
                let ghost old_cols = cols@;
                let next = apply_move(&cols, i, target[i]);
                moves.push(m);
                proof {
                    assert(moves@.drop_last() =~= old_moves);
                    assert(moves@.take(old_moves.len() as int) =~= old_moves);
                    assert forall|q: int| 0 <= q < old_moves.len() implies moves@.take(q) =~= old_moves.take(q) by {}
                    assert forall|q: int| 0 <= q < moves@.len() implies #[trigger] planned_step(ws@, moves@, q) by {
                        if q < old_moves.len() {
                            assert(moves@.take(q) =~= old_moves.take(q));
                            assert(moves@[q] == old_moves[q]);
                            assert(planned_step(ws@, old_moves, q));
                        } else {
                            assert(q == old_moves.len());
                            assert(moves@[q] == m);
                            assert(replay(start, moves@.take(q)) == old_cols);
                            assert(m.from == old_cols[i as int]);
                            assert(greedy_choice(old_cols, target@, i as int));
                        }
                    }
                }
                cols = next;
            },
        }
    }
    assert(moves@.take(moves@.len() as int) =~= moves@);
    moves
}

/// Two windows of equal weight keep their relative order: the one that stands
/// earlier in the list, in a column not to the right of the other's, is given
/// the smaller target column.
pub proof fn lemma_equal_weight_order_kept(ws: Seq<OrderEntry>, i: int, j: int)
    requires
        0 <= i < j < ws.len(),
        ws[i].weight == ws[j].weight,
        ws[i].column <= ws[j].column,
    ensures
        target_column(ws, i) < target_column(ws, j),
{
    lemma_count_before_mono(ws, i, j, ws.len() as int);
}

proof fn lemma_count_before_mono(ws: Seq<OrderEntry>, i: int, j: int, k: int)
    requires
        0 <= i < j < ws.len(),
        ws[i].weight == ws[j].weight,
        ws[i].column <= ws[j].column,
        k <= ws.len(),
    ensures
        count_before(ws, j, k) >= count_before(ws, i, k) + if i < k {
            1int
        } else {
            0int
        },
    decreases k,
{
    if k > 0 {
        lemma_count_before_mono(ws, i, j, k - 1);
    }
}

/// Number of windows among the first `k` whose column is left of window `i`'s.
pub open spec fn count_left(ws: Seq<OrderEntry>, i: int, k: int) -> nat
    decreases k,
{
    if k <= 0 {
        0
    } else {
        count_left(ws, i, k - 1) + if ws[k - 1].column < ws[i].column {
            1nat
        } else {
            0nat
        }
    }
}

/// With all weights equal, windows standing in columns 1 to n, one window to
/// a column, are in their target columns, so no move is planned.
pub proof fn lemma_equal_weights_in_place(ws: Seq<OrderEntry>, w: u32)
    requires
        forall|i: int| 0 <= i < ws.len() ==> #[trigger] ws[i].weight == w,
        forall|i: int, j: int| 0 <= i < ws.len() && 0 <= j < ws.len() && i != j ==> ws[i].column != ws[j].column,
        forall|i: int| 0 <= i < ws.len() ==> #[trigger] ws[i].column == count_left(ws, i, ws.len() as int) + 1,
        ws.len() < usize::MAX,
    ensures
        columns_of(ws) == targets_of(ws),
{
    assert forall|i: int| 0 <= i < ws.len() implies #[trigger] targets_of(ws)[i] == columns_of(ws)[i] by {
        lemma_count_before_in_place(ws, w, i, ws.len() as int);
    }
    assert(columns_of(ws) =~= targets_of(ws));
}

proof fn lemma_count_before_in_place(ws: Seq<OrderEntry>, w: u32, i: int, k: int)
    requires
        forall|q: int| 0 <= q < ws.len() ==> #[trigger] ws[q].weight == w,
        forall|p: int, q: int| 0 <= p < ws.len() && 0 <= q < ws.len() && p != q ==> ws[p].column != ws[q].column,
        0 <= i < ws.len(),
        0 <= k <= ws.len(),
    ensures
        count_before(ws, i, k) == count_left(ws, i, k),
    decreases k,
{
    if k > 0 {
        lemma_count_before_in_place(ws, w, i, k - 1);
        assert(ws[k - 1].weight == ws[i].weight);
    }
}

/// Weights per application id, in the order the configuration lists them.
#[derive(Clone, Debug)]
pub struct WindowOrderConfig {
    pub weights: Vec<(String, u32)>,
    /// Weight of a window that no entry names.
    pub default_weight: u32,
    /// Workspaces (names or idx numbers) that event-driven passes apply to;
    /// empty for all.
    pub workspaces: Vec<String>,
    /// Layout and window events start a pass.
    pub enable_event_listener: bool,
}

/// Weight of the first entry whose key is exactly `a`.
pub open spec fn exact_weight(e: Seq<(String, u32)>, a: Seq<char>) -> Option<u32>
    decreases e.len(),
{
    if e.len() == 0 {
        None
    } else if e[0].0@ == a {
        Some(e[0].1)
    } else {
        exact_weight(e.drop_first(), a)
    }
}

/// Weight of the first entry whose key contains `a` or is contained in it.
pub open spec fn loose_weight(e: Seq<(String, u32)>, a: Seq<char>) -> Option<u32>
    decreases e.len(),
{
    if e.len() == 0 {
        None
    } else if contains_seq(a, e[0].0@) || contains_seq(e[0].0@, a) {
        Some(e[0].1)
    } else {
        loose_weight(e.drop_first(), a)
    }
}

/// Weight of a window with application id `app`.
pub open spec fn weight_for(e: Seq<(String, u32)>, default: u32, app: Option<Seq<char>>) -> u32 {
    match app {
        None => default,
        Some(a) => match exact_weight(e, a) {
            Some(w) => w,
            None => match loose_weight(e, a) {
                Some(w) => w,
                None => default,
            },
        },
    }
}

pub open spec fn opt_view(o: Option<String>) -> Option<Seq<char>> {
    match o {
        Some(s) => Some(s@),
        None => None,
    }
}

/// A configured workspace `f` names workspace `name`: the same text, or the
/// same idx number.
pub open spec fn filter_names(f: Seq<char>, name: Seq<char>) -> bool {
    f == name || (parse_u8_spec(f) is Some && parse_u8_spec(f) == parse_u8_spec(name))
}

pub open spec fn workspace_selected(filters: Seq<String>, name: Seq<char>) -> bool {
    filters.len() == 0 || exists|i: int| 0 <= i < filters.len() && #[trigger] filter_names(filters[i]@, name)
}

/// A configured workspace `f` is workspace `ws`: its exact name, or its idx.
pub open spec fn filter_is(f: Seq<char>, ws: Workspace) -> bool {
    (ws.name is Some && f == ws.name->Some_0@) || parse_u8_spec(f) == Some(ws.idx)
}

pub open spec fn workspace_applies(filters: Seq<String>, ws: Workspace) -> bool {
    filters.len() == 0 || exists|i: int| 0 <= i < filters.len() && #[trigger] filter_is(filters[i]@, ws)
}

/// Column of a window, column 1 when its layout does not say.
pub open spec fn column_of(w: Window) -> usize {
    match w.layout {
        Some(l) => match l.pos_in_scrolling_layout {
            Some(p) => p.0,
            None => 1,
        },
        None => 1,
    }
}

pub open spec fn tiled_in(w: Window, workspace_id: u64) -> bool {
    w.workspace_id == Some(workspace_id) && !w.floating
}

/// The tiled windows of workspace `workspace_id`, in snapshot order, with their
/// columns and weights.
pub open spec fn entries_of(ws: Seq<Window>, workspace_id: u64, c: WindowOrderConfig) -> Seq<OrderEntry>
    decreases ws.len(),
{
    if ws.len() == 0 {
        seq![]
    } else {
        let r = entries_of(ws.drop_last(), workspace_id, c);
        let w = ws.last();
        if tiled_in(w, workspace_id) {
            r.push(
                OrderEntry {
                    id: w.id,
                    column: column_of(w),
                    weight: weight_for(c.weights@, c.default_weight, opt_view(w.app_id)),
                },
            )
        } else {
            r
        }
    }
}

proof fn lemma_entries_len(ws: Seq<Window>, workspace_id: u64, c: WindowOrderConfig)
    ensures
        entries_of(ws, workspace_id, c).len() <= ws.len(),
    decreases ws.len(),
{
    if ws.len() > 0 {
        lemma_entries_len(ws.drop_last(), workspace_id, c);
    }
}

impl WindowOrderConfig {
    /// The window-order settings of a configuration: its `[window_order]`
    /// weights and its `[piri.window_order]` options.
    pub fn from_config(c: &crate::config::Config) -> (r: WindowOrderConfig)
        ensures
            r.weights@ == c.window_order@,
            r.default_weight == c.piri.window_order.default_weight,
            r.workspaces@ == c.piri.window_order.workspaces@,
            r.enable_event_listener == c.piri.window_order.enable_event_listener,
    {
        let mut weights: Vec<(String, u32)> = Vec::new();
        let mut i: usize = 0;
        while i < c.window_order.len()
            invariant
                i <= c.window_order@.len(),
                weights@ =~= c.window_order@.subrange(0, i as int),
            decreases c.window_order.len() - i,
        {
            weights.push((c.window_order[i].0.clone(), c.window_order[i].1));
            i += 1;
        }
        assert(weights@ =~= c.window_order@);
        WindowOrderConfig {
            weights,
            default_weight: c.piri.window_order.default_weight,
            workspaces: crate::config::clone_strings(&c.piri.window_order.workspaces),
            enable_event_listener: c.piri.window_order.enable_event_listener,
        }
    }
}

/// Plugin that sorts the tiled columns of a workspace by weight.
pub struct WindowOrderPlugin {
    pub config: WindowOrderConfig,
}

impl WindowOrderPlugin {
    /// A plugin with no weights, default weight 0, applying to every workspace,
    /// and not listening to events.
    pub fn new() -> (r: WindowOrderPlugin)
        ensures
            r.config.weights@.len() == 0,
            r.config.default_weight == 0,
            r.config.workspaces@.len() == 0,
            !r.config.enable_event_listener,
    {
        WindowOrderPlugin {
            config: WindowOrderConfig {
                weights: Vec::new(),
                default_weight: 0,
                workspaces: Vec::new(),
                enable_event_listener: false,
            },
        }
    }

    pub fn with_config(config: WindowOrderConfig) -> (r: WindowOrderPlugin)
        ensures
            r.config == config,
    {
        WindowOrderPlugin { config }
    }

    /// Takes a new configuration.
    pub fn update_config(&mut self, config: WindowOrderConfig)
        ensures
            final(self).config == config,
    {
        self.config = config;
    }

    /// Weight of a window with application id `app_id`.
    pub fn get_window_order(&self, app_id: Option<&String>) -> (r: u32)
        ensures
            r == weight_for(
                self.config.weights@,
                self.config.default_weight,
                match app_id {
                    Some(s) => Some(s@),
                    None => None,
                },
            ),
    {
        let app = match app_id {
            Some(s) => s,
            None => {
                return self.config.default_weight;
            },
        };
        let a = chars_of(app.as_str());
        let e = &self.config.weights;
        assert(e@.subrange(0, e@.len() as int) =~= e@);
        let mut i: usize = 0;
        while i < e.len()
            invariant
                i <= e@.len(),
                e@ == self.config.weights@,
                a@ == app@,
                app_id matches Some(s) && s@ == app@,
                exact_weight(e@, a@) == exact_weight(e@.subrange(i as int, e@.len() as int), a@),
            decreases e.len() - i,
        {
            assert(e@.subrange(i as int, e@.len() as int).drop_first() =~= e@.subrange(i + 1, e@.len() as int));
            if str_eq(e[i].0.as_str(), app.as_str()) {
                assert(e@.subrange(i as int, e@.len() as int)[0] == e@[i as int]);
                return e[i].1;
            }
            i += 1;
        }
        assert(exact_weight(e@.subrange(e@.len() as int, e@.len() as int), a@) is None);
        let mut i: usize = 0;
        while i < e.len()
            invariant
                i <= e@.len(),
                e@ == self.config.weights@,
                a@ == app@,
                app_id matches Some(s) && s@ == app@,
                exact_weight(e@, a@) is None,
                loose_weight(e@, a@) == loose_weight(e@.subrange(i as int, e@.len() as int), a@),
            decreases e.len() - i,
        {
            assert(e@.subrange(i as int, e@.len() as int).drop_first() =~= e@.subrange(i + 1, e@.len() as int));
            let k = chars_of(e[i].0.as_str());
            if contains_chars(&a, &k) || contains_chars(&k, &a) {
                assert(e@.subrange(i as int, e@.len() as int)[0] == e@[i as int]);
                return e[i].1;
            }
            i += 1;
        }
        self.config.default_weight
    }

    /// Whether an event-driven pass applies to the workspace called
    /// `workspace_name`: every workspace when none is configured, else one
    /// configured by the same text or the same idx number.
    pub fn should_apply_to_workspace(&self, workspace_name: &str) -> (r: bool)
        ensures
            r == workspace_selected(self.config.workspaces@, workspace_name@),
    {
        let fs = &self.config.workspaces;
        if fs.len() == 0 {
            return true;
        }
        let target = parse_u8(workspace_name);
        let mut i: usize = 0;
        while i < fs.len()
            invariant
                i <= fs@.len(),
                fs@ == self.config.workspaces@,
                target == parse_u8_spec(workspace_name@),
                forall|j: int| 0 <= j < i ==> !filter_names(#[trigger] fs@[j]@, workspace_name@),
            decreases fs.len() - i,
        {
            let f = fs[i].as_str();
            if str_eq(f, workspace_name) {
                assert(filter_names(fs@[i as int]@, workspace_name@));
                return true;
            }
            let p = parse_u8(f);
            if p.is_some() && p == target {
                assert(filter_names(fs@[i as int]@, workspace_name@));
                return true;
            }
            i += 1;
        }
        false
    }

    /// Whether an event-driven pass applies to workspace `ws`: every workspace
    /// when none is configured, else one configured by its exact name or idx.
    pub fn applies_to_workspace(&self, ws: &Workspace) -> (r: bool)
        ensures
            r == workspace_applies(self.config.workspaces@, *ws),
    {
        let fs = &self.config.workspaces;
        if fs.len() == 0 {
            return true;
        }
        let mut i: usize = 0;
        while i < fs.len()
            invariant
                i <= fs@.len(),
                fs@ == self.config.workspaces@,
                forall|j: int| 0 <= j < i ==> !filter_is(#[trigger] fs@[j]@, *ws),
            decreases fs.len() - i,
        {
            let f = fs[i].as_str();
            let by_name = match &ws.name {
                Some(n) => str_eq(f, n.as_str()),
                None => false,
            };
            let by_idx = match parse_u8(f) {
                Some(v) => v == ws.idx,
                None => false,
            };
            if by_name || by_idx {
                assert(filter_is(fs@[i as int]@, *ws));
                return true;
            }
            i += 1;
        }
        false
    }

    /// The tiled windows of workspace `workspace_id` with their columns and
    /// weights.
    pub fn order_entries(&self, windows: &Vec<Window>, workspace_id: u64) -> (r: Vec<OrderEntry>)
        ensures
            r@ == entries_of(windows@, workspace_id, self.config),
    {
        let mut r: Vec<OrderEntry> = Vec::new();
        let mut i: usize = 0;
        while i < windows.len()
            invariant
                i <= windows@.len(),
                r@ == entries_of(windows@.take(i as int), workspace_id, self.config),
            decreases windows.len() - i,
        {
            let w = &windows[i];
            assert(windows@.take(i + 1).drop_last() =~= windows@.take(i as int));
            if w.workspace_id == Some(workspace_id) && !w.floating {
                let column = match w.layout {
                    Some(l) => match l.pos_in_scrolling_layout {
                        Some(p) => p.0,
                        None => 1,
                    },
                    None => 1,
                };
                let weight = self.get_window_order(w.app_id.as_ref());
                r.push(OrderEntry { id: w.id, column, weight });
            }
            i += 1;
        }
        assert(windows@.take(windows@.len() as int) =~= windows@);
        r
    }

    /// Moves that sort the tiled columns of workspace `workspace_id`.
    pub fn plan_reorder(&self, windows: &Vec<Window>, workspace_id: u64, focused: Option<u64>) -> (r: Vec<ColumnMove>)
        requires
            windows@.len() < usize::MAX,
        ensures
            ({
                let ws = entries_of(windows@, workspace_id, self.config);
                &&& r@.len() <= MAX_MOVES
                &&& forall|k: int| 0 <= k < r@.len() ==> #[trigger] planned_step(ws, r@, k)
                &&& r@.len() < MAX_MOVES ==> replay(columns_of(ws), r@) == targets_of(ws)
                &&& columns_of(ws) == targets_of(ws) ==> r@.len() == 0
            }),
    {
        let entries = self.order_entries(windows, workspace_id);
        proof {
            lemma_entries_len(windows@, workspace_id, self.config);
        }
        plan_moves(&entries, focused)
    }
}

} // verus!
