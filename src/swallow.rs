//! Swallowing: the recent-focus queue, the map from process ids to windows,
//! the parent found through process ancestry, and the batch of actions that
//! consumes a child window into its parent's column.

use vstd::prelude::*;
use crate::actions::{Action, WorkspaceReference};
use crate::config::{Config, clone_list, view_list};
use crate::matcher::{PatternError, WindowMatcher, WindowMatcherCache, matcher_outcome};
use crate::niri::{Window, Workspace, first_workspace_with_id};
use crate::text::{
    chars_of, decimal, parse_uint, parse_uint_spec, push_decimal, split_tokens, string_of, tokens,
};

verus! {

/// Most window ids the focus queue holds.
pub const FOCUS_QUEUE_LEN: usize = 5;

/// `s` without any occurrence of `x`, in order.
pub open spec fn without(s: Seq<u64>, x: u64) -> Seq<u64>
    decreases s.len(),
{
    if s.len() == 0 {
        s
    } else {
        let r = without(s.drop_last(), x);
        if s.last() == x {
            r
        } else {
            r.push(s.last())
        }
    }
}

/// The newest `FOCUS_QUEUE_LEN` entries of `s`.
pub open spec fn newest(s: Seq<u64>) -> Seq<u64> {
    if s.len() > FOCUS_QUEUE_LEN {
        s.subrange(s.len() - FOCUS_QUEUE_LEN, s.len() as int)
    } else {
        s
    }
}

/// Queue after `id` is focused: moved to the newest end, oldest dropped past the cap.
pub open spec fn focus_pushed(q: Seq<u64>, id: u64) -> Seq<u64> {
    newest(without(q, id).push(id))
}

pub open spec fn queue_ok(q: Seq<u64>) -> bool {
    q.len() <= FOCUS_QUEUE_LEN && q.no_duplicates()
}

pub proof fn lemma_without(s: Seq<u64>, x: u64)
    ensures
        !without(s, x).contains(x),
        forall|y: u64| y != x ==> (#[trigger] without(s, x).contains(y) <==> s.contains(y)),
        s.no_duplicates() ==> without(s, x).no_duplicates(),
        without(s, x).len() <= s.len(),
    decreases s.len(),
{
    if s.len() > 0 {
        let p = s.drop_last();
        lemma_without(p, x);
        let r = without(p, x);
        assert forall|y: u64| y != x implies (#[trigger] without(s, x).contains(y) <==> s.contains(y)) by {
            if s.contains(y) {
                let i = choose|i: int| 0 <= i < s.len() && s[i] == y;
                if i < s.len() - 1 {
                    assert(p[i] == y);
                }
            }
            if p.contains(y) {
                let i = choose|i: int| 0 <= i < p.len() && p[i] == y;
                assert(s[i] == y);
            }
            if s.last() != x {
                assert(r.push(s.last()).last() == s.last());
                if r.push(s.last()).contains(y) {
                    let i = choose|i: int| 0 <= i < r.len() + 1 && r.push(s.last())[i] == y;
                    if i < r.len() {
                        assert(r[i] == y);
                    }
                }
                if r.contains(y) {
                    let i = choose|i: int| 0 <= i < r.len() && r[i] == y;
                    assert(r.push(s.last())[i] == y);
                }
            }
        }
        if s.last() != x {
            if r.push(s.last()).contains(x) {
                let i = choose|i: int| 0 <= i < r.len() + 1 && r.push(s.last())[i] == x;
                assert(i < r.len() ==> r[i] == x);
            }
        }
        if s.no_duplicates() {
            assert(p.no_duplicates()) by {
                assert forall|i: int, j: int| 0 <= i < p.len() && 0 <= j < p.len() && i != j implies p[i] != p[j] by {
                    assert(p[i] == s[i] && p[j] == s[j]);
                }
            }
            if s.last() != x {
                assert(!p.contains(s.last())) by {
                    if p.contains(s.last()) {
                        let i = choose|i: int| 0 <= i < p.len() && p[i] == s.last();
                        assert(s[i] == s[s.len() - 1]);
                    }
                }
                assert(!r.contains(s.last()));
                let q = r.push(s.last());
                assert forall|i: int, j: int| 0 <= i < q.len() && 0 <= j < q.len() && i != j implies q[i] != q[j] by {
                    if i < r.len() && j < r.len() {
                    } else if i < r.len() {
                        assert(r.contains(q[i]));
                    } else if j < r.len() {
                        assert(r.contains(q[j]));
                    }
                }
            }
        }
    }
}

proof fn lemma_newest(s: Seq<u64>)
    ensures
        newest(s).len() <= FOCUS_QUEUE_LEN,
        s.no_duplicates() ==> newest(s).no_duplicates(),
        forall|y: u64| #[trigger] newest(s).contains(y) ==> s.contains(y),
        s.len() > 0 ==> newest(s).len() > 0 && newest(s).last() == s.last(),
{
    if s.len() > FOCUS_QUEUE_LEN {
        let t = newest(s);
        let off = s.len() - FOCUS_QUEUE_LEN;
        assert forall|y: u64| #[trigger] t.contains(y) implies s.contains(y) by {
            let i = choose|i: int| 0 <= i < t.len() && t[i] == y;
            assert(s[i + off] == y);
        }
        if s.no_duplicates() {
            assert forall|i: int, j: int| 0 <= i < t.len() && 0 <= j < t.len() && i != j implies t[i] != t[j] by {
                assert(t[i] == s[i + off] && t[j] == s[j + off]);
            }
        }
    }
}

/// Focusing keeps the queue within its cap and free of duplicates, and puts
/// the focused id at its newest end.
pub proof fn lemma_focus_keeps_queue_ok(q: Seq<u64>, id: u64)
    requires
        queue_ok(q),
    ensures
        queue_ok(focus_pushed(q, id)),
        focus_pushed(q, id).last() == id,
{
    lemma_without(q, id);
    let w = without(q, id);
    let p = w.push(id);
    assert(p.no_duplicates()) by {
        assert forall|i: int, j: int| 0 <= i < p.len() && 0 <= j < p.len() && i != j implies p[i] != p[j] by {
            if i < w.len() && j < w.len() {
            } else if i < w.len() {
                assert(w.contains(p[i]));
            } else if j < w.len() {
                assert(w.contains(p[j]));
            }
        }
    }
    lemma_newest(p);
}

/// The recent-focus queue, oldest first.
pub struct FocusQueue {
    ids: Vec<u64>,
}

impl View for FocusQueue {
    type V = Seq<u64>;

    closed spec fn view(&self) -> Seq<u64> {
        self.ids@
    }
}

fn without_vec(v: &Vec<u64>, x: u64) -> (r: Vec<u64>)
    ensures
        r@ == without(v@, x),
{
    let mut r: Vec<u64> = Vec::new();
    let mut i: usize = 0;
    while i < v.len()
        invariant
            i <= v@.len(),
            r@ == without(v@.take(i as int), x),
        decreases v.len() - i,
    {
        assert(v@.take(i + 1).drop_last() =~= v@.take(i as int));
        if v[i] != x {
            r.push(v[i]);
        }
        i += 1;
    }
    assert(v@.take(v@.len() as int) =~= v@);
    r
}

impl FocusQueue {
    pub fn new() -> (r: FocusQueue)
        ensures
            r@ == Seq::<u64>::empty(),
            queue_ok(r@),
    {
        FocusQueue { ids: Vec::new() }
    }

    /// Records a focus on window `id`.
    pub fn push(&mut self, id: u64)
        requires
            queue_ok(old(self)@),
        ensures
            final(self)@ == focus_pushed(old(self)@, id),
            queue_ok(final(self)@),
    {
        let mut w = without_vec(&self.ids, id);
        w.push(id);
        let n = w.len();
        if n > FOCUS_QUEUE_LEN {
            let mut r: Vec<u64> = Vec::new();
            let mut i: usize = n - FOCUS_QUEUE_LEN;
            while i < n
                invariant
                    n == w@.len(),
                    n > FOCUS_QUEUE_LEN,
                    n - FOCUS_QUEUE_LEN <= i <= n,
                    r@ == w@.subrange(n - FOCUS_QUEUE_LEN, i as int),
                decreases n - i,
            {
                r.push(w[i]);
                i += 1;
            }
            self.ids = r;
        } else {
            self.ids = w;
        }
        proof {
            lemma_focus_keeps_queue_ok(old(self)@, id);
        }
    }

    /// Forgets window `id`.
    pub fn remove(&mut self, id: u64)
        requires
            queue_ok(old(self)@),
        ensures
            final(self)@ == without(old(self)@, id),
            queue_ok(final(self)@),
    {
        proof {
            lemma_without(self@, id);
        }
        self.ids = without_vec(&self.ids, id);
    }

    pub fn contains(&self, id: u64) -> (r: bool)
        ensures
            r == self@.contains(id),
    {
        let mut i: usize = 0;
        while i < self.ids.len()
            invariant
                i <= self@.len(),
                forall|j: int| 0 <= j < i ==> self@[j] != id,
            decreases self.ids.len() - i,
        {
            if self.ids[i] == id {
                return true;
            }
            i += 1;
        }
        false
    }

    /// The ids, oldest first.
    pub fn ids(&self) -> (r: Vec<u64>)
        ensures
            r@ == self@,
    {
        self.ids.clone()
    }
}

/// Windows that are never swallowed.
#[derive(Clone, Debug)]
pub struct SwallowExclude {
    pub app_id: Option<Vec<String>>,
    pub title: Option<Vec<String>>,
}

/// A pattern rule: a child window matching the child patterns is swallowed by
/// a parent matching the parent patterns; an absent list allows any window.
#[derive(Clone, Debug)]
pub struct SwallowRule {
    pub parent_app_id: Option<Vec<String>>,
    pub parent_title: Option<Vec<String>>,
    pub child_app_id: Option<Vec<String>>,
    pub child_title: Option<Vec<String>>,
}

#[derive(Clone, Debug)]
pub struct SwallowPluginConfig {
    pub rules: Vec<SwallowRule>,
    pub use_pid_matching: bool,
    pub exclude: Option<SwallowExclude>,
}

pub open spec fn exclude_view(e: Option<SwallowExclude>) -> Option<(Option<Seq<String>>, Option<Seq<String>>)> {
    match e {
        Some(x) => Some((view_list(x.app_id), view_list(x.title))),
        None => None,
    }
}

pub open spec fn swallow_rule_view(r: SwallowRule) -> (Option<Seq<String>>, Option<Seq<String>>, Option<Seq<String>>, Option<Seq<String>>) {
    (view_list(r.parent_app_id), view_list(r.parent_title), view_list(r.child_app_id), view_list(r.child_title))
}

pub open spec fn swallow_rules_view(rs: Seq<SwallowRule>) -> Seq<(Option<Seq<String>>, Option<Seq<String>>, Option<Seq<String>>, Option<Seq<String>>)> {
    Seq::new(rs.len(), |i: int| swallow_rule_view(rs[i]))
}

impl SwallowRule {
    pub fn duplicate(&self) -> (r: SwallowRule)
        ensures
            swallow_rule_view(r) == swallow_rule_view(*self),
    {
        SwallowRule {
            parent_app_id: clone_list(&self.parent_app_id),
            parent_title: clone_list(&self.parent_title),
            child_app_id: clone_list(&self.child_app_id),
            child_title: clone_list(&self.child_title),
        }
    }
}

impl SwallowPluginConfig {
    /// The swallow settings of a configuration: its `[[swallow]]` rules and
    /// its `[piri.swallow]` flag and exclusions.
    pub fn from_config(c: &Config) -> (r: SwallowPluginConfig)
        ensures
            swallow_rules_view(r.rules@) == swallow_rules_view(c.swallow@),
            r.use_pid_matching == c.piri.swallow.use_pid_matching,
            exclude_view(r.exclude) == exclude_view(c.piri.swallow.exclude),
    {
        let mut rules: Vec<SwallowRule> = Vec::new();
        let mut i: usize = 0;
        while i < c.swallow.len()
            invariant
                i <= c.swallow@.len(),
                swallow_rules_view(rules@) =~= swallow_rules_view(c.swallow@).subrange(0, i as int),
            decreases c.swallow.len() - i,
        {
            let ghost before = rules@;
            rules.push(c.swallow[i].duplicate());
            assert(swallow_rules_view(rules@) =~= swallow_rules_view(before).push(swallow_rule_view(c.swallow@[i as int])));
            i += 1;
        }
        assert(swallow_rules_view(c.swallow@).subrange(0, c.swallow@.len() as int) =~= swallow_rules_view(c.swallow@));
        let exclude = match &c.piri.swallow.exclude {
            Some(x) => Some(SwallowExclude { app_id: clone_list(&x.app_id), title: clone_list(&x.title) }),
            None => None,
        };
        SwallowPluginConfig { rules, use_pid_matching: c.piri.swallow.use_pid_matching, exclude }
    }
}

/// Matching by process ancestry is on unless the configuration turns it off.
pub fn default_true() -> (r: bool)
    ensures
        r,
{
    true
}

/// Window ids by process id.
pub open spec fn pid_entries_ok(m: Seq<(u32, Seq<u64>)>) -> bool {
    forall|i: int, j: int| 0 <= i < m.len() && 0 <= j < m.len() && i != j ==> m[i].0 != m[j].0
}

/// Index of the entry for process `pid`.
pub open spec fn pid_index(m: Seq<(u32, Seq<u64>)>, pid: u32) -> Option<int> {
    if exists|i: int| 0 <= i < m.len() && m[i].0 == pid {
        Some(choose|i: int| 0 <= i < m.len() && m[i].0 == pid)
    } else {
        None
    }
}

/// Map after window `id` of process `pid` is recorded.
pub open spec fn recorded(m: Seq<(u32, Seq<u64>)>, pid: u32, id: u64) -> Seq<(u32, Seq<u64>)> {
    match pid_index(m, pid) {
        Some(i) => m.update(i, (pid, m[i].1.push(id))),
        None => m.push((pid, seq![id])),
    }
}

/// Map after window `id` closes: the id leaves every entry, and entries left
/// empty go.
pub open spec fn purged(m: Seq<(u32, Seq<u64>)>, id: u64) -> Seq<(u32, Seq<u64>)>
    decreases m.len(),
{
    if m.len() == 0 {
        m
    } else {
        let r = purged(m.drop_last(), id);
        let v = without(m.last().1, id);
        if v.len() == 0 {
            r
        } else {
            r.push((m.last().0, v))
        }
    }
}

/// Some entry lists window `id`.
pub open spec fn references(m: Seq<(u32, Seq<u64>)>, id: u64) -> bool {
    exists|i: int| 0 <= i < m.len() && #[trigger] m[i].1.contains(id)
}

/// After window `id` is purged no entry lists it, and no entry is empty.
pub proof fn lemma_purged_forgets(m: Seq<(u32, Seq<u64>)>, id: u64)
    ensures
        !references(purged(m, id), id),
        forall|i: int| 0 <= i < purged(m, id).len() ==> #[trigger] purged(m, id)[i].1.len() > 0,
    decreases m.len(),
{
    if m.len() > 0 {
        lemma_purged_forgets(m.drop_last(), id);
        lemma_without(m.last().1, id);
        let r = purged(m.drop_last(), id);
        let v = without(m.last().1, id);
        if v.len() > 0 {
            let q = r.push((m.last().0, v));
            assert forall|i: int| 0 <= i < q.len() implies !(#[trigger] q[i].1.contains(id)) by {
                if i < r.len() {
                    assert(q[i] == r[i]);
                }
            }
            assert forall|i: int| 0 <= i < q.len() implies #[trigger] q[i].1.len() > 0 by {
                if i < r.len() {
                    assert(q[i] == r[i]);
                }
            }
        }
    }
}

/// Window ids by the process that owns them.
pub struct PidMap {
    entries: Vec<(u32, Vec<u64>)>,
}

pub open spec fn entry_views(e: Seq<(u32, Vec<u64>)>) -> Seq<(u32, Seq<u64>)> {
    Seq::new(e.len(), |i: int| (e[i].0, e[i].1@))
}

impl View for PidMap {
    type V = Seq<(u32, Seq<u64>)>;

    closed spec fn view(&self) -> Seq<(u32, Seq<u64>)> {
        entry_views(self.entries@)
    }
}

impl PidMap {
    pub fn new() -> (r: PidMap)
        ensures
            r@ == Seq::<(u32, Seq<u64>)>::empty(),
    {
        let r = PidMap { entries: Vec::new() };
        assert(r@ =~= Seq::<(u32, Seq<u64>)>::empty());
        r
    }

    /// Records that window `id` belongs to process `pid`.
    pub fn record(&mut self, pid: u32, id: u64)
        requires
            pid_entries_ok(old(self)@),
        ensures
            final(self)@ == recorded(old(self)@, pid, id),
            pid_entries_ok(final(self)@),
    {
        let ghost m = self@;
        let mut i: usize = 0;
        while i < self.entries.len()
            invariant
                i <= self.entries@.len(),
                m == self@,
                m == old(self)@,
                pid_entries_ok(m),
                forall|j: int| 0 <= j < i ==> m[j].0 != pid,
            decreases self.entries.len() - i,
        {
            if self.entries[i].0 == pid {
                proof {
                    assert(m[i as int].0 == pid);
                    let k = choose|k: int| 0 <= k < m.len() && m[k].0 == pid;
                    assert(k == i as int);
                    assert(pid_index(m, pid) == Some(i as int));
                }
                let ghost before = self.entries@;
                let (p, mut v) = self.entries.remove(i);
                v.push(id);
                self.entries.insert(i, (p, v));
                proof {
                    let after = self.entries@;
                    assert(after.len() == before.len());
                    assert forall|j: int| 0 <= j < after.len() && j != i implies after[j] == before[j] by {}
                    assert(entry_views(after) =~= m.update(i as int, (pid, m[i as int].1.push(id))));
                }
                assert(self@ =~= recorded(m, pid, id));
                return;
            }
            i += 1;
        }
        let mut v: Vec<u64> = Vec::new();
        v.push(id);
        self.entries.push((pid, v));
        assert(self@ =~= recorded(m, pid, id));
    }

    /// Forgets window `id`, dropping entries left empty.
    pub fn remove_window(&mut self, id: u64)
        ensures
            final(self)@ == purged(old(self)@, id),
            !references(final(self)@, id),
    {
        let ghost m = self@;
        let mut r: Vec<(u32, Vec<u64>)> = Vec::new();
        let mut i: usize = 0;
        while i < self.entries.len()
            invariant
                i <= self.entries@.len(),
                m == self@,
                entry_views(r@) == purged(m.take(i as int), id),
            decreases self.entries.len() - i,
        {
            assert(m.take(i + 1).drop_last() =~= m.take(i as int));
            let v = without_vec(&self.entries[i].1, id);
            if v.len() > 0 {
                r.push((self.entries[i].0, v));
                assert(entry_views(r@) =~= purged(m.take(i + 1), id));
            } else {
                assert(entry_views(r@) =~= purged(m.take(i + 1), id));
            }
            i += 1;
        }
        assert(m.take(m.len() as int) =~= m);
        self.entries = r;
        proof {
            lemma_purged_forgets(m, id);
        }
    }

    /// Whether some entry lists window `id`.
    pub fn references(&self, id: u64) -> (r: bool)
        ensures
            r == references(self@, id),
    {
        let mut i: usize = 0;
        while i < self.entries.len()
            invariant
                i <= self.entries@.len(),
                forall|j: int| 0 <= j < i ==> !(#[trigger] self@[j]).1.contains(id),
            decreases self.entries.len() - i,
        {
            let v = &self.entries[i].1;
            let mut k: usize = 0;
            while k < v.len()
                invariant
                    i < self.entries@.len(),
                    k <= v@.len(),
                    v@ == self@[i as int].1,
                    forall|q: int| 0 <= q < k ==> v@[q] != id,
                decreases v.len() - k,
            {
                if v[k] == id {
                    assert(self@[i as int].1[k as int] == id);
                    assert(self@[i as int].1.contains(id));
                    return true;
                }
                k += 1;
            }
            i += 1;
        }
        false
    }
}

/// Process id of the parent, as field 4 of a `/proc/<pid>/stat` text.
pub open spec fn parent_pid_of(stat: Seq<char>) -> Option<u32> {
    let ts = tokens(stat);
    if ts.len() >= 4 && parse_uint_spec(ts[3], u32::MAX as nat) is Some {
        Some(parse_uint_spec(ts[3], u32::MAX as nat)->Some_0 as u32)
    } else {
        None
    }
}

/// Next ancestor to visit after reading `stat`: its parent, unless that is
/// process 0 or 1 or cannot be read.
pub open spec fn next_ancestor(stat: Seq<char>) -> Option<u32> {
    match parent_pid_of(stat) {
        Some(p) => if p > 1 {
            Some(p)
        } else {
            None
        },
        None => None,
    }
}

/// The parent process id that a `/proc/<pid>/stat` text gives.
pub fn parse_parent_pid(stat: &str) -> (r: Option<u32>)
    ensures
        r == parent_pid_of(stat@),
{
    let cs = chars_of(stat);
    let ts = split_tokens(&cs);
    if ts.len() < 4 {
        return None;
    }
    let field = string_of(&ts[3]);
    match parse_uint(field.as_str(), u32::MAX as u64) {
        Some(v) => Some(v as u32),
        None => None,
    }
}

/// The ancestor to visit after the process whose stat text is `stat`.
pub fn ancestor_after(stat: &str) -> (r: Option<u32>)
    ensures
        r == next_ancestor(stat@),
{
    match parse_parent_pid(stat) {
        Some(p) => if p > 1 {
            Some(p)
        } else {
            None
        },
        None => None,
    }
}

/// Window `w` may be the parent of window `child_id` by process ancestry.
pub open spec fn pid_parent_candidate(w: Window, child_id: u64, ancestors: Seq<u32>) -> bool {
    w.id != child_id && w.pid is Some && ancestors.contains(w.pid->Some_0)
}

/// The first window, other than the child, whose process is among the child's
/// ancestors.
pub fn find_pid_parent(child_id: u64, windows: &Vec<Window>, ancestors: &Vec<u32>) -> (r: Option<usize>)
    ensures
        r matches Some(i) ==> i < windows@.len() && pid_parent_candidate(windows@[i as int], child_id, ancestors@)
            && forall|j: int| 0 <= j < i ==> !pid_parent_candidate(#[trigger] windows@[j], child_id, ancestors@),
        r is None ==> forall|j: int| 0 <= j < windows@.len() ==> !pid_parent_candidate(#[trigger] windows@[j], child_id, ancestors@),
{
    let mut i: usize = 0;
    while i < windows.len()
        invariant
            i <= windows@.len(),
            forall|j: int| 0 <= j < i ==> !pid_parent_candidate(#[trigger] windows@[j], child_id, ancestors@),
        decreases windows.len() - i,
    {
        let w = &windows[i];
        if w.id != child_id {
            if let Some(p) = w.pid {
                let mut k: usize = 0;
                let mut hit = false;
                while k < ancestors.len()
                    invariant
                        k <= ancestors@.len(),
                        hit == (exists|q: int| 0 <= q < k && ancestors@[q] == p),
                    decreases ancestors.len() - k,
                {
                    if ancestors[k] == p {
                        hit = true;
                    }
                    k += 1;
                }
                if hit {
                    return Some(i);
                }
            }
        }
        i += 1;
    }
    None
}

/// Actions that swallow window `child_id` into the column of `parent_id`:
/// focus the parent, tile the child if it floats, bring it to the parent's
/// workspace if given, consume it leftward, and focus it.
pub open spec fn swallow_plan(parent_id: u64, child_id: u64, child_floating: bool, target: Option<WorkspaceReference>) -> Seq<Action> {
    let a = seq![Action::FocusWindow { id: parent_id }];
    let b = if child_floating {
        a.push(Action::MoveWindowToTiling { id: child_id })
    } else {
        a
    };
    let c = match target {
        Some(r) => b.push(Action::MoveWindowToWorkspace { window_id: child_id, reference: r, focus: false }),
        None => b,
    };
    c.push(Action::ConsumeOrExpelWindowLeft { id: child_id }).push(Action::FocusWindow { id: child_id })
}

pub fn swallow_actions(parent_id: u64, child_id: u64, child_floating: bool, target: Option<WorkspaceReference>) -> (r: Vec<Action>)
    ensures
        r@ == swallow_plan(parent_id, child_id, child_floating, target),
{
    let ghost t = target;
    let mut r: Vec<Action> = Vec::new();
    r.push(Action::FocusWindow { id: parent_id });
    if child_floating {
        r.push(Action::MoveWindowToTiling { id: child_id });
    }
    match target {
        Some(reference) => {
            r.push(Action::MoveWindowToWorkspace { window_id: child_id, reference, focus: false });
        },
        None => {},
    }
    r.push(Action::ConsumeOrExpelWindowLeft { id: child_id });
    r.push(Action::FocusWindow { id: child_id });
    assert(r@ =~= swallow_plan(parent_id, child_id, child_floating, t));
    r
}

/// Workspace to bring the child to: the parent's, written as its name or idx,
/// when the child is elsewhere and that workspace is known.
pub open spec fn swallow_workspace_text(parent: Window, child: Window, workspaces: Seq<Workspace>) -> Option<Seq<char>> {
    match parent.workspace_id {
        Some(w) => if child.workspace_id != Some(w) {
            match first_workspace_with_id(workspaces, w) {
                Some(i) => match workspaces[i].name {
                    Some(n) => Some(n@),
                    None => Some(decimal(workspaces[i].idx as nat)),
                },
                None => None,
            }
        } else {
            None
        },
        None => None,
    }
}

/// The workspace, as text, that the child moves to when swallowed.
pub fn swallow_workspace(parent: &Window, child: &Window, workspaces: &Vec<Workspace>) -> (r: Option<String>)
    ensures
        match r {
            Some(s) => swallow_workspace_text(*parent, *child, workspaces@) == Some(s@),
            None => swallow_workspace_text(*parent, *child, workspaces@) is None,
        },
{
    let w = match parent.workspace_id {
        Some(w) => w,
        None => {
            return None;
        },
    };
    if child.workspace_id == Some(w) {
        return None;
    }
    let mut i: usize = 0;
    while i < workspaces.len()
        invariant
            i <= workspaces@.len(),
            parent.workspace_id == Some(w),
            child.workspace_id != Some(w),
            forall|j: int| 0 <= j < i ==> workspaces@[j].id != w,
        decreases workspaces.len() - i,
    {
        if workspaces[i].id == w {
            proof {
                let k = choose|k: int| 0 <= k < workspaces@.len() && workspaces@[k].id == w && forall|j: int| 0 <= j < k ==> workspaces@[j].id != w;
                assert(k == i as int) by {
                    if k > i {
                        assert(workspaces@[i as int].id == w);
                    }
                }
            }
            assert(first_workspace_with_id(workspaces@, w) == Some(i as int));
            return match &workspaces[i].name {
                Some(n) => {
                    let s = n.clone();
                    Some(s)
                },
                None => {
                    let mut s = String::new();
                    push_decimal(&mut s, workspaces[i].idx as u32);
                    assert(s@ =~= decimal(workspaces@[i as int].idx as nat));
                    Some(s)
                },
            };
        }
        i += 1;
    }
    None
}

/// Outcome of a pair of optional pattern lists on a window: an absent pair
/// allows every window.
pub open spec fn allowed_by(app_ps: Option<Vec<String>>, title_ps: Option<Vec<String>>, w: Window) -> Option<bool> {
    if app_ps is None && title_ps is None {
        Some(true)
    } else {
        matcher_outcome(
            WindowMatcher { app_id: app_ps, title: title_ps },
            match w.app_id {
                Some(a) => Some(a@),
                None => None,
            },
            Some(w.title@),
        )
    }
}

/// Outcome of the exclude patterns: absent patterns exclude nothing.
pub open spec fn excluded_by(e: Option<SwallowExclude>, w: Window) -> Option<bool> {
    match e {
        None => Some(false),
        Some(x) => if x.app_id is None && x.title is None {
            Some(false)
        } else {
            matcher_outcome(
                WindowMatcher { app_id: x.app_id, title: x.title },
                match w.app_id {
                    Some(a) => Some(a@),
                    None => None,
                },
                Some(w.title@),
            )
        },
    }
}

/// Index of the first window with id `id`.
pub open spec fn window_index(ws: Seq<Window>, id: u64) -> Option<int> {
    crate::niri::first_window_with_id(ws, id)
}

/// Walk of the focus queue from entry `k - 1` down to the oldest, for a
/// parent of `child` under `rule`: `Some(Some(i))` at the first live window
/// (index `i` of `ws`) that the parent patterns allow, `Some(None)` when none
/// does, `None` at a pattern that does not compile.
pub open spec fn queue_parent(q: Seq<u64>, k: int, ws: Seq<Window>, rule: SwallowRule, child: u64) -> Option<Option<int>>
    decreases k,
{
    if k <= 0 || k > q.len() {
        Some(None)
    } else {
        let id = q[k - 1];
        if id == child || window_index(ws, id) is None {
            queue_parent(q, k - 1, ws, rule, child)
        } else {
            let i = window_index(ws, id)->Some_0;
            match allowed_by(rule.parent_app_id, rule.parent_title, ws[i]) {
                None => None,
                Some(true) => Some(Some(i)),
                Some(false) => queue_parent(q, k - 1, ws, rule, child),
            }
        }
    }
}

/// Parent of `child` under `rule`, given the focused window: when the child
/// has taken focus, the newest earlier-focused live window the parent patterns
/// allow; else the focused window, when they allow it.
pub open spec fn focus_parent(q: Seq<u64>, ws: Seq<Window>, rule: SwallowRule, child: u64, focused: Option<Window>) -> Option<Option<int>> {
    match focused {
        None => Some(None),
        Some(f) => if f.id == child {
            queue_parent(q, q.len() as int, ws, rule, child)
        } else {
            match window_index(ws, f.id) {
                None => Some(None),
                Some(i) => match allowed_by(rule.parent_app_id, rule.parent_title, ws[i]) {
                    None => None,
                    Some(true) => Some(Some(i)),
                    Some(false) => Some(None),
                },
            }
        },
    }
}

/// Rule walk from rule `k` on: the parent of the first rule whose child
/// patterns allow `child` and that finds a parent.
pub open spec fn rules_parent(rules: Seq<SwallowRule>, k: int, q: Seq<u64>, ws: Seq<Window>, child: Window, focused: Option<Window>) -> Option<Option<int>>
    decreases rules.len() - k,
{
    if k < 0 || k >= rules.len() {
        Some(None)
    } else {
        match allowed_by(rules[k].child_app_id, rules[k].child_title, child) {
            None => None,
            Some(false) => rules_parent(rules, k + 1, q, ws, child, focused),
            Some(true) => match focus_parent(q, ws, rules[k], child.id, focused) {
                None => None,
                Some(Some(i)) => Some(Some(i)),
                Some(None) => rules_parent(rules, k + 1, q, ws, child, focused),
            },
        }
    }
}

/// The swallow plugin's state: its configuration, compiled patterns, the
/// windows of each process and the recent-focus queue.
pub struct SwallowPlugin {
    pub config: SwallowPluginConfig,
    pub cache: WindowMatcherCache,
    pub pid_map: PidMap,
    pub focus_queue: FocusQueue,
}

impl SwallowPlugin {
    pub open spec fn wf(&self) -> bool {
        &&& self.cache.wf()
        &&& pid_entries_ok(self.pid_map@)
        &&& queue_ok(self.focus_queue@)
    }

    pub fn new(config: SwallowPluginConfig) -> (r: SwallowPlugin)
        ensures
            r.wf(),
            r.config == config,
            r.pid_map@.len() == 0,
            r.focus_queue@.len() == 0,
    {
        SwallowPlugin { config, cache: WindowMatcherCache::new(), pid_map: PidMap::new(), focus_queue: FocusQueue::new() }
    }

    /// Takes a new configuration; compiled patterns are dropped, the process
    /// map and the focus queue keep.
    pub fn update_config(&mut self, config: SwallowPluginConfig)
        requires
            old(self).wf(),
        ensures
            final(self).wf(),
            final(self).config == config,
            final(self).cache@.len() == 0,
            final(self).pid_map@ == old(self).pid_map@,
            final(self).focus_queue@ == old(self).focus_queue@,
    {
        self.config = config;
        self.cache.clear_cache();
    }

    /// Records the windows of a first scan.
    pub fn initial_scan(&mut self, windows: &Vec<Window>)
        requires
            old(self).wf(),
        ensures
            final(self).wf(),
            final(self).focus_queue@ == old(self).focus_queue@,
            forall|i: int| 0 <= i < windows@.len() && windows@[i].pid is Some ==> references(final(self).pid_map@, #[trigger] windows@[i].id),
    {
        let mut i: usize = 0;
        while i < windows.len()
            invariant
                i <= windows@.len(),
                self.wf(),
                self.focus_queue@ == old(self).focus_queue@,
                forall|j: int| 0 <= j < i && windows@[j].pid is Some ==> references(self.pid_map@, #[trigger] windows@[j].id),
            decreases windows.len() - i,
        {
            if let Some(pid) = windows[i].pid {
                let ghost before = self.pid_map@;
                self.pid_map.record(pid, windows[i].id);
                proof {
                    lemma_recorded_keeps(before, pid, windows@[i as int].id);
                }
            }
            i += 1;
        }
    }

    /// Bookkeeping for an opened-or-changed window: a window already known is
    /// a change, and nothing happens (false); a new one is recorded under its
    /// process and pushed on the focus queue (true).
    pub fn note_opened(&mut self, window: &Window) -> (r: bool)
        requires
            old(self).wf(),
        ensures
            final(self).wf(),
            r == !references(old(self).pid_map@, window.id),
            !r ==> final(self).pid_map@ == old(self).pid_map@ && final(self).focus_queue@ == old(self).focus_queue@,
            r ==> final(self).focus_queue@ == focus_pushed(old(self).focus_queue@, window.id),
            r ==> final(self).pid_map@ == match window.pid {
                Some(p) => recorded(old(self).pid_map@, p, window.id),
                None => old(self).pid_map@,
            },
            final(self).config == old(self).config,
    {
        if self.pid_map.references(window.id) {
            return false;
        }
        if let Some(pid) = window.pid {
            self.pid_map.record(pid, window.id);
        }
        self.focus_queue.push(window.id);
        true
    }

    /// A window closed: it leaves the process map and the focus queue.
    pub fn handle_window_closed(&mut self, id: u64)
        requires
            old(self).wf(),
        ensures
            final(self).wf(),
            final(self).pid_map@ == purged(old(self).pid_map@, id),
            final(self).focus_queue@ == without(old(self).focus_queue@, id),
            !references(final(self).pid_map@, id),
            !final(self).focus_queue@.contains(id),
    {
        self.pid_map.remove_window(id);
        proof {
            lemma_purged_forgets(old(self).pid_map@, id);
            lemma_purged_entries_ok(old(self).pid_map@, id);
            lemma_without(old(self).focus_queue@, id);
        }
        self.focus_queue.remove(id);
    }

    /// A window took focus.
    pub fn handle_focus_timestamp(&mut self, id: u64)
        requires
            old(self).wf(),
        ensures
            final(self).wf(),
            final(self).focus_queue@ == focus_pushed(old(self).focus_queue@, id),
            final(self).pid_map@ == old(self).pid_map@,
    {
        self.focus_queue.push(id);
    }

    /// Whether the exclude patterns keep window `w` from being swallowed.
    pub fn is_excluded(&mut self, w: &Window) -> (r: Result<bool, PatternError>)
        requires
            old(self).wf(),
        ensures
            final(self).wf(),
            final(self).config == old(self).config,
            final(self).pid_map@ == old(self).pid_map@,
            final(self).focus_queue@ == old(self).focus_queue@,
            match r {
                Ok(b) => excluded_by(old(self).config.exclude, *w) == Some(b),
                Err(_) => excluded_by(old(self).config.exclude, *w) is None,
            },
    {
        match &self.config.exclude {
            None => Ok(false),
            Some(x) => {
                if x.app_id.is_none() && x.title.is_none() {
                    Ok(false)
                } else {
                    self.cache.matches_lists(w.app_id.as_ref(), Some(&w.title), &x.app_id, &x.title)
                }
            },
        }
    }
}

proof fn lemma_recorded_keeps(m: Seq<(u32, Seq<u64>)>, pid: u32, id: u64)
    requires
        pid_entries_ok(m),
    ensures
        references(recorded(m, pid, id), id),
        forall|x: u64| references(m, x) ==> #[trigger] references(recorded(m, pid, id), x),
{
    let r = recorded(m, pid, id);
    match pid_index(m, pid) {
        Some(i) => {
            assert(r[i].1 == m[i].1.push(id));
            assert(r[i].1[m[i].1.len() as int] == id);
            assert(r[i].1.contains(id));
            assert forall|x: u64| references(m, x) implies #[trigger] references(r, x) by {
                let j = choose|j: int| 0 <= j < m.len() && #[trigger] m[j].1.contains(x);
                let q = choose|q: int| 0 <= q < m[j].1.len() && m[j].1[q] == x;
                if j == i {
                    assert(r[i].1[q] == x);
                } else {
                    assert(r[j] == m[j]);
                }
                assert(r[j].1.contains(x));
            }
        },
        None => {
            assert(r[m.len() as int].1[0] == id);
            assert(r[m.len() as int].1.contains(id));
            assert forall|x: u64| references(m, x) implies #[trigger] references(r, x) by {
                let j = choose|j: int| 0 <= j < m.len() && #[trigger] m[j].1.contains(x);
                assert(r[j] == m[j]);
            }
        },
    }
}

proof fn lemma_purged_entries_ok(m: Seq<(u32, Seq<u64>)>, id: u64)
    requires
        pid_entries_ok(m),
    ensures
        pid_entries_ok(purged(m, id)),
        forall|i: int| 0 <= i < purged(m, id).len() ==> exists|j: int| 0 <= j < m.len() && #[trigger] purged(m, id)[i].0 == m[j].0,
    decreases m.len(),
{
    if m.len() > 0 {
        let p = m.drop_last();
        assert(pid_entries_ok(p)) by {
            assert forall|i: int, j: int| 0 <= i < p.len() && 0 <= j < p.len() && i != j implies p[i].0 != p[j].0 by {
                assert(p[i] == m[i] && p[j] == m[j]);
            }
        }
        lemma_purged_entries_ok(p, id);
        let r = purged(p, id);
        assert forall|i: int| 0 <= i < r.len() implies exists|j: int| 0 <= j < m.len() && #[trigger] r[i].0 == m[j].0 by {
            let j = choose|j: int| 0 <= j < p.len() && #[trigger] r[i].0 == p[j].0;
            assert(m[j] == p[j]);
        }
        let v = without(m.last().1, id);
        if v.len() > 0 {
            let q = r.push((m.last().0, v));
            assert forall|i: int| 0 <= i < q.len() implies exists|j: int| 0 <= j < m.len() && #[trigger] q[i].0 == m[j].0 by {
                if i < r.len() {
                    assert(q[i] == r[i]);
                } else {
                    assert(q[i].0 == m[m.len() - 1].0);
                }
            }
            assert forall|i: int, j: int| 0 <= i < q.len() && 0 <= j < q.len() && i != j implies q[i].0 != q[j].0 by {
                if i < r.len() && j < r.len() {
                    assert(q[i] == r[i] && q[j] == r[j]);
                } else if i < r.len() {
                    let a = choose|a: int| 0 <= a < p.len() && #[trigger] r[i].0 == p[a].0;
                    assert(m[a] == p[a]);
                    assert(m[a].0 != m[m.len() - 1].0);
                } else if j < r.len() {
                    let a = choose|a: int| 0 <= a < p.len() && #[trigger] r[j].0 == p[a].0;
                    assert(m[a] == p[a]);
                    assert(m[a].0 != m[m.len() - 1].0);
                }
            }
        }
    }
}

/// A closed window is forgotten: the process map lists it nowhere and the
/// focus queue does not hold it.
pub proof fn lemma_closed_window_forgotten(m: Seq<(u32, Seq<u64>)>, q: Seq<u64>, id: u64)
    ensures
        !references(purged(m, id), id),
        !without(q, id).contains(id),
{
    lemma_purged_forgets(m, id);
    lemma_without(q, id);
}

pub open spec fn as_int(o: Option<usize>) -> Option<int> {
    match o {
        Some(i) => Some(i as int),
        None => None,
    }
}

fn allowed_in(cache: &mut WindowMatcherCache, app_ps: &Option<Vec<String>>, title_ps: &Option<Vec<String>>, w: &Window) -> (r: Result<bool, PatternError>)
    requires
        old(cache).wf(),
    ensures
        final(cache).wf(),
        match r {
            Ok(b) => allowed_by(*app_ps, *title_ps, *w) == Some(b),
            Err(_) => allowed_by(*app_ps, *title_ps, *w) is None,
        },
{
    if app_ps.is_none() && title_ps.is_none() {
        return Ok(true);
    }
    cache.matches_lists(w.app_id.as_ref(), Some(&w.title), app_ps, title_ps)
}

fn queue_parent_in(cache: &mut WindowMatcherCache, q: &Vec<u64>, windows: &Vec<Window>, rule: &SwallowRule, child: u64) -> (r: Result<Option<usize>, PatternError>)
    requires
        old(cache).wf(),
    ensures
        final(cache).wf(),
        match r {
            Ok(o) => queue_parent(q@, q@.len() as int, windows@, *rule, child) == Some(as_int(o)),
            Err(_) => queue_parent(q@, q@.len() as int, windows@, *rule, child) is None,
        },
        r matches Ok(Some(i)) ==> i < windows@.len(),
{
    let mut k: usize = q.len();
    while k > 0
        invariant
            k <= q@.len(),
            cache.wf(),
            queue_parent(q@, q@.len() as int, windows@, *rule, child) == queue_parent(q@, k as int, windows@, *rule, child),
        decreases k,
    {
        let id = q[k - 1];
        if id != child {
            match crate::niri::find_window_index(windows, id) {
                Some(i) => {
                    match allowed_in(cache, &rule.parent_app_id, &rule.parent_title, &windows[i]) {
                        Err(e) => {
                            return Err(e);
                        },
                        Ok(true) => {
                            return Ok(Some(i));
                        },
                        Ok(false) => {},
                    }
                },
                None => {},
            }
        }
        k -= 1;
    }
    Ok(None)
}

fn focus_parent_in(cache: &mut WindowMatcherCache, q: &Vec<u64>, windows: &Vec<Window>, rule: &SwallowRule, child: u64, focused: Option<&Window>) -> (r: Result<Option<usize>, PatternError>)
    requires
        old(cache).wf(),
    ensures
        final(cache).wf(),
        match r {
            Ok(o) => focus_parent(q@, windows@, *rule, child, match focused {
                Some(f) => Some(*f),
                None => None,
            }) == Some(as_int(o)),
            Err(_) => focus_parent(q@, windows@, *rule, child, match focused {
                Some(f) => Some(*f),
                None => None,
            }) is None,
        },
        r matches Ok(Some(i)) ==> i < windows@.len(),
{
    let f = match focused {
        Some(f) => f,
        None => {
            return Ok(None);
        },
    };
    if f.id == child {
        return queue_parent_in(cache, q, windows, rule, child);
    }
    match crate::niri::find_window_index(windows, f.id) {
        None => Ok(None),
        Some(i) => match allowed_in(cache, &rule.parent_app_id, &rule.parent_title, &windows[i]) {
            Err(e) => Err(e),
            Ok(true) => Ok(Some(i)),
            Ok(false) => Ok(None),
        },
    }
}

impl SwallowPlugin {
    /// Parent for `child` by the pattern rules, as an index of `windows`:
    /// the parent found by the first rule whose child patterns allow it and
    /// that finds one.
    pub fn rule_parent(&mut self, child: &Window, focused: Option<&Window>, windows: &Vec<Window>) -> (r: Result<Option<usize>, PatternError>)
        requires
            old(self).wf(),
        ensures
            final(self).wf(),
            final(self).config == old(self).config,
            final(self).pid_map@ == old(self).pid_map@,
            final(self).focus_queue@ == old(self).focus_queue@,
            ({
                let out = rules_parent(
                    old(self).config.rules@,
                    0,
                    old(self).focus_queue@,
                    windows@,
                    *child,
                    match focused {
                        Some(f) => Some(*f),
                        None => None,
                    },
                );
                match r {
                    Ok(o) => out == Some(as_int(o)),
                    Err(_) => out is None,
                }
            }),
            r matches Ok(Some(i)) ==> i < windows@.len(),
    {
        let q = self.focus_queue.ids();
        let ghost fo = match focused {
            Some(f) => Some(*f),
            None => None,
        };
        let mut k: usize = 0;
        while k < self.config.rules.len()
            invariant
                k <= self.config.rules@.len(),
                self.wf(),
                self.config == old(self).config,
                self.pid_map@ == old(self).pid_map@,
                self.focus_queue@ == old(self).focus_queue@,
                q@ == self.focus_queue@,
                fo == match focused {
                    Some(f) => Some(*f),
                    None => None,
                },
                rules_parent(self.config.rules@, 0, q@, windows@, *child, fo) == rules_parent(self.config.rules@, k as int, q@, windows@, *child, fo),
            decreases self.config.rules.len() - k,
        {
            let rule = &self.config.rules[k];
            match allowed_in(&mut self.cache, &rule.child_app_id, &rule.child_title, child) {
                Err(e) => {
                    return Err(e);
                },
                Ok(false) => {},
                Ok(true) => {
                    match focus_parent_in(&mut self.cache, &q, windows, rule, child.id, focused) {
                        Err(e) => {
                            return Err(e);
                        },
                        Ok(Some(i)) => {
                            return Ok(Some(i));
                        },
                        Ok(None) => {},
                    }
                },
            }
            k += 1;
        }
        Ok(None)
    }
}

/// Index of the first window that may be the child's parent by ancestry.
pub open spec fn first_pid_parent(ws: Seq<Window>, child: u64, ancestors: Seq<u32>) -> Option<int> {
    if exists|i: int| 0 <= i < ws.len() && pid_parent_candidate(ws[i], child, ancestors) {
        Some(choose|i: int| 0 <= i < ws.len() && pid_parent_candidate(ws[i], child, ancestors) && forall|j: int| 0 <= j < i ==> !pid_parent_candidate(#[trigger] ws[j], child, ancestors))
    } else {
        None
    }
}

/// Parent chosen for a new window: by ancestry when that is on and finds
/// one, else by the pattern rules; `None` when a pattern does not compile.
pub open spec fn chosen_parent(c: SwallowPluginConfig, q: Seq<u64>, ws: Seq<Window>, child: Window, ancestors: Seq<u32>, focused: Option<Window>) -> Option<Option<int>> {
    let by_pid = if c.use_pid_matching {
        first_pid_parent(ws, child.id, ancestors)
    } else {
        None
    };
    match by_pid {
        Some(i) => Some(Some(i)),
        None => rules_parent(c.rules@, 0, q, ws, child, focused),
    }
}

impl SwallowPlugin {
    /// The parent to swallow a newly opened `child` into, as an index of
    /// `windows`, unless the exclude patterns keep it apart. `ancestors` are
    /// the child's ancestor processes.
    pub fn choose_parent(&mut self, child: &Window, windows: &Vec<Window>, ancestors: &Vec<u32>, focused: Option<&Window>) -> (r: Result<Option<usize>, PatternError>)
        requires
            old(self).wf(),
        ensures
            final(self).wf(),
            final(self).config == old(self).config,
            final(self).pid_map@ == old(self).pid_map@,
            final(self).focus_queue@ == old(self).focus_queue@,
            ({
                let fo = match focused {
                    Some(f) => Some(*f),
                    None => None,
                };
                match excluded_by(old(self).config.exclude, *child) {
                    None => r is Err,
                    Some(true) => r matches Ok(None),
                    Some(false) => match chosen_parent(old(self).config, old(self).focus_queue@, windows@, *child, ancestors@, fo) {
                        None => r is Err,
                        Some(o) => r matches Ok(x) && as_int(x) == o,
                    },
                }
            }),
            r matches Ok(Some(i)) ==> i < windows@.len(),
    {
        match self.is_excluded(child) {
            Err(e) => {
                return Err(e);
            },
            Ok(true) => {
                return Ok(None);
            },
            Ok(false) => {},
        }
        if self.config.use_pid_matching {
            if let Some(i) = find_pid_parent(child.id, windows, ancestors) {
                proof {
                    let ws = windows@;
                    let a = ancestors@;
                    let k = choose|k: int| 0 <= k < ws.len() && pid_parent_candidate(ws[k], child.id, a) && forall|j: int| 0 <= j < k ==> !pid_parent_candidate(#[trigger] ws[j], child.id, a);
                    assert(k == i as int) by {
                        if k > i {
                            assert(pid_parent_candidate(ws[i as int], child.id, a));
                        }
                    }
                }
                return Ok(Some(i));
            }
        }
        self.rule_parent(child, focused, windows)
    }
}

/// The batch that swallows `child` into `parent`'s column, bringing it to
/// the parent's workspace first when it is elsewhere.
pub fn swallow_batch(parent: &Window, child: &Window, workspaces: &Vec<Workspace>) -> (r: Vec<Action>)
    ensures
        swallow_workspace_text(*parent, *child, workspaces@) is None ==> r@ == swallow_plan(parent.id, child.id, child.floating, None),
        swallow_workspace_text(*parent, *child, workspaces@) is Some ==> exists|w: WorkspaceReference|
            #[trigger] crate::actions::reference_for(swallow_workspace_text(*parent, *child, workspaces@)->Some_0, w)
                && r@ == swallow_plan(parent.id, child.id, child.floating, Some(w)),
{
    match swallow_workspace(parent, child, workspaces) {
        Some(t) => {
            let w = crate::actions::workspace_reference(t.as_str());
            let ghost wg = w;
            let r = swallow_actions(parent.id, child.id, child.floating, Some(w));
            proof {
                let x = swallow_workspace_text(*parent, *child, workspaces@)->Some_0;
                assert(x == t@);
                assert(crate::actions::reference_for(x, wg) && r@ == swallow_plan(parent.id, child.id, child.floating, Some(wg)));
            }
            r
        },
        None => swallow_actions(parent.id, child.id, child.floating, None),
    }
}

} // verus!
