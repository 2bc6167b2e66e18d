//! Window rules, empty-workspace commands and singleton patterns: which
//! workspace a configured name or idx denotes, which rule a window falls
//! under, and what that calls for.

use vstd::prelude::*;
use crate::actions::{Action, reference_for, workspace_reference};
use crate::config::{EmptyPluginConfig, SingletonConfig, WindowRuleConfig, key_index, lookup};
use crate::matcher::{WindowMatcher, WindowMatcherCache, matcher_outcome, opt_str_view};
use crate::niri::{Window, Workspace};
use crate::text::{chars_of, decimal, parse_u8, parse_u8_spec, push_decimal, split_tokens, str_eq, string_of, tokens};

verus! {

pub open spec fn named(w: Workspace, t: Seq<char>) -> bool {
    w.name is Some && w.name->Some_0@ == t
}

/// Index of the first workspace called `t`.
pub open spec fn first_named(ws: Seq<Workspace>, t: Seq<char>) -> Option<int> {
    if exists|i: int| 0 <= i < ws.len() && named(ws[i], t) {
        Some(choose|i: int| 0 <= i < ws.len() && named(ws[i], t) && forall|j: int| 0 <= j < i ==> !named(ws[j], t))
    } else {
        None
    }
}

/// Index of the first workspace with idx `x`.
pub open spec fn first_with_idx(ws: Seq<Workspace>, x: u8) -> Option<int> {
    if exists|i: int| 0 <= i < ws.len() && ws[i].idx == x {
        Some(choose|i: int| 0 <= i < ws.len() && ws[i].idx == x && forall|j: int| 0 <= j < i ==> ws[j].idx != x)
    } else {
        None
    }
}

/// Workspace that the configured text `t` denotes: the first one named `t`,
/// else the first whose idx `t` reads as.
pub open spec fn resolve_workspace(ws: Seq<Workspace>, t: Seq<char>) -> Option<int> {
    match first_named(ws, t) {
        Some(i) => Some(i),
        None => match parse_u8_spec(t) {
            Some(x) => first_with_idx(ws, x),
            None => None,
        },
    }
}

/// How an action names workspace `w`: its name, else its idx.
pub open spec fn workspace_key(w: Workspace) -> Seq<char> {
    match w.name {
        Some(n) => n@,
        None => decimal(w.idx as nat),
    }
}

/// Index of the workspace that `target` denotes, by exact name first and
/// exact idx second.
pub fn match_workspace(target: &str, workspaces: &Vec<Workspace>) -> (r: Option<usize>)
    ensures
        r matches Some(i) ==> i < workspaces@.len(),
        match r {
            Some(i) => resolve_workspace(workspaces@, target@) == Some(i as int),
            None => resolve_workspace(workspaces@, target@) is None,
        },
{
    let mut i: usize = 0;
    while i < workspaces.len()
        invariant
            i <= workspaces@.len(),
            forall|j: int| 0 <= j < i ==> !named(workspaces@[j], target@),
        decreases workspaces.len() - i,
    {
        let hit = match &workspaces[i].name {
            Some(n) => str_eq(n.as_str(), target),
            None => false,
        };
        if hit {
            proof {
                let ws = workspaces@;
                let k = choose|k: int| 0 <= k < ws.len() && named(ws[k], target@) && forall|j: int| 0 <= j < k ==> !named(ws[j], target@);
                assert(k == i as int) by {
                    if k > i {
                        assert(named(ws[i as int], target@));
                    }
                }
            }
            return Some(i);
        }
        i += 1;
    }
    let x = match parse_u8(target) {
        Some(x) => x,
        None => {
            return None;
        },
    };
    let mut i: usize = 0;
    while i < workspaces.len()
        invariant
            i <= workspaces@.len(),
            first_named(workspaces@, target@) is None,
            parse_u8_spec(target@) == Some(x),
            forall|j: int| 0 <= j < i ==> workspaces@[j].idx != x,
        decreases workspaces.len() - i,
    {
        if workspaces[i].idx == x {
            proof {
                let ws = workspaces@;
                let k = choose|k: int| 0 <= k < ws.len() && ws[k].idx == x && forall|j: int| 0 <= j < k ==> ws[j].idx != x;
                assert(k == i as int) by {
                    if k > i {
                        assert(ws[i as int].idx == x);
                    }
                }
            }
            return Some(i);
        }
        i += 1;
    }
    None
}

/// The name of workspace `w`, else its idx written out.
pub fn workspace_key_of(w: &Workspace) -> (r: String)
    ensures
        r@ == workspace_key(*w),
{
    match &w.name {
        Some(n) => n.clone(),
        None => {
            let mut s = String::new();
            push_decimal(&mut s, w.idx as u32);
            assert(s@ =~= decimal(w.idx as nat));
            s
        },
    }
}

/// A workspace is empty when it has no active window and no window is on it.
pub open spec fn workspace_is_empty(w: Workspace, windows: Seq<Window>) -> bool {
    w.active_window_id is None && forall|i: int| 0 <= i < windows.len() ==> windows[i].workspace_id != Some(w.id)
}

pub fn is_workspace_empty(w: &Workspace, windows: &Vec<Window>) -> (r: bool)
    ensures
        r == workspace_is_empty(*w, windows@),
{
    if w.active_window_id.is_some() {
        return false;
    }
    let mut i: usize = 0;
    while i < windows.len()
        invariant
            i <= windows@.len(),
            forall|j: int| 0 <= j < i ==> windows@[j].workspace_id != Some(w.id),
        decreases windows.len() - i,
    {
        if windows[i].workspace_id == Some(w.id) {
            return false;
        }
        i += 1;
    }
    true
}

/// Command for an empty workspace: by its name first, then by its idx.
pub open spec fn empty_command_for(c: Seq<(String, String)>, w: Workspace) -> Option<String> {
    let by_name = match w.name {
        Some(n) => lookup(c, n@),
        None => None,
    };
    match by_name {
        Some(cmd) => Some(cmd),
        None => lookup(c, decimal(w.idx as nat)),
    }
}

/// Command to run for workspace `w` when it is activated empty.
pub fn empty_command(config: &EmptyPluginConfig, w: &Workspace) -> (r: Option<String>)
    ensures
        r == empty_command_for(config.workspaces@, *w),
{
    if let Some(n) = &w.name {
        if let Some(i) = key_index(&config.workspaces, n.as_str()) {
            return Some(config.workspaces[i].1.clone());
        }
    }
    let mut key = String::new();
    push_decimal(&mut key, w.idx as u32);
    assert(key@ =~= decimal(w.idx as nat));
    match key_index(&config.workspaces, key.as_str()) {
        Some(i) => Some(config.workspaces[i].1.clone()),
        None => None,
    }
}

/// Command to run when workspace `id` is activated: only a focused
/// activation of a known, empty workspace that has a command calls for one.
pub open spec fn activation_command(c: Seq<(String, String)>, wss: Seq<Workspace>, windows: Seq<Window>, id: u64, focused: bool) -> Option<String> {
    if !focused {
        None
    } else {
        match crate::niri::first_workspace_with_id(wss, id) {
            Some(i) => if workspace_is_empty(wss[i], windows) {
                empty_command_for(c, wss[i])
            } else {
                None
            },
            None => None,
        }
    }
}

pub fn on_workspace_activated(config: &EmptyPluginConfig, workspaces: &Vec<Workspace>, windows: &Vec<Window>, id: u64, focused: bool) -> (r: Option<String>)
    ensures
        r == activation_command(config.workspaces@, workspaces@, windows@, id, focused),
{
    if !focused {
        return None;
    }
    let mut i: usize = 0;
    while i < workspaces.len()
        invariant
            i <= workspaces@.len(),
            focused,
            forall|j: int| 0 <= j < i ==> workspaces@[j].id != id,
        decreases workspaces.len() - i,
    {
        if workspaces[i].id == id {
            proof {
                let ws = workspaces@;
                let k = choose|k: int| 0 <= k < ws.len() && ws[k].id == id && forall|j: int| 0 <= j < k ==> ws[j].id != id;
                assert(k == i as int) by {
                    if k > i {
                        assert(ws[i as int].id == id);
                    }
                }
            }
            if is_workspace_empty(&workspaces[i], windows) {
                return empty_command(config, &workspaces[i]);
            }
            return None;
        }
        i += 1;
    }
    None
}

pub open spec fn rule_matcher(r: WindowRuleConfig) -> WindowMatcher {
    WindowMatcher { app_id: r.app_id, title: r.title }
}

/// Index of the first rule from `start` on that matches the window; a rule
/// with a pattern that does not compile is passed over.
pub open spec fn rule_search(rules: Seq<WindowRuleConfig>, app: Option<Seq<char>>, title: Option<Seq<char>>, start: int) -> Option<int>
    decreases rules.len() - start,
{
    if start < 0 || start >= rules.len() {
        None
    } else if matcher_outcome(rule_matcher(rules[start]), app, title) == Some(true) {
        Some(start)
    } else {
        rule_search(rules, app, title, start + 1)
    }
}

/// Index of the first rule from `start` on that has a focus command and
/// matches the window.
pub open spec fn focus_rule_search(rules: Seq<WindowRuleConfig>, app: Option<Seq<char>>, title: Option<Seq<char>>, start: int) -> Option<int>
    decreases rules.len() - start,
{
    if start < 0 || start >= rules.len() {
        None
    } else if rules[start].focus_command is Some && matcher_outcome(rule_matcher(rules[start]), app, title) == Some(true) {
        Some(start)
    } else {
        focus_rule_search(rules, app, title, start + 1)
    }
}

/// Index of the first rule with a focus command that matches a window that
/// took focus.
pub fn first_focus_rule(cache: &mut WindowMatcherCache, rules: &Vec<WindowRuleConfig>, app_id: Option<&String>, title: Option<&String>) -> (r: Option<usize>)
    requires
        old(cache).wf(),
    ensures
        final(cache).wf(),
        match r {
            Some(i) => focus_rule_search(rules@, opt_str_view(app_id), opt_str_view(title), 0) == Some(i as int),
            None => focus_rule_search(rules@, opt_str_view(app_id), opt_str_view(title), 0) is None,
        },
{
    let mut i: usize = 0;
    while i < rules.len()
        invariant
            i <= rules@.len(),
            cache.wf(),
            focus_rule_search(rules@, opt_str_view(app_id), opt_str_view(title), 0) == focus_rule_search(rules@, opt_str_view(app_id), opt_str_view(title), i as int),
        decreases rules.len() - i,
    {
        let rule = &rules[i];
        if rule.focus_command.is_some() {
            match cache.matches_lists(app_id, title, &rule.app_id, &rule.title) {
                Ok(true) => {
                    return Some(i);
                },
                _ => {},
            }
        }
        i += 1;
    }
    None
}

/// Index of the first rule that matches a window with application id
/// `app_id` and title `title`.
pub fn first_matching_rule(cache: &mut WindowMatcherCache, rules: &Vec<WindowRuleConfig>, app_id: Option<&String>, title: Option<&String>) -> (r: Option<usize>)
    requires
        old(cache).wf(),
    ensures
        final(cache).wf(),
        match r {
            Some(i) => rule_search(rules@, opt_str_view(app_id), opt_str_view(title), 0) == Some(i as int),
            None => rule_search(rules@, opt_str_view(app_id), opt_str_view(title), 0) is None,
        },
{
    let mut i: usize = 0;
    while i < rules.len()
        invariant
            i <= rules@.len(),
            cache.wf(),
            rule_search(rules@, opt_str_view(app_id), opt_str_view(title), 0) == rule_search(rules@, opt_str_view(app_id), opt_str_view(title), i as int),
        decreases rules.len() - i,
    {
        let rule = &rules[i];
        match cache.matches_lists(app_id, title, &rule.app_id, &rule.title) {
            Ok(true) => {
                return Some(i);
            },
            _ => {},
        }
        i += 1;
    }
    None
}

/// What a matching rule does to a newly opened window: move it to the
/// rule's workspace, when that is known and the window is elsewhere (then
/// focus it), and run the rule's focus command.
pub struct RuleOutcome {
    pub moves: Vec<Action>,
    pub command: Option<String>,
}

/// The move of window `w` that `rule` calls for, given the workspaces.
pub open spec fn rule_move_target(rule: WindowRuleConfig, w: Window, wss: Seq<Workspace>) -> Option<int> {
    match rule.open_on_workspace {
        Some(t) => match resolve_workspace(wss, t@) {
            Some(i) => if w.workspace_id == Some(wss[i].id) {
                None
            } else {
                Some(i)
            },
            None => None,
        },
        None => None,
    }
}

pub fn rule_outcome(rule: &WindowRuleConfig, w: &Window, workspaces: &Vec<Workspace>) -> (r: RuleOutcome)
    ensures
        r.command == rule.focus_command,
        match rule_move_target(*rule, *w, workspaces@) {
            Some(i) => r.moves@.len() == 2 && (r.moves@[0] matches Action::MoveWindowToWorkspace { window_id, reference, focus } && window_id == w.id && !focus && reference_for(workspace_key(workspaces@[i]), reference)) && r.moves@[1] == Action::FocusWindow { id: w.id },
            None => r.moves@.len() == 0,
        },
{
    let mut moves: Vec<Action> = Vec::new();
    if let Some(t) = &rule.open_on_workspace {
        if let Some(i) = match_workspace(t.as_str(), workspaces) {
            if w.workspace_id != Some(workspaces[i].id) {
                let key = workspace_key_of(&workspaces[i]);
                let reference = workspace_reference(key.as_str());
                moves.push(Action::MoveWindowToWorkspace { window_id: w.id, reference, focus: false });
                moves.push(Action::FocusWindow { id: w.id });
            }
        }
    }
    let command = match &rule.focus_command {
        Some(c) => Some(c.clone()),
        None => None,
    };
    RuleOutcome { moves, command }
}

/// Focus commands run again for the same window only after this many milliseconds.
pub const FOCUS_COMMAND_GAP_MS: u64 = 200;

/// The last focus command run: for which window, and when (milliseconds).
pub struct FocusCommandGuard {
    pub last: Option<(u64, u64)>,
}

pub open spec fn guard_allows(last: Option<(u64, u64)>, id: u64, now: u64) -> bool {
    match last {
        Some((w, t)) => !(w == id && now >= t && now - t < FOCUS_COMMAND_GAP_MS),
        None => true,
    }
}

impl FocusCommandGuard {
    pub fn new() -> (r: FocusCommandGuard)
        ensures
            r.last is None,
    {
        FocusCommandGuard { last: None }
    }

    /// Whether a focus command for window `id` may run at time `now`: not when
    /// one ran for the same window less than the gap before.
    pub fn allows(&self, id: u64, now: u64) -> (r: bool)
        ensures
            r == guard_allows(self.last, id, now),
    {
        match self.last {
            Some((w, t)) => !(w == id && now >= t && now - t < FOCUS_COMMAND_GAP_MS),
            None => true,
        }
    }

    /// Records that a focus command ran for window `id` at time `now`.
    pub fn record(&mut self, id: u64, now: u64)
        ensures
            final(self).last == Some((id, now)),
    {
        self.last = Some((id, now));
    }
}

/// Text after the last `/`.
pub open spec fn basename(s: Seq<char>) -> Seq<char>
    decreases s.len(),
{
    if s.len() == 0 {
        s
    } else if s.last() == '/' {
        seq![]
    } else {
        basename(s.drop_last()).push(s.last())
    }
}

/// Application id pattern of a singleton: the configured one, else the file
/// name of the command's first word.
pub open spec fn singleton_pattern_text(app_id: Option<Seq<char>>, command: Seq<char>) -> Seq<char> {
    match app_id {
        Some(a) => a,
        None => {
            let ts = tokens(command);
            basename(if ts.len() > 0 { ts[0] } else { command })
        },
    }
}

fn basename_of(s: &Vec<char>) -> (r: Vec<char>)
    ensures
        r@ == basename(s@),
{
    let mut r: Vec<char> = Vec::new();
    let mut i: usize = 0;
    while i < s.len()
        invariant
            i <= s@.len(),
            r@ == basename(s@.take(i as int)),
        decreases s.len() - i,
    {
        assert(s@.take(i + 1).drop_last() =~= s@.take(i as int));
        if s[i] == '/' {
            r = Vec::new();
            assert(r@ =~= basename(s@.take(i + 1)));
        } else {
            r.push(s[i]);
        }
        i += 1;
    }
    assert(s@.take(s@.len() as int) =~= s@);
    r
}

/// The pattern a singleton's window is found by.
pub fn singleton_pattern(config: &SingletonConfig) -> (r: String)
    ensures
        r@ == singleton_pattern_text(
            match config.app_id {
                Some(a) => Some(a@),
                None => None,
            },
            config.command@,
        ),
{
    if let Some(a) = &config.app_id {
        return a.clone();
    }
    let cs = chars_of(config.command.as_str());
    let ts = split_tokens(&cs);
    let word = if ts.len() > 0 { basename_of(&ts[0]) } else { basename_of(&cs) };
    string_of(&word)
}

} // verus!
