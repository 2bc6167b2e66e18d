//! The configuration as typed values: defaults, enable flags, per-name
//! entries, and the readings of size and direction strings.

use vstd::prelude::*;
use crate::geometry::Direction;
use crate::size::{parse_size_text, size_of_text};
use crate::swallow::{SwallowExclude, SwallowRule};
use crate::text::str_eq;

verus! {

#[derive(Clone, Debug)]
pub struct NiriConfig {
    /// Path of the compositor's socket, when not the default.
    pub socket_path: Option<String>,
}

/// Defaults for scratchpads added from a live window.
#[derive(Clone, Debug)]
pub struct ScratchpadDefaults {
    pub default_size: String,
    pub default_margin: u32,
    /// Workspace that hidden scratchpads are parked on.
    pub move_to_workspace: Option<String>,
}

/// Per-plugin enable flags; an absent flag takes the plugin's default.
#[derive(Clone, Debug)]
pub struct PluginsConfig {
    pub scratchpads: Option<bool>,
    pub empty: Option<bool>,
    pub window_rule: Option<bool>,
    pub autofill: Option<bool>,
    pub singleton: Option<bool>,
    pub window_order: Option<bool>,
    pub swallow: Option<bool>,
    /// Commands for empty workspaces in the older `[piri.plugins.empty.workspaces]` form.
    pub empty_config: Option<EmptyPluginConfig>,
}

#[derive(Clone, Debug)]
pub struct WindowOrderSettings {
    pub enable_event_listener: bool,
    pub default_weight: u32,
    pub workspaces: Vec<String>,
}

#[derive(Clone, Debug)]
pub struct SwallowSettings {
    pub use_pid_matching: bool,
    pub exclude: Option<SwallowExclude>,
}

#[derive(Clone, Debug)]
pub struct PiriConfig {
    pub scratchpad: ScratchpadDefaults,
    pub plugins: PluginsConfig,
    pub window_order: WindowOrderSettings,
    pub swallow: SwallowSettings,
}

/// One configured scratchpad.
#[derive(Clone, Debug)]
pub struct ScratchpadConfig {
    pub direction: Direction,
    /// Shell command that launches the application.
    pub command: String,
    /// Application id of the window that the scratchpad holds.
    pub app_id: String,
    /// Size as `"<w>% <h>%"` of the output.
    pub size: String,
    /// Distance from the screen edge, in pixels.
    pub margin: u32,
}

#[derive(Clone, Debug)]
pub struct EmptyWorkspaceConfig {
    /// Command run when the workspace is activated empty.
    pub command: String,
}

#[derive(Clone, Debug)]
pub struct SingletonConfig {
    pub command: String,
    pub app_id: Option<String>,
    /// Command run once after the window first appears.
    pub on_created_command: Option<String>,
}

/// A window rule: patterns to match, and what to do with a matching window.
#[derive(Clone, Debug)]
pub struct WindowRuleConfig {
    pub app_id: Option<Vec<String>>,
    pub title: Option<Vec<String>>,
    pub open_on_workspace: Option<String>,
    pub focus_command: Option<String>,
    pub focus_command_once: bool,
}

#[derive(Clone, Debug)]
pub struct WindowRulePluginConfig {
    pub rules: Vec<WindowRuleConfig>,
}

/// Commands by workspace name or idx.
#[derive(Clone, Debug)]
pub struct EmptyPluginConfig {
    pub workspaces: Vec<(String, String)>,
}

#[derive(Clone, Debug)]
pub struct Config {
    pub niri: NiriConfig,
    pub piri: PiriConfig,
    pub scratchpads: Vec<(String, ScratchpadConfig)>,
    pub empty: Vec<(String, EmptyWorkspaceConfig)>,
    pub singleton: Vec<(String, SingletonConfig)>,
    pub window_rule: Vec<WindowRuleConfig>,
    /// Weights by application id.
    pub window_order: Vec<(String, u32)>,
    pub swallow: Vec<SwallowRule>,
}

/// Value of the first entry whose key is `k`.
pub open spec fn lookup<V>(e: Seq<(String, V)>, k: Seq<char>) -> Option<V>
    decreases e.len(),
{
    if e.len() == 0 {
        None
    } else if e[0].0@ == k {
        Some(e[0].1)
    } else {
        lookup(e.drop_first(), k)
    }
}

/// Index of the first entry whose key is `k`.
pub fn key_index<V>(e: &Vec<(String, V)>, k: &str) -> (r: Option<usize>)
    ensures
        r matches Some(i) ==> i < e@.len() && lookup(e@, k@) == Some(e@[i as int].1),
        r is None ==> lookup(e@, k@) is None,
{
    let mut i: usize = 0;
    assert(e@.subrange(0, e@.len() as int) =~= e@);
    while i < e.len()
        invariant
            i <= e@.len(),
            lookup(e@, k@) == lookup(e@.subrange(i as int, e@.len() as int), k@),
        decreases e.len() - i,
    {
        let ghost rest = e@.subrange(i as int, e@.len() as int);
        assert(rest.drop_first() =~= e@.subrange(i + 1, e@.len() as int));
        assert(rest[0] == e@[i as int]);
        if str_eq(e[i].0.as_str(), k) {
            return Some(i);
        }
        i += 1;
    }
    None
}

pub const DEFAULT_MARGIN: u32 = 50;

pub open spec fn default_size_text() -> Seq<char> {
    seq!['7', '5', '%', ' ', '6', '0', '%']
}

/// Size of a scratchpad added from a live window when the configuration names none.
pub fn default_size() -> (r: String)
    ensures
        r@ == default_size_text(),
{
    let mut s = String::new();
    crate::text::push_char(&mut s, '7');
    crate::text::push_char(&mut s, '5');
    crate::text::push_char(&mut s, '%');
    crate::text::push_char(&mut s, ' ');
    crate::text::push_char(&mut s, '6');
    crate::text::push_char(&mut s, '0');
    crate::text::push_char(&mut s, '%');
    assert(s@ =~= default_size_text());
    s
}

/// Margin of a scratchpad added from a live window when the configuration names none.
pub fn default_margin() -> (r: u32)
    ensures
        r == DEFAULT_MARGIN,
{
    DEFAULT_MARGIN
}

impl Default for ScratchpadDefaults {
    fn default() -> (r: Self)
        ensures
            r.default_size@ == default_size_text(),
            r.default_margin == DEFAULT_MARGIN,
            r.move_to_workspace is None,
    {
        ScratchpadDefaults { default_size: default_size(), default_margin: default_margin(), move_to_workspace: None }
    }
}

impl Default for PluginsConfig {
    fn default() -> (r: Self)
        ensures
            r.scratchpads is None && r.empty is None && r.window_rule is None && r.autofill is None,
            r.singleton is None && r.window_order is None && r.swallow is None,
            r.empty_config is None,
    {
        PluginsConfig {
            scratchpads: None,
            empty: None,
            window_rule: None,
            autofill: None,
            singleton: None,
            window_order: None,
            swallow: None,
            empty_config: None,
        }
    }
}

impl Default for Config {
    fn default() -> (r: Self)
        ensures
            r.niri.socket_path is None,
            r.piri.scratchpad.default_size@ == default_size_text(),
            r.piri.scratchpad.default_margin == DEFAULT_MARGIN,
            r.piri.scratchpad.move_to_workspace is None,
            r.piri.plugins.scratchpads is None && r.piri.plugins.empty is None,
            r.piri.plugins.window_rule is None && r.piri.plugins.autofill is None,
            r.piri.plugins.singleton is None && r.piri.plugins.window_order is None,
            r.piri.plugins.swallow is None && r.piri.plugins.empty_config is None,
            !r.piri.window_order.enable_event_listener,
            r.piri.window_order.default_weight == 0,
            r.piri.window_order.workspaces@.len() == 0,
            r.piri.swallow.use_pid_matching,
            r.piri.swallow.exclude is None,
            r.scratchpads@.len() == 0 && r.empty@.len() == 0 && r.singleton@.len() == 0,
            r.window_rule@.len() == 0 && r.window_order@.len() == 0 && r.swallow@.len() == 0,
    {
        Config {
            niri: NiriConfig { socket_path: None },
            piri: PiriConfig {
                scratchpad: ScratchpadDefaults::default(),
                plugins: PluginsConfig::default(),
                window_order: WindowOrderSettings {
                    enable_event_listener: false,
                    default_weight: 0,
                    workspaces: Vec::new(),
                },
                swallow: SwallowSettings { use_pid_matching: true, exclude: None },
            },
            scratchpads: Vec::new(),
            empty: Vec::new(),
            singleton: Vec::new(),
            window_rule: Vec::new(),
            window_order: Vec::new(),
            swallow: Vec::new(),
        }
    }
}

pub open spec fn view_list(o: Option<Vec<String>>) -> Option<Seq<String>> {
    match o {
        Some(v) => Some(v@),
        None => None,
    }
}

pub open spec fn rule_view(r: WindowRuleConfig) -> (Option<Seq<String>>, Option<Seq<String>>, Option<String>, Option<String>, bool) {
    (view_list(r.app_id), view_list(r.title), r.open_on_workspace, r.focus_command, r.focus_command_once)
}

pub open spec fn rules_view(rs: Seq<WindowRuleConfig>) -> Seq<(Option<Seq<String>>, Option<Seq<String>>, Option<String>, Option<String>, bool)> {
    Seq::new(rs.len(), |i: int| rule_view(rs[i]))
}

/// A copy of a list of strings.
pub fn clone_strings(v: &Vec<String>) -> (r: Vec<String>)
    ensures
        r@ == v@,
{
    let mut r: Vec<String> = Vec::new();
    let mut i: usize = 0;
    while i < v.len()
        invariant
            i <= v@.len(),
            r@ =~= v@.subrange(0, i as int),
        decreases v.len() - i,
    {
        r.push(v[i].clone());
        i += 1;
    }
    assert(r@ =~= v@);
    r
}

pub fn clone_list(o: &Option<Vec<String>>) -> (r: Option<Vec<String>>)
    ensures
        view_list(r) == view_list(*o),
{
    match o {
        Some(v) => Some(clone_strings(v)),
        None => None,
    }
}

fn clone_opt(o: &Option<String>) -> (r: Option<String>)
    ensures
        r == *o,
{
    match o {
        Some(s) => Some(s.clone()),
        None => None,
    }
}

impl WindowRuleConfig {
    /// A copy with the same patterns and actions.
    pub fn duplicate(&self) -> (r: WindowRuleConfig)
        ensures
            rule_view(r) == rule_view(*self),
    {
        WindowRuleConfig {
            app_id: clone_list(&self.app_id),
            title: clone_list(&self.title),
            open_on_workspace: clone_opt(&self.open_on_workspace),
            focus_command: clone_opt(&self.focus_command),
            focus_command_once: self.focus_command_once,
        }
    }
}

/// A copy of a list of string pairs.
pub fn clone_pairs(v: &Vec<(String, String)>) -> (r: Vec<(String, String)>)
    ensures
        r@ == v@,
{
    let mut r: Vec<(String, String)> = Vec::new();
    let mut i: usize = 0;
    while i < v.len()
        invariant
            i <= v@.len(),
            r@ =~= v@.subrange(0, i as int),
        decreases v.len() - i,
    {
        r.push((v[i].0.clone(), v[i].1.clone()));
        i += 1;
    }
    assert(r@ =~= v@);
    r
}

/// Commands for empty workspaces in the newer `[empty.<ws>]` form, as pairs.
pub open spec fn empty_pairs(e: Seq<(String, EmptyWorkspaceConfig)>) -> Seq<(String, String)> {
    Seq::new(e.len(), |i: int| (e[i].0, e[i].1.command))
}

impl Config {
    pub fn get_scratchpad(&self, name: &str) -> (r: Option<&ScratchpadConfig>)
        ensures
            match r {
                Some(c) => lookup(self.scratchpads@, name@) == Some(*c),
                None => lookup(self.scratchpads@, name@) is None,
            },
    {
        match key_index(&self.scratchpads, name) {
            Some(i) => Some(&self.scratchpads[i].1),
            None => None,
        }
    }

    pub fn get_singleton(&self, name: &str) -> (r: Option<&SingletonConfig>)
        ensures
            match r {
                Some(c) => lookup(self.singleton@, name@) == Some(*c),
                None => lookup(self.singleton@, name@) is None,
            },
    {
        match key_index(&self.singleton, name) {
            Some(i) => Some(&self.singleton[i].1),
            None => None,
        }
    }

    /// Commands for empty workspaces: the `[empty.<ws>]` entries when there are
    /// any, else the older form, else none.
    pub fn get_empty_plugin_config(&self) -> (r: Option<EmptyPluginConfig>)
        ensures
            self.empty@.len() > 0 ==> (r matches Some(c) && c.workspaces@ == empty_pairs(self.empty@)),
            self.empty@.len() == 0 ==> match self.piri.plugins.empty_config {
                Some(old) => (r matches Some(c) && c.workspaces@ == old.workspaces@),
                None => r is None,
            },
    {
        if self.empty.len() > 0 {
            let mut ws: Vec<(String, String)> = Vec::new();
            let mut i: usize = 0;
            while i < self.empty.len()
                invariant
                    i <= self.empty@.len(),
                    ws@ =~= empty_pairs(self.empty@).subrange(0, i as int),
                decreases self.empty.len() - i,
            {
                ws.push((self.empty[i].0.clone(), self.empty[i].1.command.clone()));
                i += 1;
            }
            return Some(EmptyPluginConfig { workspaces: ws });
        }
        match &self.piri.plugins.empty_config {
            Some(c) => Some(EmptyPluginConfig { workspaces: clone_pairs(&c.workspaces) }),
            None => None,
        }
    }

    pub fn get_window_rule_plugin_config(&self) -> (r: Option<WindowRulePluginConfig>)
        ensures
            self.window_rule@.len() > 0 ==> (r matches Some(c) && rules_view(c.rules@) == rules_view(self.window_rule@)),
            self.window_rule@.len() == 0 ==> r is None,
    {
        if self.window_rule.len() > 0 {
            let mut rules: Vec<WindowRuleConfig> = Vec::new();
            let mut i: usize = 0;
            while i < self.window_rule.len()
                invariant
                    i <= self.window_rule@.len(),
                    rules_view(rules@) =~= rules_view(self.window_rule@).subrange(0, i as int),
                decreases self.window_rule.len() - i,
            {
                let ghost before = rules@;
                rules.push(self.window_rule[i].duplicate());
                assert(rules_view(rules@) =~= rules_view(before).push(rule_view(self.window_rule@[i as int])));
                i += 1;
            }
            assert(rules_view(self.window_rule@).subrange(0, self.window_rule@.len() as int) =~= rules_view(self.window_rule@));
            Some(WindowRulePluginConfig { rules })
        } else {
            None
        }
    }

    pub fn is_scratchpads_enabled(&self) -> (r: bool)
        ensures
            r == (self.piri.plugins.scratchpads == Some(true)),
    {
        self.piri.plugins.scratchpads == Some(true)
    }

    pub fn is_empty_enabled(&self) -> (r: bool)
        ensures
            r == (self.piri.plugins.empty == Some(true)),
    {
        self.piri.plugins.empty == Some(true)
    }

    /// Enabled when the flag says so; without a flag, when rules are configured.
    pub fn is_window_rule_enabled(&self) -> (r: bool)
        ensures
            r == match self.piri.plugins.window_rule {
                Some(b) => b,
                None => self.window_rule@.len() > 0,
            },
    {
        match self.piri.plugins.window_rule {
            Some(b) => b,
            None => self.window_rule.len() > 0,
        }
    }

    pub fn is_autofill_enabled(&self) -> (r: bool)
        ensures
            r == (self.piri.plugins.autofill == Some(true)),
    {
        self.piri.plugins.autofill == Some(true)
    }

    pub fn is_singleton_enabled(&self) -> (r: bool)
        ensures
            r == (self.piri.plugins.singleton == Some(true)),
    {
        self.piri.plugins.singleton == Some(true)
    }

    pub fn is_window_order_enabled(&self) -> (r: bool)
        ensures
            r == (self.piri.plugins.window_order == Some(true)),
    {
        self.piri.plugins.window_order == Some(true)
    }

    pub fn is_swallow_enabled(&self) -> (r: bool)
        ensures
            r == (self.piri.plugins.swallow == Some(true)),
    {
        self.piri.plugins.swallow == Some(true)
    }
}

impl ScratchpadConfig {
    /// Width and height percentages of the size string.
    pub fn parse_size(&self) -> (r: Option<(u32, u32)>)
        ensures
            r == size_of_text(self.size@),
    {
        parse_size_text(self.size.as_str())
    }
}

pub open spec fn direction_text(d: Direction) -> Seq<char> {
    match d {
        Direction::FromTop => seq!['f', 'r', 'o', 'm', 'T', 'o', 'p'],
        Direction::FromBottom => seq!['f', 'r', 'o', 'm', 'B', 'o', 't', 't', 'o', 'm'],
        Direction::FromLeft => seq!['f', 'r', 'o', 'm', 'L', 'e', 'f', 't'],
        Direction::FromRight => seq!['f', 'r', 'o', 'm', 'R', 'i', 'g', 'h', 't'],
    }
}

fn chars_are(s: &Vec<char>, Ghost(t): Ghost<Seq<char>>, lit: &[char]) -> (r: bool)
    requires
        lit@ == t,
    ensures
        r == (s@ == t),
{
    if s.len() != lit.len() {
        return false;
    }
    let mut i: usize = 0;
    while i < s.len()
        invariant
            s@.len() == t.len(),
            lit@ == t,
            i <= s@.len(),
            forall|k: int| 0 <= k < i ==> s@[k] == t[k],
        decreases s.len() - i,
    {
        if s[i] != lit[i] {
            return false;
        }
        i += 1;
    }
    assert(s@ =~= t);
    true
}

/// The direction written `fromTop`, `fromBottom`, `fromLeft` or `fromRight`.
pub fn parse_direction(s: &str) -> (r: Option<Direction>)
    ensures
        r matches Some(d) ==> direction_text(d) == s@,
        r is None ==> forall|d: Direction| direction_text(d) != s@,
{
    let cs = crate::text::chars_of(s);
    if chars_are(&cs, Ghost(direction_text(Direction::FromTop)), &['f', 'r', 'o', 'm', 'T', 'o', 'p']) {
        return Some(Direction::FromTop);
    }
    if chars_are(&cs, Ghost(direction_text(Direction::FromBottom)), &['f', 'r', 'o', 'm', 'B', 'o', 't', 't', 'o', 'm']) {
        return Some(Direction::FromBottom);
    }
    if chars_are(&cs, Ghost(direction_text(Direction::FromLeft)), &['f', 'r', 'o', 'm', 'L', 'e', 'f', 't']) {
        return Some(Direction::FromLeft);
    }
    if chars_are(&cs, Ghost(direction_text(Direction::FromRight)), &['f', 'r', 'o', 'm', 'R', 'i', 'g', 'h', 't']) {
        return Some(Direction::FromRight);
    }
    None
}

} // verus!
