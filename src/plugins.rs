//! The set of running plugins: which are enabled, how a configuration change
//! adds, updates or removes each, and which plugin a request goes to.

use vstd::prelude::*;
use crate::config::Config;
use crate::ipc::{IpcRequest, IpcResponse};
use vstd::string::StringExecFns;
use crate::niri::{Event, NiriIpc};
use crate::scratchpads::{ScratchpadError, ScratchpadManager, slot_of};
use crate::config::{ScratchpadConfig, lookup};

verus! {

#[derive(Clone, Copy, Debug, PartialEq, Eq, Structural)]
pub enum PluginKind {
    Scratchpads,
    Empty,
    WindowRule,
    Autofill,
    Singleton,
    WindowOrder,
    Swallow,
}

/// What a configuration change did to one plugin.
#[derive(Clone, Copy, Debug, PartialEq, Eq, Structural)]
pub enum Transition {
    /// Running and still enabled: its configuration is replaced.
    Updated,
    /// Newly enabled: created.
    Created,
    /// Disabled: dropped.
    Removed,
    /// Neither running nor enabled.
    Unchanged,
}

/// Interface shared by the plugins.
pub trait Plugin {
    fn kind(&self) -> PluginKind;

    fn is_interested_in_event(&self, event: &Event) -> bool;
}

/// The kind of plugin that handles a request, if a plugin does.
pub open spec fn handler_kind(r: IpcRequest) -> Option<PluginKind> {
    match r {
        IpcRequest::ScratchpadToggle { .. } => Some(PluginKind::Scratchpads),
        IpcRequest::ScratchpadAdd { .. } => Some(PluginKind::Scratchpads),
        IpcRequest::SingletonToggle { .. } => Some(PluginKind::Singleton),
        IpcRequest::WindowOrderToggle => Some(PluginKind::WindowOrder),
        _ => None,
    }
}

pub fn request_handler_kind(r: &IpcRequest) -> (k: Option<PluginKind>)
    ensures
        k == handler_kind(*r),
{
    match r {
        IpcRequest::ScratchpadToggle { .. } => Some(PluginKind::Scratchpads),
        IpcRequest::ScratchpadAdd { .. } => Some(PluginKind::Scratchpads),
        IpcRequest::SingletonToggle { .. } => Some(PluginKind::Singleton),
        IpcRequest::WindowOrderToggle => Some(PluginKind::WindowOrder),
        _ => None,
    }
}

/// Whether the configuration enables a plugin.
pub open spec fn enabled_in(c: Config, k: PluginKind) -> bool {
    match k {
        PluginKind::Scratchpads => c.piri.plugins.scratchpads == Some(true),
        PluginKind::Empty => c.piri.plugins.empty == Some(true),
        PluginKind::WindowRule => match c.piri.plugins.window_rule {
            Some(b) => b,
            None => c.window_rule@.len() > 0,
        },
        PluginKind::Autofill => c.piri.plugins.autofill == Some(true),
        PluginKind::Singleton => c.piri.plugins.singleton == Some(true),
        PluginKind::WindowOrder => c.piri.plugins.window_order == Some(true),
        PluginKind::Swallow => c.piri.plugins.swallow == Some(true),
    }
}

pub fn is_enabled(c: &Config, k: PluginKind) -> (r: bool)
    ensures
        r == enabled_in(*c, k),
{
    match k {
        PluginKind::Scratchpads => c.is_scratchpads_enabled(),
        PluginKind::Empty => c.is_empty_enabled(),
        PluginKind::WindowRule => c.is_window_rule_enabled(),
        PluginKind::Autofill => c.is_autofill_enabled(),
        PluginKind::Singleton => c.is_singleton_enabled(),
        PluginKind::WindowOrder => c.is_window_order_enabled(),
        PluginKind::Swallow => c.is_swallow_enabled(),
    }
}

/// `s` without any `k`, in order.
pub open spec fn without_kind(s: Seq<PluginKind>, k: PluginKind) -> Seq<PluginKind>
    decreases s.len(),
{
    if s.len() == 0 {
        s
    } else {
        let r = without_kind(s.drop_last(), k);
        if s.last() == k {
            r
        } else {
            r.push(s.last())
        }
    }
}

proof fn lemma_without_kind(s: Seq<PluginKind>, k: PluginKind)
    ensures
        !without_kind(s, k).contains(k),
        forall|j: PluginKind| j != k ==> (#[trigger] without_kind(s, k).contains(j) <==> s.contains(j)),
    decreases s.len(),
{
    if s.len() > 0 {
        let p = s.drop_last();
        lemma_without_kind(p, k);
        let r = without_kind(p, k);
        assert forall|j: PluginKind| j != k implies (#[trigger] without_kind(s, k).contains(j) <==> s.contains(j)) by {
            assert(r.contains(j) <==> p.contains(j));
            if s.last() == k {
                assert(without_kind(s, k) == r);
            } else {
                assert(without_kind(s, k) == r.push(s.last()));
            }
            if s.contains(j) {
                let i = choose|i: int| 0 <= i < s.len() && s[i] == j;
                if i < s.len() - 1 {
                    assert(p[i] == j);
                } else {
                    assert(s.last() == j);
                    assert(r.push(s.last())[r.len() as int] == j);
                }
            }
            if p.contains(j) {
                let i = choose|i: int| 0 <= i < p.len() && p[i] == j;
                assert(s[i] == j);
            }
            if s.last() != k {
                let q = r.push(s.last());
                if q.contains(j) {
                    let i = choose|i: int| 0 <= i < q.len() && q[i] == j;
                    if i < r.len() {
                        assert(r[i] == j);
                    }
                }
                if r.contains(j) {
                    let i = choose|i: int| 0 <= i < r.len() && r[i] == j;
                    assert(q[i] == j);
                }
            }
        }
        if s.last() != k {
            let q = r.push(s.last());
            if q.contains(k) {
                let i = choose|i: int| 0 <= i < q.len() && q[i] == k;
                assert(i < r.len() ==> r[i] == k);
            }
        }
    }
}

/// Registry of the running plugins, in the order they were created.
pub struct PluginManager {
    plugins: Vec<PluginKind>,
}

impl View for PluginManager {
    type V = Seq<PluginKind>;

    closed spec fn view(&self) -> Seq<PluginKind> {
        self.plugins@
    }
}

/// Transition of plugin `k` when its enable flag becomes `enabled`.
pub open spec fn transition_for(running: bool, enabled: bool) -> Transition {
    if enabled {
        if running {
            Transition::Updated
        } else {
            Transition::Created
        }
    } else if running {
        Transition::Removed
    } else {
        Transition::Unchanged
    }
}

impl PluginManager {
    pub fn new() -> (r: PluginManager)
        ensures
            r@ == Seq::<PluginKind>::empty(),
    {
        PluginManager { plugins: Vec::new() }
    }

    pub fn contains(&self, k: PluginKind) -> (r: bool)
        ensures
            r == self@.contains(k),
    {
        let mut i: usize = 0;
        while i < self.plugins.len()
            invariant
                i <= self@.len(),
                forall|j: int| 0 <= j < i ==> self@[j] != k,
            decreases self.plugins.len() - i,
        {
            if self.plugins[i] == k {
                assert(self@[i as int] == k);
                return true;
            }
            i += 1;
        }
        false
    }

    /// Brings plugin `k` in line with its enable flag: a running one that is
    /// still enabled is updated, a missing one that is enabled is created at
    /// the end, a running one that is disabled is dropped.
    pub fn init_or_update_plugin(&mut self, k: PluginKind, enabled: bool) -> (t: Transition)
        ensures
            t == transition_for(old(self)@.contains(k), enabled),
            enabled ==> final(self)@.contains(k),
            !enabled ==> !final(self)@.contains(k),
            enabled && old(self)@.contains(k) ==> final(self)@ == old(self)@,
            enabled && !old(self)@.contains(k) ==> final(self)@ == old(self)@.push(k),
            !enabled ==> final(self)@ == without_kind(old(self)@, k),
            forall|j: PluginKind| j != k ==> (#[trigger] final(self)@.contains(j) <==> old(self)@.contains(j)),
    {
        let running = self.contains(k);
        if enabled {
            if running {
                Transition::Updated
            } else {
                self.plugins.push(k);
                proof {
                    assert(self@[self@.len() - 1] == k);
                    assert forall|j: PluginKind| j != k implies (#[trigger] self@.contains(j) <==> old(self)@.contains(j)) by {
                        if self@.contains(j) {
                            let i = choose|i: int| 0 <= i < self@.len() && self@[i] == j;
                            assert(old(self)@[i] == j);
                        }
                        if old(self)@.contains(j) {
                            let i = choose|i: int| 0 <= i < old(self)@.len() && old(self)@[i] == j;
                            assert(self@[i] == j);
                        }
                    }
                }
                Transition::Created
            }
        } else {
            let ghost before = self@;
            let mut r: Vec<PluginKind> = Vec::new();
            let mut i: usize = 0;
            while i < self.plugins.len()
                invariant
                    i <= self@.len(),
                    before == self@,
                    r@ == without_kind(before.take(i as int), k),
                decreases self.plugins.len() - i,
            {
                assert(before.take(i + 1).drop_last() =~= before.take(i as int));
                if self.plugins[i] != k {
                    r.push(self.plugins[i]);
                }
                i += 1;
            }
            assert(before.take(before.len() as int) =~= before);
            self.plugins = r;
            proof {
                lemma_without_kind(before, k);
            }
            if running {
                Transition::Removed
            } else {
                Transition::Unchanged
            }
        }
    }

    /// The first running plugin that handles `request`.
    pub fn handler_for(&self, request: &IpcRequest) -> (r: Option<PluginKind>)
        ensures
            r == match handler_kind(*request) {
                Some(k) => if self@.contains(k) {
                    Some(k)
                } else {
                    None
                },
                None => None,
            },
    {
        match request_handler_kind(request) {
            Some(k) => if self.contains(k) {
                Some(k)
            } else {
                None
            },
            None => None,
        }
    }

    /// The running plugins, in creation order.
    pub fn kinds(&self) -> (r: Vec<PluginKind>)
        ensures
            r@ == self@,
    {
        let mut r: Vec<PluginKind> = Vec::new();
        let mut i: usize = 0;
        while i < self.plugins.len()
            invariant
                i <= self@.len(),
                r@ == self@.subrange(0, i as int),
            decreases self.plugins.len() - i,
        {
            r.push(self.plugins[i]);
            assert(r@ =~= self@.subrange(0, i + 1));
            i += 1;
        }
        assert(self@.subrange(0, self@.len() as int) =~= self@);
        r
    }
}

/// Events that interest each plugin.
pub open spec fn interested(k: PluginKind, e: Event) -> bool {
    match k {
        PluginKind::Scratchpads => false,
        PluginKind::Singleton => false,
        PluginKind::Empty => e is WorkspaceActivated,
        PluginKind::WindowRule => e is WindowOpenedOrChanged || e is WindowFocusChanged,
        PluginKind::Autofill => e is WindowClosed || e is WindowLayoutsChanged,
        PluginKind::WindowOrder => e is WindowLayoutsChanged || e is WindowOpenedOrChanged,
        PluginKind::Swallow => e is WindowOpenedOrChanged || e is WindowClosed || e is WindowFocusTimestampChanged,
    }
}

pub fn is_interested(k: PluginKind, e: &Event) -> (r: bool)
    ensures
        r == interested(k, *e),
{
    match k {
        PluginKind::Scratchpads => false,
        PluginKind::Singleton => false,
        PluginKind::Empty => matches!(e, Event::WorkspaceActivated { .. }),
        PluginKind::WindowRule => matches!(e, Event::WindowOpenedOrChanged { .. } | Event::WindowFocusChanged { .. }),
        PluginKind::Autofill => matches!(e, Event::WindowClosed { .. } | Event::WindowLayoutsChanged),
        PluginKind::WindowOrder => matches!(e, Event::WindowLayoutsChanged | Event::WindowOpenedOrChanged { .. }),
        PluginKind::Swallow => matches!(e, Event::WindowOpenedOrChanged { .. } | Event::WindowClosed { .. } | Event::WindowFocusTimestampChanged { .. }),
    }
}

/// Why a request that no running plugin handles fails.
#[derive(Clone, Copy, Debug, PartialEq, Eq, Structural)]
pub enum Unhandled {
    /// The plugin is enabled but did not start.
    NotInitialized(PluginKind),
    /// The plugin is not enabled.
    NotEnabled(PluginKind),
}

/// What the daemon answers a request that no plugin took: `Ping` gets a pong,
/// `Shutdown` and `Reload` succeed (the daemon does them itself), and a
/// plugin request fails, saying whether the plugin is enabled.
pub enum Fallback {
    Pong,
    Shutdown,
    Reload,
    Fail(Unhandled),
}

pub open spec fn fallback_for(c: Config, r: IpcRequest) -> Fallback {
    match r {
        IpcRequest::Ping => Fallback::Pong,
        IpcRequest::Shutdown => Fallback::Shutdown,
        IpcRequest::Reload => Fallback::Reload,
        _ => {
            let k = handler_kind(r)->Some_0;
            if enabled_in(c, k) {
                Fallback::Fail(Unhandled::NotInitialized(k))
            } else {
                Fallback::Fail(Unhandled::NotEnabled(k))
            }
        },
    }
}

pub fn fallback(c: &Config, r: &IpcRequest) -> (f: Fallback)
    ensures
        f == fallback_for(*c, *r),
{
    match r {
        IpcRequest::Ping => Fallback::Pong,
        IpcRequest::Shutdown => Fallback::Shutdown,
        IpcRequest::Reload => Fallback::Reload,
        _ => {
            let k = match request_handler_kind(r) {
                Some(k) => k,
                None => PluginKind::Scratchpads,
            };
            if is_enabled(c, k) {
                Fallback::Fail(Unhandled::NotInitialized(k))
            } else {
                Fallback::Fail(Unhandled::NotEnabled(k))
            }
        },
    }
}

pub open spec fn label_text(k: PluginKind) -> Seq<char> {
    match k {
        PluginKind::Scratchpads => "Scratchpads"@,
        PluginKind::Empty => "Empty"@,
        PluginKind::WindowRule => "WindowRule"@,
        PluginKind::Autofill => "Autofill"@,
        PluginKind::Singleton => "Singleton"@,
        PluginKind::WindowOrder => "WindowOrder"@,
        PluginKind::Swallow => "Swallow"@,
    }
}

/// Key of the plugin's enable flag under `[piri.plugins]`.
pub open spec fn key_text(k: PluginKind) -> Seq<char> {
    match k {
        PluginKind::Scratchpads => "scratchpads"@,
        PluginKind::Empty => "empty"@,
        PluginKind::WindowRule => "window_rule"@,
        PluginKind::Autofill => "autofill"@,
        PluginKind::Singleton => "singleton"@,
        PluginKind::WindowOrder => "window_order"@,
        PluginKind::Swallow => "swallow"@,
    }
}

pub fn plugin_label(k: PluginKind) -> (r: &'static str)
    ensures
        r@ == label_text(k),
{
    match k {
        PluginKind::Scratchpads => "Scratchpads",
        PluginKind::Empty => "Empty",
        PluginKind::WindowRule => "WindowRule",
        PluginKind::Autofill => "Autofill",
        PluginKind::Singleton => "Singleton",
        PluginKind::WindowOrder => "WindowOrder",
        PluginKind::Swallow => "Swallow",
    }
}

pub fn plugin_key(k: PluginKind) -> (r: &'static str)
    ensures
        r@ == key_text(k),
{
    match k {
        PluginKind::Scratchpads => "scratchpads",
        PluginKind::Empty => "empty",
        PluginKind::WindowRule => "window_rule",
        PluginKind::Autofill => "autofill",
        PluginKind::Singleton => "singleton",
        PluginKind::WindowOrder => "window_order",
        PluginKind::Swallow => "swallow",
    }
}

/// What the client is told when no running plugin takes its request.
pub open spec fn unhandled_text(u: Unhandled) -> Seq<char> {
    match u {
        Unhandled::NotInitialized(k) => label_text(k)
            + " plugin is enabled but not initialized. Please restart the daemon."@,
        Unhandled::NotEnabled(k) => label_text(k)
            + " plugin is not enabled. Please enable it in the configuration file (piri.plugins."@
            + key_text(k) + " = true)."@,
    }
}

impl Unhandled {
    pub fn message(&self) -> (r: String)
        ensures
            r@ == unhandled_text(*self),
    {
        match self {
            Unhandled::NotInitialized(k) => {
                let mut s = String::from_str(plugin_label(*k));
                s.append(" plugin is enabled but not initialized. Please restart the daemon.");
                s
            },
            Unhandled::NotEnabled(k) => {
                let mut s = String::from_str(plugin_label(*k));
                s.append(" plugin is not enabled. Please enable it in the configuration file (piri.plugins.");
                s.append(plugin_key(*k));
                s.append(" = true).");
                s
            },
        }
    }
}

/// The response for a request that fails as unhandled.
pub fn unhandled_response(u: Unhandled) -> (r: IpcResponse)
    ensures
        r matches IpcResponse::Error(m) && m@ == unhandled_text(u),
{
    IpcResponse::Error(u.message())
}

/// Once a configuration that disables a plugin has been applied, requests
/// for it go to no plugin and fail as not enabled.
pub proof fn lemma_disabled_plugin_refuses(before: Seq<PluginKind>, after: Seq<PluginKind>, c: Config, r: IpcRequest)
    requires
        handler_kind(r) is Some,
        !enabled_in(c, handler_kind(r)->Some_0),
        after == without_kind(before, handler_kind(r)->Some_0),
    ensures
        !after.contains(handler_kind(r)->Some_0),
        fallback_for(c, r) == Fallback::Fail(Unhandled::NotEnabled(handler_kind(r)->Some_0)),
{
    lemma_without_kind(before, handler_kind(r)->Some_0);
}

/// The scratchpads plugin: the slots, and the configuration they are
/// toggled with.
pub struct ScratchpadsPlugin {
    pub manager: ScratchpadManager,
    pub config: Config,
}

impl ScratchpadsPlugin {
    pub fn new(niri: NiriIpc) -> (r: ScratchpadsPlugin)
        ensures
            r.manager@.len() == 0,
    {
        ScratchpadsPlugin { manager: ScratchpadManager::new(niri), config: Config::default() }
    }

    /// Takes a new configuration; the slots keep.
    pub fn update_config(&mut self, config: Config)
        ensures
            final(self).config == config,
            final(self).manager@ == old(self).manager@,
    {
        self.config = config;
    }

    /// Configuration to toggle `name` with: the configured one, else that of
    /// an added slot; unknown names are refused.
    pub fn config_for(&self, name: &str) -> (r: Result<ScratchpadConfig, ScratchpadError>)
        ensures
            match lookup(self.config.scratchpads@, name@) {
                Some(c) => r == Ok::<ScratchpadConfig, ScratchpadError>(c),
                None => match slot_of(self.manager@, name@) {
                    Some(s) => if s.is_dynamic {
                        r == Ok::<ScratchpadConfig, ScratchpadError>(s.config)
                    } else {
                        r matches Err(ScratchpadError::NotFound(n)) && n@ == name@
                    },
                    None => r matches Err(ScratchpadError::NotFound(n)) && n@ == name@,
                },
            },
    {
        match self.config.get_scratchpad(name) {
            Some(c) => Ok(c.duplicate()),
            None => match self.manager.slot(name) {
                Some(s) => if s.is_dynamic {
                    Ok(s.config)
                } else {
                    Err(ScratchpadError::NotFound(name.to_owned()))
                },
                None => Err(ScratchpadError::NotFound(name.to_owned())),
            },
        }
    }
}

impl Plugin for ScratchpadsPlugin {
    fn kind(&self) -> PluginKind {
        PluginKind::Scratchpads
    }

    fn is_interested_in_event(&self, event: &Event) -> bool {
        false
    }
}

impl Plugin for crate::window_order::WindowOrderPlugin {
    fn kind(&self) -> PluginKind {
        PluginKind::WindowOrder
    }

    fn is_interested_in_event(&self, event: &Event) -> bool {
        is_interested(PluginKind::WindowOrder, event)
    }
}

} // verus!
