//! Reading the typed configuration out of a parsed configuration document.

use vstd::prelude::*;
use crate::config::{
    Config, EmptyWorkspaceConfig, NiriConfig, PiriConfig, PluginsConfig, ScratchpadConfig,
    ScratchpadDefaults, SingletonConfig, SwallowSettings, WindowOrderSettings, WindowRuleConfig,
    default_margin, default_size, direction_text, key_index, lookup, parse_direction, DEFAULT_MARGIN,
    default_size_text, rule_view, rules_view, view_list,
};
use crate::geometry::Direction;
use crate::swallow::{SwallowExclude, SwallowRule, swallow_rule_view, swallow_rules_view};

verus! {

/// A value of the configuration document.
#[derive(Debug)]
pub enum ConfigValue {
    Str(String),
    Int(i64),
    Bool(bool),
    Array(Vec<ConfigValue>),
    Table(Vec<(String, ConfigValue)>),
    /// A value of a kind the configuration never uses (a float, a date).
    Other,
}

pub type ConfigTable = Vec<(String, ConfigValue)>;

pub open spec fn str_of(v: Option<ConfigValue>) -> Option<String> {
    match v {
        Some(ConfigValue::Str(s)) => Some(s),
        _ => None,
    }
}

pub open spec fn bool_of(v: Option<ConfigValue>) -> Option<bool> {
    match v {
        Some(ConfigValue::Bool(b)) => Some(b),
        _ => None,
    }
}

/// An integer that fits in a `u32`.
pub open spec fn u32_of(v: Option<ConfigValue>) -> Option<u32> {
    match v {
        Some(ConfigValue::Int(i)) => if 0 <= i <= u32::MAX {
            Some(i as u32)
        } else {
            None
        },
        _ => None,
    }
}

pub open spec fn table_of(v: Option<ConfigValue>) -> Option<Seq<(String, ConfigValue)>> {
    match v {
        Some(ConfigValue::Table(t)) => Some(t@),
        _ => None,
    }
}

/// All strings of `items`, when every item is one.
pub open spec fn all_strs(items: Seq<ConfigValue>) -> Option<Seq<String>>
    decreases items.len(),
{
    if items.len() == 0 {
        Some(seq![])
    } else {
        match (all_strs(items.drop_last()), items.last()) {
            (Some(r), ConfigValue::Str(s)) => Some(r.push(s)),
            _ => None,
        }
    }
}

/// A string, or an array of strings, as a list.
pub open spec fn str_list_of(v: Option<ConfigValue>) -> Option<Seq<String>> {
    match v {
        Some(ConfigValue::Str(s)) => Some(seq![s]),
        Some(ConfigValue::Array(items)) => all_strs(items@),
        _ => None,
    }
}


fn get<'a>(t: &'a ConfigTable, k: &str) -> (r: Option<&'a ConfigValue>)
    ensures
        match r {
            Some(v) => lookup(t@, k@) == Some(*v),
            None => lookup(t@, k@) is None,
        },
{
    match key_index(t, k) {
        Some(i) => Some(&t[i].1),
        None => None,
    }
}

fn get_str(t: &ConfigTable, k: &str) -> (r: Option<String>)
    ensures
        r == str_of(lookup(t@, k@)),
{
    match get(t, k) {
        Some(ConfigValue::Str(s)) => Some(s.clone()),
        _ => None,
    }
}

fn get_bool(t: &ConfigTable, k: &str) -> (r: Option<bool>)
    ensures
        r == bool_of(lookup(t@, k@)),
{
    match get(t, k) {
        Some(ConfigValue::Bool(b)) => Some(*b),
        _ => None,
    }
}

fn get_u32(t: &ConfigTable, k: &str) -> (r: Option<u32>)
    ensures
        r == u32_of(lookup(t@, k@)),
{
    match get(t, k) {
        Some(ConfigValue::Int(i)) => if 0 <= *i && *i <= 4294967295i64 {
            Some(*i as u32)
        } else {
            None
        },
        _ => None,
    }
}

fn get_table<'a>(t: &'a ConfigTable, k: &str) -> (r: Option<&'a ConfigTable>)
    ensures
        match r {
            Some(x) => table_of(lookup(t@, k@)) == Some(x@),
            None => table_of(lookup(t@, k@)) is None,
        },
{
    match get(t, k) {
        Some(ConfigValue::Table(x)) => Some(x),
        _ => None,
    }
}

fn get_str_list(t: &ConfigTable, k: &str) -> (r: Option<Vec<String>>)
    ensures
        view_list(r) == str_list_of(lookup(t@, k@)),
{
    match get(t, k) {
        Some(ConfigValue::Str(s)) => {
            let mut v: Vec<String> = Vec::new();
            v.push(s.clone());
            assert(v@ =~= seq![*s]);
            Some(v)
        },
        Some(ConfigValue::Array(items)) => {
            let ghost whole = lookup(t@, k@);
            assert(whole == Some(ConfigValue::Array(*items)));
            let mut v: Vec<String> = Vec::new();
            let mut i: usize = 0;
            while i < items.len()
                invariant
                    i <= items@.len(),
                    whole == lookup(t@, k@),
                    whole == Some(ConfigValue::Array(*items)),
                    all_strs(items@.take(i as int)) == Some(v@),
                decreases items.len() - i,
            {
                assert(items@.take(i + 1).drop_last() =~= items@.take(i as int));
                match &items[i] {
                    ConfigValue::Str(s) => {
                        v.push(s.clone());
                    },
                    _ => {
                        proof {
                            assert(all_strs(items@.take(i + 1)) is None);
                            lemma_all_strs_prefix(items@, i + 1);
                        }
                        return None;
                    },
                }
                i += 1;
            }
            assert(items@.take(items@.len() as int) =~= items@);
            Some(v)
        },
        _ => None,
    }
}

proof fn lemma_all_strs_prefix(items: Seq<ConfigValue>, j: int)
    requires
        0 <= j <= items.len(),
        all_strs(items.take(j)) is None,
    ensures
        all_strs(items) is None,
    decreases items.len() - j,
{
    if j < items.len() {
        assert(items.take(j + 1).drop_last() =~= items.take(j));
        lemma_all_strs_prefix(items, j + 1);
    } else {
        assert(items.take(j) =~= items);
    }
}

pub open spec fn direction_of(v: Option<ConfigValue>) -> Option<Direction> {
    match str_of(v) {
        Some(s) => if exists|d: Direction| direction_text(d) == s@ {
            Some(choose|d: Direction| direction_text(d) == s@)
        } else {
            None
        },
        None => None,
    }
}

/// A `[scratchpads.<name>]` table: every field present and well formed.
pub open spec fn scratchpad_of(t: Seq<(String, ConfigValue)>) -> Option<ScratchpadConfig> {
    let d = direction_of(lookup(t, "direction"@));
    let c = str_of(lookup(t, "command"@));
    let a = str_of(lookup(t, "app_id"@));
    let s = str_of(lookup(t, "size"@));
    let m = u32_of(lookup(t, "margin"@));
    if d is Some && c is Some && a is Some && s is Some && m is Some {
        Some(
            ScratchpadConfig {
                direction: d->Some_0,
                command: c->Some_0,
                app_id: a->Some_0,
                size: s->Some_0,
                margin: m->Some_0,
            },
        )
    } else {
        None
    }
}

fn read_scratchpad(t: &ConfigTable) -> (r: Option<ScratchpadConfig>)
    ensures
        r == scratchpad_of(t@),
{
    let d = match get_str(t, "direction") {
        Some(s) => parse_direction(s.as_str()),
        None => None,
    };
    proof {
        let v = lookup(t@, "direction"@);
        if let Some(s) = str_of(v) {
            match d {
                Some(x) => {
                    let y = choose|y: Direction| direction_text(y) == s@;
                    assert(direction_text(x) == s@);
                    assert(x == y) by {
                        if x != y {
                            assert(direction_text(x) != direction_text(y)) by {
                                lemma_direction_texts_differ();
                            }
                        }
                    }
                },
                None => {},
            }
        }
    }
    let c = get_str(t, "command");
    let a = get_str(t, "app_id");
    let s = get_str(t, "size");
    let m = get_u32(t, "margin");
    match (d, c, a, s, m) {
        (Some(direction), Some(command), Some(app_id), Some(size), Some(margin)) => Some(
            ScratchpadConfig { direction, command, app_id, size, margin },
        ),
        _ => None,
    }
}

proof fn lemma_direction_texts_differ()
    ensures
        direction_text(Direction::FromTop) != direction_text(Direction::FromBottom),
        direction_text(Direction::FromTop) != direction_text(Direction::FromLeft),
        direction_text(Direction::FromTop) != direction_text(Direction::FromRight),
        direction_text(Direction::FromBottom) != direction_text(Direction::FromLeft),
        direction_text(Direction::FromBottom) != direction_text(Direction::FromRight),
        direction_text(Direction::FromLeft) != direction_text(Direction::FromRight),
{
    assert(direction_text(Direction::FromTop).len() != direction_text(Direction::FromBottom).len());
    assert(direction_text(Direction::FromTop)[4] != direction_text(Direction::FromLeft)[4]);
    assert(direction_text(Direction::FromTop).len() != direction_text(Direction::FromRight).len());
    assert(direction_text(Direction::FromBottom).len() != direction_text(Direction::FromLeft).len());
    assert(direction_text(Direction::FromBottom).len() != direction_text(Direction::FromRight).len());
    assert(direction_text(Direction::FromLeft).len() != direction_text(Direction::FromRight).len());
}

/// The `[scratchpads.<name>]` entries, in order; entries that are no table,
/// or lack a field or have it in the wrong form, are left out.
pub open spec fn scratchpad_entries(t: Seq<(String, ConfigValue)>) -> Seq<(String, ScratchpadConfig)>
    decreases t.len(),
{
    if t.len() == 0 {
        seq![]
    } else {
        let r = scratchpad_entries(t.drop_last());
        match t.last().1 {
            ConfigValue::Table(x) => match scratchpad_of(x@) {
                Some(c) => r.push((t.last().0, c)),
                None => r,
            },
            _ => r,
        }
    }
}

/// The `[empty.<ws>]` entries that give a command, in order.
pub open spec fn empty_entries(t: Seq<(String, ConfigValue)>) -> Seq<(String, EmptyWorkspaceConfig)>
    decreases t.len(),
{
    if t.len() == 0 {
        seq![]
    } else {
        let r = empty_entries(t.drop_last());
        match t.last().1 {
            ConfigValue::Table(x) => match str_of(lookup(x@, "command"@)) {
                Some(c) => r.push((t.last().0, EmptyWorkspaceConfig { command: c })),
                None => r,
            },
            _ => r,
        }
    }
}

/// The `[singleton.<name>]` entries that give a command, in order.
pub open spec fn singleton_entries(t: Seq<(String, ConfigValue)>) -> Seq<(String, SingletonConfig)>
    decreases t.len(),
{
    if t.len() == 0 {
        seq![]
    } else {
        let r = singleton_entries(t.drop_last());
        match t.last().1 {
            ConfigValue::Table(x) => match str_of(lookup(x@, "command"@)) {
                Some(c) => r.push(
                    (
                        t.last().0,
                        SingletonConfig {
                            command: c,
                            app_id: str_of(lookup(x@, "app_id"@)),
                            on_created_command: str_of(lookup(x@, "on_created_command"@)),
                        },
                    ),
                ),
                None => r,
            },
            _ => r,
        }
    }
}

/// Commands of the older `[piri.plugins.empty.workspaces]` table: its string values.
pub open spec fn str_entries(t: Seq<(String, ConfigValue)>) -> Seq<(String, String)>
    decreases t.len(),
{
    if t.len() == 0 {
        seq![]
    } else {
        let r = str_entries(t.drop_last());
        match t.last().1 {
            ConfigValue::Str(c) => r.push((t.last().0, c)),
            _ => r,
        }
    }
}

fn read_str_entries(t: &ConfigTable) -> (r: Vec<(String, String)>)
    ensures
        r@ == str_entries(t@),
{
    let mut r: Vec<(String, String)> = Vec::new();
    let mut i: usize = 0;
    while i < t.len()
        invariant
            i <= t@.len(),
            r@ == str_entries(t@.take(i as int)),
        decreases t.len() - i,
    {
        assert(t@.take(i + 1).drop_last() =~= t@.take(i as int));
        if let ConfigValue::Str(c) = &t[i].1 {
            r.push((t[i].0.clone(), c.clone()));
        }
        i += 1;
    }
    assert(t@.take(t@.len() as int) =~= t@);
    r
}

/// The `[window_order]` weights that fit in a `u32`, in order.
pub open spec fn weight_entries(t: Seq<(String, ConfigValue)>) -> Seq<(String, u32)>
    decreases t.len(),
{
    if t.len() == 0 {
        seq![]
    } else {
        let r = weight_entries(t.drop_last());
        match u32_of(Some(t.last().1)) {
            Some(w) => r.push((t.last().0, w)),
            None => r,
        }
    }
}

fn read_scratchpads(t: &ConfigTable) -> (r: Vec<(String, ScratchpadConfig)>)
    ensures
        r@ == scratchpad_entries(t@),
{
    let mut r: Vec<(String, ScratchpadConfig)> = Vec::new();
    let mut i: usize = 0;
    while i < t.len()
        invariant
            i <= t@.len(),
            r@ == scratchpad_entries(t@.take(i as int)),
        decreases t.len() - i,
    {
        assert(t@.take(i + 1).drop_last() =~= t@.take(i as int));
        if let ConfigValue::Table(x) = &t[i].1 {
            if let Some(c) = read_scratchpad(x) {
                r.push((t[i].0.clone(), c));
            }
        }
        i += 1;
    }
    assert(t@.take(t@.len() as int) =~= t@);
    r
}

fn read_empty(t: &ConfigTable) -> (r: Vec<(String, EmptyWorkspaceConfig)>)
    ensures
        r@ == empty_entries(t@),
{
    let mut r: Vec<(String, EmptyWorkspaceConfig)> = Vec::new();
    let mut i: usize = 0;
    while i < t.len()
        invariant
            i <= t@.len(),
            r@ == empty_entries(t@.take(i as int)),
        decreases t.len() - i,
    {
        assert(t@.take(i + 1).drop_last() =~= t@.take(i as int));
        if let ConfigValue::Table(x) = &t[i].1 {
            if let Some(c) = get_str(x, "command") {
                r.push((t[i].0.clone(), EmptyWorkspaceConfig { command: c }));
            }
        }
        i += 1;
    }
    assert(t@.take(t@.len() as int) =~= t@);
    r
}

fn read_singletons(t: &ConfigTable) -> (r: Vec<(String, SingletonConfig)>)
    ensures
        r@ == singleton_entries(t@),
{
    let mut r: Vec<(String, SingletonConfig)> = Vec::new();
    let mut i: usize = 0;
    while i < t.len()
        invariant
            i <= t@.len(),
            r@ == singleton_entries(t@.take(i as int)),
        decreases t.len() - i,
    {
        assert(t@.take(i + 1).drop_last() =~= t@.take(i as int));
        if let ConfigValue::Table(x) = &t[i].1 {
            if let Some(c) = get_str(x, "command") {
                let app_id = get_str(x, "app_id");
                let on_created_command = get_str(x, "on_created_command");
                r.push((t[i].0.clone(), SingletonConfig { command: c, app_id, on_created_command }));
            }
        }
        i += 1;
    }
    assert(t@.take(t@.len() as int) =~= t@);
    r
}

fn read_weights(t: &ConfigTable) -> (r: Vec<(String, u32)>)
    ensures
        r@ == weight_entries(t@),
{
    let mut r: Vec<(String, u32)> = Vec::new();
    let mut i: usize = 0;
    while i < t.len()
        invariant
            i <= t@.len(),
            r@ == weight_entries(t@.take(i as int)),
        decreases t.len() - i,
    {
        assert(t@.take(i + 1).drop_last() =~= t@.take(i as int));
        if let ConfigValue::Int(w) = &t[i].1 {
            if 0 <= *w && *w <= 4294967295i64 {
                r.push((t[i].0.clone(), *w as u32));
            }
        }
        i += 1;
    }
    assert(t@.take(t@.len() as int) =~= t@);
    r
}

/// A `[[window_rule]]` table: at least one pattern list and at least one
/// action.
pub open spec fn window_rule_of(t: Seq<(String, ConfigValue)>) -> Option<(Option<Seq<String>>, Option<Seq<String>>, Option<String>, Option<String>, bool)> {
    let a = str_list_of(lookup(t, "app_id"@));
    let ti = str_list_of(lookup(t, "title"@));
    let w = str_of(lookup(t, "open_on_workspace"@));
    let f = str_of(lookup(t, "focus_command"@));
    let once = bool_of(lookup(t, "focus_command_once"@)) == Some(true);
    if (a is Some || ti is Some) && (w is Some || f is Some) {
        Some((a, ti, w, f, once))
    } else {
        None
    }
}


/// The `[[window_rule]]` tables that make a rule, in order.
pub open spec fn window_rule_entries(items: Seq<ConfigValue>) -> Seq<(Option<Seq<String>>, Option<Seq<String>>, Option<String>, Option<String>, bool)>
    decreases items.len(),
{
    if items.len() == 0 {
        seq![]
    } else {
        let r = window_rule_entries(items.drop_last());
        match items.last() {
            ConfigValue::Table(x) => match window_rule_of(x@) {
                Some(v) => r.push(v),
                None => r,
            },
            _ => r,
        }
    }
}


fn read_window_rules(items: &Vec<ConfigValue>) -> (r: Vec<WindowRuleConfig>)
    ensures
        rules_view(r@) == window_rule_entries(items@),
{
    let mut r: Vec<WindowRuleConfig> = Vec::new();
    let mut i: usize = 0;
    while i < items.len()
        invariant
            i <= items@.len(),
            rules_view(r@) == window_rule_entries(items@.take(i as int)),
        decreases items.len() - i,
    {
        assert(items@.take(i + 1).drop_last() =~= items@.take(i as int));
        if let ConfigValue::Table(x) = &items[i] {
            let app_id = get_str_list(x, "app_id");
            let title = get_str_list(x, "title");
            let open_on_workspace = get_str(x, "open_on_workspace");
            let focus_command = get_str(x, "focus_command");
            let focus_command_once = get_bool(x, "focus_command_once") == Some(true);
            if (app_id.is_some() || title.is_some()) && (open_on_workspace.is_some() || focus_command.is_some()) {
                let rule = WindowRuleConfig { app_id, title, open_on_workspace, focus_command, focus_command_once };
                let ghost before = r@;
                r.push(rule);
                assert(rules_view(r@) =~= rules_view(before).push(rule_view(rule)));
            }
        }
        i += 1;
    }
    assert(items@.take(items@.len() as int) =~= items@);
    r
}


/// The `[[swallow]]` tables, in order.
pub open spec fn swallow_entries(items: Seq<ConfigValue>) -> Seq<(Option<Seq<String>>, Option<Seq<String>>, Option<Seq<String>>, Option<Seq<String>>)>
    decreases items.len(),
{
    if items.len() == 0 {
        seq![]
    } else {
        let r = swallow_entries(items.drop_last());
        match items.last() {
            ConfigValue::Table(x) => r.push(
                (
                    str_list_of(lookup(x@, "parent_app_id"@)),
                    str_list_of(lookup(x@, "parent_title"@)),
                    str_list_of(lookup(x@, "child_app_id"@)),
                    str_list_of(lookup(x@, "child_title"@)),
                ),
            ),
            _ => r,
        }
    }
}


fn read_swallow_rules(items: &Vec<ConfigValue>) -> (r: Vec<SwallowRule>)
    ensures
        swallow_rules_view(r@) == swallow_entries(items@),
{
    let mut r: Vec<SwallowRule> = Vec::new();
    let mut i: usize = 0;
    while i < items.len()
        invariant
            i <= items@.len(),
            swallow_rules_view(r@) == swallow_entries(items@.take(i as int)),
        decreases items.len() - i,
    {
        assert(items@.take(i + 1).drop_last() =~= items@.take(i as int));
        if let ConfigValue::Table(x) = &items[i] {
            let rule = SwallowRule {
                parent_app_id: get_str_list(x, "parent_app_id"),
                parent_title: get_str_list(x, "parent_title"),
                child_app_id: get_str_list(x, "child_app_id"),
                child_title: get_str_list(x, "child_title"),
            };
            let ghost before = r@;
            r.push(rule);
            assert(swallow_rules_view(r@) =~= swallow_rules_view(before).push(swallow_rule_view(rule)));
        }
        i += 1;
    }
    assert(items@.take(items@.len() as int) =~= items@);
    r
}

fn sub_table<'a>(t: Option<&'a ConfigTable>, k: &str) -> (r: Option<&'a ConfigTable>)
    ensures
        match t {
            Some(x) => match r {
                Some(y) => table_of(lookup(x@, k@)) == Some(y@),
                None => table_of(lookup(x@, k@)) is None,
            },
            None => r is None,
        },
{
    match t {
        Some(x) => get_table(x, k),
        None => None,
    }
}

pub open spec fn subtable(t: Option<Seq<(String, ConfigValue)>>, k: Seq<char>) -> Option<Seq<(String, ConfigValue)>> {
    match t {
        Some(x) => table_of(lookup(x, k)),
        None => None,
    }
}

pub open spec fn field(t: Option<Seq<(String, ConfigValue)>>, k: Seq<char>) -> Option<ConfigValue> {
    match t {
        Some(x) => lookup(x, k),
        None => None,
    }
}

fn opt_get_str(t: Option<&ConfigTable>, k: &str) -> (r: Option<String>)
    ensures
        r == str_of(field(
            match t {
                Some(x) => Some(x@),
                None => None,
            },
            k@,
        )),
{
    match t {
        Some(x) => get_str(x, k),
        None => None,
    }
}

fn opt_get_bool(t: Option<&ConfigTable>, k: &str) -> (r: Option<bool>)
    ensures
        r == bool_of(field(
            match t {
                Some(x) => Some(x@),
                None => None,
            },
            k@,
        )),
{
    match t {
        Some(x) => get_bool(x, k),
        None => None,
    }
}

fn opt_get_u32(t: Option<&ConfigTable>, k: &str) -> (r: Option<u32>)
    ensures
        r == u32_of(field(
            match t {
                Some(x) => Some(x@),
                None => None,
            },
            k@,
        )),
{
    match t {
        Some(x) => get_u32(x, k),
        None => None,
    }
}

impl Config {
    /// The configuration that a parsed document states; what it leaves out,
    /// or gives in the wrong form, takes its default.
    pub fn from_document(doc: &ConfigTable) -> (r: Config)
        ensures
            r.niri.socket_path == str_of(field(subtable(Some(doc@), "niri"@), "socket_path"@)),
            ({
                let sp = subtable(subtable(Some(doc@), "piri"@), "scratchpad"@);
                &&& str_of(field(sp, "default_size"@)) is Some ==> r.piri.scratchpad.default_size == str_of(field(sp, "default_size"@))->Some_0
                &&& str_of(field(sp, "default_size"@)) is None ==> r.piri.scratchpad.default_size@ == default_size_text()
                &&& r.piri.scratchpad.default_margin == match u32_of(field(sp, "default_margin"@)) {
                    Some(m) => m,
                    None => DEFAULT_MARGIN,
                }
                &&& r.piri.scratchpad.move_to_workspace == str_of(field(sp, "move_to_workspace"@))
            }),
            ({
                let pl = subtable(subtable(Some(doc@), "piri"@), "plugins"@);
                &&& r.piri.plugins.scratchpads == bool_of(field(pl, "scratchpads"@))
                &&& r.piri.plugins.empty == bool_of(field(pl, "empty"@))
                &&& r.piri.plugins.window_rule == bool_of(field(pl, "window_rule"@))
                &&& r.piri.plugins.autofill == bool_of(field(pl, "autofill"@))
                &&& r.piri.plugins.singleton == bool_of(field(pl, "singleton"@))
                &&& r.piri.plugins.window_order == bool_of(field(pl, "window_order"@))
                &&& r.piri.plugins.swallow == bool_of(field(pl, "swallow"@))
                &&& match subtable(subtable(pl, "empty"@), "workspaces"@) {
                    Some(w) => r.piri.plugins.empty_config matches Some(e) && e.workspaces@ == str_entries(w),
                    None => r.piri.plugins.empty_config is None,
                }
            }),
            ({
                let wo = subtable(subtable(Some(doc@), "piri"@), "window_order"@);
                &&& r.piri.window_order.enable_event_listener == (bool_of(field(wo, "enable_event_listener"@)) == Some(true))
                &&& r.piri.window_order.default_weight == match u32_of(field(wo, "default_weight"@)) {
                    Some(w) => w,
                    None => 0,
                }
                &&& r.piri.window_order.workspaces@ == match str_list_of(field(wo, "workspaces"@)) {
                    Some(l) => l,
                    None => seq![],
                }
            }),
            ({
                let sw = subtable(subtable(Some(doc@), "piri"@), "swallow"@);
                &&& r.piri.swallow.use_pid_matching == (bool_of(field(sw, "use_pid_matching"@)) != Some(false))
                &&& match subtable(sw, "exclude"@) {
                    Some(x) => r.piri.swallow.exclude matches Some(e) && view_list(e.app_id) == str_list_of(lookup(x, "app_id"@)) && view_list(e.title) == str_list_of(lookup(x, "title"@)),
                    None => r.piri.swallow.exclude is None,
                }
            }),
            r.scratchpads@ == match subtable(Some(doc@), "scratchpads"@) {
                Some(t) => scratchpad_entries(t),
                None => seq![],
            },
            r.empty@ == match subtable(Some(doc@), "empty"@) {
                Some(t) => empty_entries(t),
                None => seq![],
            },
            r.singleton@ == match subtable(Some(doc@), "singleton"@) {
                Some(t) => singleton_entries(t),
                None => seq![],
            },
            r.window_order@ == match subtable(Some(doc@), "window_order"@) {
                Some(t) => weight_entries(t),
                None => seq![],
            },
            rules_view(r.window_rule@) == match field(Some(doc@), "window_rule"@) {
                Some(ConfigValue::Array(items)) => window_rule_entries(items@),
                _ => seq![],
            },
            swallow_rules_view(r.swallow@) == match field(Some(doc@), "swallow"@) {
                Some(ConfigValue::Array(items)) => swallow_entries(items@),
                _ => seq![],
            },
    {
        let niri = get_table(doc, "niri");
        let piri = get_table(doc, "piri");
        let sp = sub_table(piri, "scratchpad");
        let pl = sub_table(piri, "plugins");
        let wo = sub_table(piri, "window_order");
        let sw = sub_table(piri, "swallow");
        let default_size = match opt_get_str(sp, "default_size") {
            Some(s) => s,
            None => default_size(),
        };
        let default_margin = match opt_get_u32(sp, "default_margin") {
            Some(m) => m,
            None => default_margin(),
        };
        let workspaces = match wo {
            Some(x) => match get_str_list(x, "workspaces") {
                Some(l) => l,
                None => Vec::new(),
            },
            None => Vec::new(),
        };
        let exclude = match sub_table(sw, "exclude") {
            Some(x) => Some(SwallowExclude { app_id: get_str_list(x, "app_id"), title: get_str_list(x, "title") }),
            None => None,
        };
        let piri_config = PiriConfig {
            scratchpad: ScratchpadDefaults {
                default_size,
                default_margin,
                move_to_workspace: opt_get_str(sp, "move_to_workspace"),
            },
            plugins: PluginsConfig {
                scratchpads: opt_get_bool(pl, "scratchpads"),
                empty: opt_get_bool(pl, "empty"),
                window_rule: opt_get_bool(pl, "window_rule"),
                autofill: opt_get_bool(pl, "autofill"),
                singleton: opt_get_bool(pl, "singleton"),
                window_order: opt_get_bool(pl, "window_order"),
                swallow: opt_get_bool(pl, "swallow"),
                empty_config: match sub_table(sub_table(pl, "empty"), "workspaces") {
                    Some(w) => Some(crate::config::EmptyPluginConfig { workspaces: read_str_entries(w) }),
                    None => None,
                },
            },
            window_order: WindowOrderSettings {
                enable_event_listener: opt_get_bool(wo, "enable_event_listener") == Some(true),
                default_weight: match opt_get_u32(wo, "default_weight") {
                    Some(w) => w,
                    None => 0,
                },
                workspaces,
            },
            swallow: SwallowSettings { use_pid_matching: opt_get_bool(sw, "use_pid_matching") != Some(false), exclude },
        };
        let scratchpads = match get_table(doc, "scratchpads") {
            Some(t) => read_scratchpads(t),
            None => Vec::new(),
        };
        let empty = match get_table(doc, "empty") {
            Some(t) => read_empty(t),
            None => Vec::new(),
        };
        let singleton = match get_table(doc, "singleton") {
            Some(t) => read_singletons(t),
            None => Vec::new(),
        };
        let window_order = match get_table(doc, "window_order") {
            Some(t) => read_weights(t),
            None => Vec::new(),
        };
        let window_rule = match get(doc, "window_rule") {
            Some(ConfigValue::Array(items)) => read_window_rules(items),
            _ => Vec::new(),
        };
        let swallow = match get(doc, "swallow") {
            Some(ConfigValue::Array(items)) => read_swallow_rules(items),
            _ => Vec::new(),
        };
        proof {
            assert(rules_view(Seq::<WindowRuleConfig>::empty()) =~= seq![]);
            assert(swallow_rules_view(Seq::<SwallowRule>::empty()) =~= seq![]);
        }
        Config {
            niri: NiriConfig { socket_path: opt_get_str(niri, "socket_path") },
            piri: piri_config,
            scratchpads,
            empty,
            singleton,
            window_rule,
            window_order,
            swallow,
        }
    }
}

} // verus!
