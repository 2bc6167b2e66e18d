use piri::actions::{workspace_reference, Action, WorkspaceReference};
use piri::config::{
    default_margin, default_size, parse_direction, Config, EmptyPluginConfig, ScratchpadConfig,
    ScratchpadDefaults, SingletonConfig, WindowRuleConfig,
};
use piri::config_value::{ConfigTable, ConfigValue};
use piri::geometry::{calculate_hide_position, calculate_position, extract_margin, move_delta, Direction};
use piri::ipc::{encode_frame, frame_length, socket_path_for, IpcClient, IpcRequest};
use piri::matcher::{CompiledPattern, WindowMatcher, WindowMatcherCache};
use piri::niri::{NiriIpc, Output, OutputLogical, Window, WindowLayout, Workspace};
use piri::plugins::{fallback, Fallback, PluginKind, PluginManager, Transition, Unhandled};
use piri::rules::{
    empty_command, first_matching_rule, is_workspace_empty, match_workspace, on_workspace_activated,
    rule_outcome, singleton_pattern, FocusCommandGuard,
};
use piri::scratchpads::{
    added_config, focus_after_hide, hidden_target, next_visible, scratchpad_size, visible_target,
    ScratchpadError, ScratchpadManager, WindowSource,
};
use piri::size::{format_size, parse_size_text, percent_of};
use piri::swallow::{
    ancestor_after, find_pid_parent, parse_parent_pid, swallow_actions, swallow_workspace, FocusQueue,
    PidMap, SwallowPlugin, SwallowPluginConfig, SwallowRule,
};
use piri::text::{parse_u8, parse_uint};
use piri::window_order::{plan_moves, OrderEntry, WindowOrderConfig, WindowOrderPlugin};

fn window(id: u64, app_id: Option<&str>, title: &str, ws: Option<u64>) -> Window {
    Window {
        id,
        title: title.to_string(),
        app_id: app_id.map(|s| s.to_string()),
        floating: false,
        workspace_id: ws,
        pid: None,
        layout: None,
    }
}

fn tiled(id: u64, app_id: &str, ws: u64, column: usize) -> Window {
    let mut w = window(id, Some(app_id), app_id, Some(ws));
    w.layout = Some(WindowLayout { tile_pos: None, window_size: None, pos_in_scrolling_layout: Some((column, 1)) });
    w
}

fn workspace(id: u64, idx: u8, name: Option<&str>, focused: bool) -> Workspace {
    Workspace { id, idx, name: name.map(|s| s.to_string()), is_focused: focused, active_window_id: None }
}

fn term_config() -> ScratchpadConfig {
    ScratchpadConfig {
        direction: Direction::FromTop,
        command: "foot".to_string(),
        app_id: "foot".to_string(),
        size: "75% 60%".to_string(),
        margin: 50,
    }
}

// ---- positions

#[test]
fn visible_positions_follow_the_table() {
    assert_eq!(calculate_position(Direction::FromTop, 1920, 1080, 1440, 648, 50), (240, 50));
    assert_eq!(calculate_position(Direction::FromBottom, 1920, 1080, 1440, 648, 50), (240, 382));
    assert_eq!(calculate_position(Direction::FromLeft, 1920, 1080, 1440, 648, 50), (50, 216));
    assert_eq!(calculate_position(Direction::FromRight, 1920, 1080, 1440, 648, 50), (430, 216));
}

#[test]
fn hidden_positions_follow_the_table() {
    assert_eq!(calculate_hide_position(Direction::FromTop, 1920, 1080, 1440, 648, 50), (240, -698));
    assert_eq!(calculate_hide_position(Direction::FromBottom, 1920, 1080, 1440, 648, 50), (240, 1130));
    assert_eq!(calculate_hide_position(Direction::FromLeft, 1920, 1080, 1440, 648, 50), (-1490, 216));
    assert_eq!(calculate_hide_position(Direction::FromRight, 1920, 1080, 1440, 648, 50), (1970, 216));
}

#[test]
fn wider_window_is_centred_toward_zero() {
    assert_eq!(calculate_position(Direction::FromTop, 100, 100, 105, 10, 0), (-2, 0));
}

#[test]
fn margin_is_read_back_from_visible_position() {
    for d in [Direction::FromTop, Direction::FromBottom, Direction::FromLeft, Direction::FromRight] {
        let (x, y) = calculate_position(d, 2560, 1440, 1000, 700, 37);
        assert_eq!(extract_margin(d, 2560, 1440, 1000, 700, x, y), 37);
    }
}

#[test]
fn margin_beyond_the_edge_reads_zero() {
    assert_eq!(extract_margin(Direction::FromTop, 1920, 1080, 100, 100, 0, -30), 0);
}

#[test]
fn full_size_window_sits_at_origin() {
    let (w, h) = parse_size_text("100% 100%").unwrap();
    let ww = percent_of(1920, w).unwrap();
    let wh = percent_of(1080, h).unwrap();
    for d in [Direction::FromTop, Direction::FromBottom, Direction::FromLeft, Direction::FromRight] {
        assert_eq!(calculate_position(d, 1920, 1080, ww, wh, 0), (0, 0));
    }
}

#[test]
fn from_top_with_huge_margin_keeps_signs() {
    let (_, y) = calculate_position(Direction::FromTop, 1920, 1080, 1440, 648, 5000);
    let (_, hy) = calculate_hide_position(Direction::FromTop, 1920, 1080, 1440, 648, 5000);
    assert_eq!(y, 5000);
    assert!(hy < 0);
    assert_eq!(hy, -5648);
}

#[test]
fn relative_move_is_target_minus_current() {
    assert_eq!(move_delta(240, 50, 240, -698), (0, -748));
}

#[test]
fn targets_refuse_positions_beyond_i32() {
    assert_eq!(visible_target(Direction::FromTop, 10, 10, 4, 4, 50), Some((3, 50)));
    assert_eq!(hidden_target(Direction::FromTop, 10, 10, u32::MAX, u32::MAX, u32::MAX), None);
}

// ---- sizes and numbers

#[test]
fn size_is_written_and_read() {
    assert_eq!(format_size(75, 60), "75% 60%");
    assert_eq!(parse_size_text("75% 60%"), Some((75, 60)));
    assert_eq!(parse_size_text("  40%\t 100% "), Some((40, 100)));
}

#[test]
fn size_round_trips_for_all_percentages() {
    for w in 0..=100u32 {
        for h in 0..=100u32 {
            assert_eq!(parse_size_text(&format_size(w, h)), Some((w, h)));
        }
    }
}

#[test]
fn malformed_sizes_are_refused() {
    assert_eq!(parse_size_text("75 60%"), None);
    assert_eq!(parse_size_text("75%"), None);
    assert_eq!(parse_size_text("75% 60% 1%"), None);
    assert_eq!(parse_size_text("a% 60%"), None);
    assert_eq!(parse_size_text("%% 60%"), None);
    assert_eq!(parse_size_text("99999999999% 1%"), None);
}

#[test]
fn percent_of_rounds_down() {
    assert_eq!(percent_of(1920, 75), Some(1440));
    assert_eq!(percent_of(1080, 33), Some(356));
    assert_eq!(percent_of(u32::MAX, 200), None);
}

#[test]
fn scratchpad_size_uses_the_output() {
    assert_eq!(scratchpad_size(&term_config(), 1920, 1080), Some((1440, 648)));
    let mut bad = term_config();
    bad.size = "wide".to_string();
    assert_eq!(scratchpad_size(&bad, 1920, 1080), None);
}

#[test]
fn integers_parse_as_std_does() {
    assert_eq!(parse_u8("+3"), Some(3));
    assert_eq!(parse_u8("255"), Some(255));
    assert_eq!(parse_u8("256"), None);
    assert_eq!(parse_u8(""), None);
    assert_eq!(parse_u8("+"), None);
    assert_eq!(parse_u8("web"), None);
    assert_eq!(parse_uint("18446744073709551615", u64::MAX), Some(u64::MAX));
    assert_eq!(parse_uint("18446744073709551616", u64::MAX), None);
}

#[test]
fn directions_are_read() {
    assert_eq!(parse_direction("fromTop"), Some(Direction::FromTop));
    assert_eq!(parse_direction("fromBottom"), Some(Direction::FromBottom));
    assert_eq!(parse_direction("fromLeft"), Some(Direction::FromLeft));
    assert_eq!(parse_direction("fromRight"), Some(Direction::FromRight));
    assert_eq!(parse_direction("top"), None);
}

// ---- window order

#[test]
fn window_order_moves_term_to_the_front() {
    let mut weights = Vec::new();
    weights.push(("term".to_string(), 10));
    weights.push(("editor".to_string(), 5));
    let plugin = WindowOrderPlugin::with_config(WindowOrderConfig {
        weights,
        default_weight: 0,
        workspaces: Vec::new(),
        enable_event_listener: false,
    });
    let windows = vec![tiled(1, "editor", 7, 1), tiled(2, "misc", 7, 2), tiled(3, "term", 7, 3)];
    let moves = plugin.plan_reorder(&windows, 7, Some(3));
    assert_eq!(moves.len(), 1);
    assert_eq!(moves[0].window_id, 3);
    assert_eq!(moves[0].from, 3);
    assert_eq!(moves[0].to, 1);
}

#[test]
fn equal_weights_need_no_move() {
    let ws = vec![
        OrderEntry { id: 1, column: 1, weight: 4 },
        OrderEntry { id: 2, column: 2, weight: 4 },
        OrderEntry { id: 3, column: 3, weight: 4 },
    ];
    assert_eq!(plan_moves(&ws, None).len(), 0);
    let shuffled = vec![
        OrderEntry { id: 1, column: 2, weight: 4 },
        OrderEntry { id: 2, column: 3, weight: 4 },
        OrderEntry { id: 3, column: 1, weight: 4 },
    ];
    assert_eq!(plan_moves(&shuffled, None).len(), 0);
}

#[test]
fn equal_weights_keep_their_order() {
    let ws = vec![
        OrderEntry { id: 1, column: 1, weight: 1 },
        OrderEntry { id: 2, column: 2, weight: 9 },
        OrderEntry { id: 3, column: 3, weight: 1 },
    ];
    let targets = piri::window_order::target_columns(&ws);
    assert_eq!(targets, vec![2, 1, 3]);
    let moves = plan_moves(&ws, None);
    assert_eq!(moves.len(), 1);
    assert_eq!((moves[0].window_id, moves[0].from, moves[0].to), (1, 1, 2));
    let after = piri::window_order::apply_move(&vec![1, 2, 3], moves[0].index, moves[0].to);
    assert_eq!(after, targets);
    let focused = plan_moves(&ws, Some(2));
    assert_eq!((focused[0].window_id, focused[0].from, focused[0].to), (2, 2, 1));
}

#[test]
fn reversed_columns_are_sorted() {
    let ws = vec![
        OrderEntry { id: 1, column: 1, weight: 1 },
        OrderEntry { id: 2, column: 2, weight: 2 },
        OrderEntry { id: 3, column: 3, weight: 3 },
        OrderEntry { id: 4, column: 4, weight: 4 },
    ];
    let moves = plan_moves(&ws, None);
    let mut cols: Vec<usize> = ws.iter().map(|e| e.column).collect();
    for m in &moves {
        cols = piri::window_order::apply_move(&cols, m.index, m.to);
    }
    assert_eq!(cols, piri::window_order::target_columns(&ws));
    assert!(moves.len() <= 3);
}

#[test]
fn weights_match_exactly_then_loosely() {
    let mut weights = Vec::new();
    weights.push(("fire".to_string(), 3));
    weights.push(("firefox".to_string(), 7));
    let plugin = WindowOrderPlugin::with_config(WindowOrderConfig {
        weights,
        default_weight: 1,
        workspaces: Vec::new(),
        enable_event_listener: false,
    });
    assert_eq!(plugin.get_window_order(Some(&"firefox".to_string())), 7);
    assert_eq!(plugin.get_window_order(Some(&"firefox-dev".to_string())), 3);
    assert_eq!(plugin.get_window_order(Some(&"term".to_string())), 1);
    assert_eq!(plugin.get_window_order(None), 1);
}

#[test]
fn workspace_filter_matches_name_or_idx() {
    let plugin = WindowOrderPlugin::new();
    assert!(plugin.should_apply_to_workspace("anything"));
    let plugin = WindowOrderPlugin::with_config(WindowOrderConfig {
        weights: Vec::new(),
        default_weight: 0,
        workspaces: vec!["web".to_string(), "2".to_string()],
        enable_event_listener: true,
    });
    assert!(plugin.should_apply_to_workspace("web"));
    assert!(plugin.should_apply_to_workspace("02"));
    assert!(!plugin.should_apply_to_workspace("3"));
    assert!(plugin.applies_to_workspace(&workspace(9, 2, None, true)));
    assert!(plugin.applies_to_workspace(&workspace(9, 5, Some("web"), true)));
    assert!(!plugin.applies_to_workspace(&workspace(9, 5, Some("mail"), true)));
}

#[test]
fn order_entries_skip_floating_and_other_workspaces() {
    let plugin = WindowOrderPlugin::new();
    let mut floating = tiled(2, "b", 7, 2);
    floating.floating = true;
    let windows = vec![tiled(1, "a", 7, 1), floating, tiled(3, "c", 8, 1), window(4, Some("d"), "d", Some(7))];
    let entries = plugin.order_entries(&windows, 7);
    assert_eq!(entries.len(), 2);
    assert_eq!((entries[0].id, entries[0].column), (1, 1));
    assert_eq!((entries[1].id, entries[1].column), (4, 1));
}

// ---- swallow

#[test]
fn focus_queue_keeps_five_without_duplicates() {
    let mut q = FocusQueue::new();
    for id in 1..=7u64 {
        q.push(id);
    }
    assert_eq!(q.ids(), vec![3, 4, 5, 6, 7]);
    q.push(4);
    assert_eq!(q.ids(), vec![3, 5, 6, 7, 4]);
    q.remove(6);
    assert_eq!(q.ids(), vec![3, 5, 7, 4]);
    assert!(!q.contains(6));
}

#[test]
fn closed_window_leaves_pid_map_and_queue() {
    let mut plugin = SwallowPlugin::new(SwallowPluginConfig { rules: Vec::new(), use_pid_matching: true, exclude: None });
    let mut a = window(10, Some("foot"), "sh", Some(1));
    a.pid = Some(1000);
    let mut b = window(11, Some("foot"), "sh", Some(1));
    b.pid = Some(1000);
    assert!(plugin.note_opened(&a));
    assert!(plugin.note_opened(&b));
    assert!(!plugin.note_opened(&a));
    plugin.handle_window_closed(10);
    assert!(!plugin.pid_map.references(10));
    assert!(plugin.pid_map.references(11));
    assert_eq!(plugin.focus_queue.ids(), vec![11]);
    plugin.handle_window_closed(11);
    assert!(!plugin.pid_map.references(11));
    assert!(plugin.focus_queue.ids().is_empty());
}

#[test]
fn pid_map_records_and_forgets() {
    let mut m = PidMap::new();
    m.record(5, 1);
    m.record(5, 2);
    m.record(6, 3);
    assert!(m.references(2));
    m.remove_window(2);
    assert!(!m.references(2));
    assert!(m.references(1));
}

#[test]
fn stat_gives_parent_pid() {
    let stat = "1500 (mpv) S 1000 1500 1000 34816 1500 4194304";
    assert_eq!(parse_parent_pid(stat), Some(1000));
    assert_eq!(ancestor_after(stat), Some(1000));
    assert_eq!(ancestor_after("1000 (bash) S 1 1000"), None);
    assert_eq!(parse_parent_pid("1 (init) S"), None);
}

#[test]
fn swallow_by_pid_batch() {
    let mut parent = window(1, Some("foot"), "shell", Some(1));
    parent.pid = Some(1000);
    let mut child = window(2, Some("mpv"), "video", Some(2));
    child.pid = Some(1500);
    child.floating = true;
    let windows = vec![parent.clone(), child.clone()];
    let ancestors = vec![1000u32];
    assert_eq!(find_pid_parent(2, &windows, &ancestors), Some(0));
    assert_eq!(find_pid_parent(2, &windows, &vec![42]), None);
    let workspaces = vec![workspace(1, 1, None, true), workspace(2, 2, None, false)];
    let target = swallow_workspace(&parent, &child, &workspaces);
    assert_eq!(target, Some("1".to_string()));
    let reference = target.map(|t| workspace_reference(&t));
    let actions = swallow_actions(1, 2, child.floating, reference);
    assert_eq!(actions.len(), 5);
    assert!(matches!(actions[0], Action::FocusWindow { id: 1 }));
    assert!(matches!(actions[1], Action::MoveWindowToTiling { id: 2 }));
    assert!(matches!(
        actions[2],
        Action::MoveWindowToWorkspace { window_id: 2, reference: WorkspaceReference::Index(1), focus: false }
    ));
    assert!(matches!(actions[3], Action::ConsumeOrExpelWindowLeft { id: 2 }));
    assert!(matches!(actions[4], Action::FocusWindow { id: 2 }));
}

#[test]
fn swallow_same_workspace_tiled_child() {
    let parent = window(1, Some("foot"), "shell", Some(1));
    let child = window(2, Some("mpv"), "video", Some(1));
    assert_eq!(swallow_workspace(&parent, &child, &vec![workspace(1, 1, None, true)]), None);
    let actions = swallow_actions(1, 2, false, None);
    assert_eq!(actions.len(), 3);
}

#[test]
fn swallow_rule_finds_parent_in_focus_queue() {
    let rule = SwallowRule {
        parent_app_id: Some(vec!["^foot$".to_string()]),
        parent_title: None,
        child_app_id: Some(vec!["mpv".to_string()]),
        child_title: None,
    };
    let mut plugin = SwallowPlugin::new(SwallowPluginConfig { rules: vec![rule], use_pid_matching: false, exclude: None });
    let parent = window(1, Some("foot"), "shell", Some(1));
    let other = window(3, Some("firefox"), "web", Some(1));
    let child = window(2, Some("mpv"), "video", Some(1));
    plugin.handle_focus_timestamp(1);
    plugin.handle_focus_timestamp(3);
    plugin.note_opened(&child);
    let windows = vec![parent.clone(), child.clone(), other.clone()];
    assert_eq!(plugin.rule_parent(&child, Some(&child), &windows).unwrap(), Some(0));
    assert_eq!(plugin.rule_parent(&child, Some(&other), &windows).unwrap(), None);
    assert_eq!(plugin.rule_parent(&child, Some(&parent), &windows).unwrap(), Some(0));
    assert_eq!(plugin.rule_parent(&other, Some(&parent), &windows).unwrap(), None);
}

#[test]
fn swallow_exclusion_and_bad_patterns() {
    let exclude = piri::swallow::SwallowExclude { app_id: Some(vec!["^mpv$".to_string()]), title: None };
    let mut plugin = SwallowPlugin::new(SwallowPluginConfig { rules: Vec::new(), use_pid_matching: true, exclude: Some(exclude) });
    assert_eq!(plugin.is_excluded(&window(2, Some("mpv"), "v", None)).unwrap(), true);
    assert_eq!(plugin.is_excluded(&window(2, Some("foot"), "v", None)).unwrap(), false);
    let bad = piri::swallow::SwallowExclude { app_id: Some(vec!["(".to_string()]), title: None };
    let mut plugin = SwallowPlugin::new(SwallowPluginConfig { rules: Vec::new(), use_pid_matching: true, exclude: Some(bad) });
    assert!(plugin.is_excluded(&window(2, Some("mpv"), "v", None)).is_err());
}

// ---- patterns

#[test]
fn regex_cache_returns_the_stored_pattern() {
    let mut cache = WindowMatcherCache::new();
    let first = cache.get_regex("^Fire.*$").ok().unwrap();
    assert_eq!(first.as_str(), "^Fire.*$");
    let again = cache.get_regex("^Fire.*$").ok().unwrap();
    assert_eq!(again.as_str(), "^Fire.*$");
    assert!(again.is_match("Firefox"));
    assert!(!again.is_match("firefox"));
    cache.clear_cache();
    assert!(cache.get_regex("(").is_err());
}

#[test]
fn compiled_pattern_matches_by_regex() {
    let p = CompiledPattern::compile("fo+t").ok().unwrap();
    assert!(p.is_match("a footnote"));
    assert!(!p.is_match("fat"));
    let e = CompiledPattern::compile("[").err().unwrap();
    assert_eq!(e.pattern, "[");
}

#[test]
fn matcher_uses_app_id_or_title() {
    let mut cache = WindowMatcherCache::new();
    let m = WindowMatcher::new(Some(vec!["^Firefox$".to_string()]), Some(vec!["Mail".to_string()]));
    let ff = "Firefox".to_string();
    let other = "other".to_string();
    let mail = "Inbox - Mail".to_string();
    assert_eq!(cache.matches(Some(&ff), Some(&other), &m).unwrap(), true);
    assert_eq!(cache.matches(Some(&other), Some(&mail), &m).unwrap(), true);
    assert_eq!(cache.matches(None, Some(&other), &m).unwrap(), false);
    let bad = WindowMatcher::new(Some(vec!["(".to_string()]), None);
    assert!(cache.matches(Some(&ff), None, &bad).is_err());
}

// ---- rules and workspaces

#[test]
fn window_rule_moves_firefox_to_web() {
    let rules = vec![WindowRuleConfig {
        app_id: Some(vec!["^Firefox$".to_string()]),
        title: None,
        open_on_workspace: Some("web".to_string()),
        focus_command: None,
        focus_command_once: false,
    }];
    let workspaces = vec![workspace(1, 1, None, true), workspace(2, 2, Some("web"), false)];
    let w = window(42, Some("Firefox"), "Mozilla Firefox", Some(1));
    let mut cache = WindowMatcherCache::new();
    let i = first_matching_rule(&mut cache, &rules, w.app_id.as_ref(), Some(&w.title)).unwrap();
    let out = rule_outcome(&rules[i], &w, &workspaces);
    assert_eq!(out.moves.len(), 2);
    match &out.moves[0] {
        Action::MoveWindowToWorkspace { window_id, reference: WorkspaceReference::Name(n), focus } => {
            assert_eq!(*window_id, 42);
            assert_eq!(n, "web");
            assert!(!*focus);
        }
        _ => panic!("expected a move to the workspace"),
    }
    assert!(matches!(out.moves[1], Action::FocusWindow { id: 42 }));
    assert!(out.command.is_none());
    let there = window(42, Some("Firefox"), "Mozilla Firefox", Some(2));
    assert_eq!(rule_outcome(&rules[i], &there, &workspaces).moves.len(), 0);
    let no = window(43, Some("firefox"), "x", Some(1));
    assert_eq!(first_matching_rule(&mut cache, &rules, no.app_id.as_ref(), Some(&no.title)), None);
}

#[test]
fn workspace_name_wins_over_idx() {
    let workspaces = vec![workspace(1, 1, None, true), workspace(2, 2, Some("1"), false), workspace(3, 3, None, false)];
    assert_eq!(match_workspace("1", &workspaces), Some(1));
    assert_eq!(match_workspace("3", &workspaces), Some(2));
    assert_eq!(match_workspace("9", &workspaces), None);
    assert_eq!(match_workspace("web", &workspaces), None);
}

#[test]
fn empty_workspace_command_by_name_then_idx() {
    let config = EmptyPluginConfig {
        workspaces: vec![("2".to_string(), "firefox".to_string()), ("mail".to_string(), "thunderbird".to_string())],
    };
    assert_eq!(empty_command(&config, &workspace(5, 2, None, true)), Some("firefox".to_string()));
    assert_eq!(empty_command(&config, &workspace(5, 2, Some("mail"), true)), Some("thunderbird".to_string()));
    assert_eq!(empty_command(&config, &workspace(5, 3, None, true)), None);
    let workspaces = vec![workspace(5, 2, None, true)];
    assert_eq!(on_workspace_activated(&config, &workspaces, &Vec::new(), 5, true), Some("firefox".to_string()));
    assert_eq!(on_workspace_activated(&config, &workspaces, &Vec::new(), 5, false), None);
    let busy = vec![window(1, None, "x", Some(5))];
    assert!(!is_workspace_empty(&workspaces[0], &busy));
    assert_eq!(on_workspace_activated(&config, &workspaces, &busy, 5, true), None);
}

#[test]
fn focus_command_guard_spans_200_ms() {
    let mut g = FocusCommandGuard::new();
    assert!(g.allows(7, 1000));
    g.record(7, 1000);
    assert!(!g.allows(7, 1199));
    assert!(g.allows(7, 1200));
    assert!(g.allows(8, 1001));
}

#[test]
fn singleton_pattern_from_command() {
    let c = SingletonConfig { command: "/usr/bin/google-chrome-stable --new".to_string(), app_id: None, on_created_command: None };
    assert_eq!(singleton_pattern(&c), "google-chrome-stable");
    let c = SingletonConfig { command: "x".to_string(), app_id: Some("^Chrome$".to_string()), on_created_command: None };
    assert_eq!(singleton_pattern(&c), "^Chrome$");
}

#[test]
fn workspace_references_by_kind() {
    assert!(matches!(workspace_reference("3"), WorkspaceReference::Index(3)));
    assert!(matches!(workspace_reference("300"), WorkspaceReference::Id(300)));
    match workspace_reference("web") {
        WorkspaceReference::Name(n) => assert_eq!(n, "web"),
        _ => panic!("expected a name"),
    }
}

// ---- scratchpads

#[test]
fn first_toggle_launches_then_shows() {
    let mut m = ScratchpadManager::new(NiriIpc::new(None));
    let config = term_config();
    assert_eq!(m.window_source("term", &config, &Vec::new()), WindowSource::Launch);
    let windows = vec![window(50, Some("foot"), "foot", Some(1))];
    assert_eq!(m.window_source("term", &config, &windows), WindowSource::Adopt(50));
    m.bind("term", 50, config.clone(), false);
    assert!(!m.is_visible("term"));
    assert_eq!(m.get_window_id("term"), Some(50));
    assert_eq!(m.window_source("term", &config, &windows), WindowSource::Bound(50));
    assert_eq!(m.plan_visibility("term", false, Some(9)), Some(true));
    m.set_visible("term", true);
    assert!(m.is_visible("term"));
    assert_eq!(m.slot("term").unwrap().previous_focused, Some(9));
}

#[test]
fn second_toggle_hides_and_restores_focus() {
    let mut m = ScratchpadManager::new(NiriIpc::new(None));
    m.bind("term", 50, term_config(), false);
    assert_eq!(m.plan_visibility("term", true, Some(9)), Some(true));
    m.set_visible("term", true);
    assert_eq!(m.plan_visibility("term", true, Some(50)), Some(false));
    m.set_visible("term", false);
    assert!(!m.is_visible("term"));
    assert_eq!(m.slot("term").unwrap().previous_focused, Some(9));
    let (hx, hy) = hidden_target(Direction::FromTop, 1920, 1080, 1440, 648, 50).unwrap();
    assert_eq!(move_delta(240, 50, hx, hy), (0, -748));
    let windows = vec![window(9, Some("a"), "a", Some(1)), window(50, Some("foot"), "foot", Some(1))];
    assert_eq!(focus_after_hide(Some(9), &windows, 1, 50), Some(9));
}

#[test]
fn shown_elsewhere_is_brought_over() {
    assert!(next_visible(true, false));
    assert!(!next_visible(true, true));
    assert!(next_visible(false, true));
    assert!(next_visible(false, false));
}

#[test]
fn focus_after_hide_falls_back_to_middle_window() {
    let windows = vec![
        window(1, None, "a", Some(1)),
        window(2, None, "b", Some(1)),
        window(50, None, "pad", Some(1)),
        window(3, None, "c", Some(1)),
        window(4, None, "d", Some(2)),
    ];
    assert_eq!(focus_after_hide(Some(4), &windows, 1, 50), Some(2));
    assert_eq!(focus_after_hide(Some(99), &windows, 1, 50), Some(2));
    assert_eq!(focus_after_hide(None, &windows, 1, 50), None);
    assert_eq!(focus_after_hide(Some(4), &vec![window(50, None, "pad", Some(1))], 1, 50), None);
}

#[test]
fn added_scratchpad_is_dynamic_and_vanishes_with_its_window() {
    let mut m = ScratchpadManager::new(NiriIpc::new(None));
    let defaults = ScratchpadDefaults { default_size: default_size(), default_margin: default_margin(), move_to_workspace: None };
    let focused = window(77, Some("kitty"), "k", Some(1));
    let app = m.check_add("pad", Some(&focused), &vec![focused.clone()]).ok().unwrap();
    assert_eq!(app, "kitty");
    let config = added_config(Direction::FromLeft, app, &defaults, 77);
    assert_eq!(config.size, "75% 60%");
    assert_eq!(config.margin, 50);
    assert_eq!(config.command, "# window 77");
    m.bind("pad", 77, config.clone(), true);
    assert!(matches!(m.check_add("pad", Some(&focused), &vec![focused.clone()]), Err(ScratchpadError::AlreadyExists(_))));
    assert_eq!(m.get_config("pad", None).unwrap().app_id, "kitty");
    assert_eq!(m.window_source("pad", &config, &Vec::new()), WindowSource::Gone);
    m.remove_slot("pad");
    assert_eq!(m.get_window_id("pad"), None);
}

#[test]
fn add_needs_a_focused_window_with_app_id() {
    let m = ScratchpadManager::new(NiriIpc::new(None));
    assert!(matches!(m.check_add("pad", None, &Vec::new()), Err(ScratchpadError::NoFocusedWindow)));
    let w = window(1, None, "x", Some(1));
    assert!(matches!(m.check_add("pad", Some(&w), &vec![w.clone()]), Err(ScratchpadError::NoAppId)));
}

#[test]
fn untouched_names_have_no_slot() {
    let mut m = ScratchpadManager::new(NiriIpc::new(None));
    m.bind("term", 5, term_config(), false);
    assert!(m.slot("music").is_none());
    assert!(!m.is_visible("music"));
    assert_eq!(m.plan_visibility("music", true, None), None);
}

#[test]
fn unknown_scratchpad_is_refused() {
    let plugin = piri::plugins::ScratchpadsPlugin::new(NiriIpc::new(None));
    assert!(matches!(plugin.config_for("nope"), Err(ScratchpadError::NotFound(_))));
}

// ---- plugins and requests

#[test]
fn disabling_window_order_removes_the_plugin() {
    let mut pm = PluginManager::new();
    assert_eq!(pm.init_or_update_plugin(PluginKind::WindowOrder, true), Transition::Created);
    assert_eq!(pm.init_or_update_plugin(PluginKind::Swallow, true), Transition::Created);
    assert_eq!(pm.init_or_update_plugin(PluginKind::WindowOrder, true), Transition::Updated);
    assert_eq!(pm.handler_for(&IpcRequest::WindowOrderToggle), Some(PluginKind::WindowOrder));
    let config = Config::default();
    assert_eq!(pm.init_or_update_plugin(PluginKind::WindowOrder, config.is_window_order_enabled()), Transition::Removed);
    assert_eq!(pm.kinds(), vec![PluginKind::Swallow]);
    assert_eq!(pm.handler_for(&IpcRequest::WindowOrderToggle), None);
    match fallback(&config, &IpcRequest::WindowOrderToggle) {
        Fallback::Fail(Unhandled::NotEnabled(PluginKind::WindowOrder)) => {}
        _ => panic!("expected a not-enabled failure"),
    }
    assert_eq!(pm.init_or_update_plugin(PluginKind::Empty, false), Transition::Unchanged);
}

#[test]
fn fallback_answers_daemon_requests() {
    let config = Config::default();
    assert!(matches!(fallback(&config, &IpcRequest::Ping), Fallback::Pong));
    assert!(matches!(fallback(&config, &IpcRequest::Shutdown), Fallback::Shutdown));
    assert!(matches!(fallback(&config, &IpcRequest::Reload), Fallback::Reload));
    let mut enabled = Config::default();
    enabled.piri.plugins.scratchpads = Some(true);
    assert!(matches!(
        fallback(&enabled, &IpcRequest::ScratchpadToggle { name: "x".to_string() }),
        Fallback::Fail(Unhandled::NotInitialized(PluginKind::Scratchpads))
    ));
}

#[test]
fn frames_carry_a_big_endian_length() {
    let body = b"{\"Ping\":null}".to_vec();
    let f = encode_frame(&body);
    assert_eq!(&f[..4], &[0, 0, 0, 13]);
    assert_eq!(&f[4..], &body[..]);
    assert_eq!(frame_length(&[0, 0, 1, 2]), 258);
    assert_eq!(frame_length(&[1, 0, 0, 0]), 16777216);
}

#[test]
fn socket_path_defaults() {
    assert_eq!(socket_path_for(Some("/run/user/1000".to_string())), "/run/user/1000/piri.sock");
    assert_eq!(socket_path_for(None), "/tmp/piri.sock");
    assert_eq!(IpcClient::new(None, "/tmp/piri.sock".to_string()).socket_path, "/tmp/piri.sock");
    assert_eq!(IpcClient::new(Some("/x".to_string()), "/tmp/piri.sock".to_string()).socket_path, "/x");
}

// ---- configuration

fn table(entries: Vec<(&str, ConfigValue)>) -> ConfigValue {
    ConfigValue::Table(entries.into_iter().map(|(k, v)| (k.to_string(), v)).collect())
}

fn s(v: &str) -> ConfigValue {
    ConfigValue::Str(v.to_string())
}

#[test]
fn document_is_read_into_config() {
    let doc: ConfigTable = vec![
        ("niri".to_string(), table(vec![("socket_path", s("/run/niri.sock"))])),
        (
            "piri".to_string(),
            table(vec![
                ("scratchpad", table(vec![("default_size", s("40% 60%")), ("default_margin", ConfigValue::Int(20))])),
                ("plugins", table(vec![("scratchpads", ConfigValue::Bool(true)), ("window_order", ConfigValue::Bool(false))])),
                ("window_order", table(vec![("default_weight", ConfigValue::Int(3)), ("workspaces", ConfigValue::Array(vec![s("1"), s("web")]))])),
                ("swallow", table(vec![("use_pid_matching", ConfigValue::Bool(false))])),
            ]),
        ),
        (
            "scratchpads".to_string(),
            table(vec![
                ("term", table(vec![
                    ("direction", s("fromTop")),
                    ("command", s("foot")),
                    ("app_id", s("foot")),
                    ("size", s("75% 60%")),
                    ("margin", ConfigValue::Int(50)),
                ])),
                ("broken", table(vec![("direction", s("sideways"))])),
            ]),
        ),
        ("empty".to_string(), table(vec![("1", table(vec![("command", s("firefox"))]))])),
        ("window_order".to_string(), table(vec![("term", ConfigValue::Int(10)), ("editor", ConfigValue::Int(5))])),
        (
            "window_rule".to_string(),
            ConfigValue::Array(vec![
                table(vec![("app_id", s("^Firefox$")), ("open_on_workspace", s("web"))]),
                table(vec![("app_id", s("^x$"))]),
            ]),
        ),
        ("swallow".to_string(), ConfigValue::Array(vec![table(vec![("child_app_id", ConfigValue::Array(vec![s("mpv")]))])])),
    ];
    let c = Config::from_document(&doc);
    assert_eq!(c.niri.socket_path.as_deref(), Some("/run/niri.sock"));
    assert_eq!(c.piri.scratchpad.default_size, "40% 60%");
    assert_eq!(c.piri.scratchpad.default_margin, 20);
    assert!(c.is_scratchpads_enabled());
    assert!(!c.is_window_order_enabled());
    assert_eq!(c.piri.window_order.default_weight, 3);
    assert_eq!(c.piri.window_order.workspaces, vec!["1".to_string(), "web".to_string()]);
    assert!(!c.piri.swallow.use_pid_matching);
    assert_eq!(c.scratchpads.len(), 1);
    let term = c.get_scratchpad("term").unwrap();
    assert_eq!(term.direction, Direction::FromTop);
    assert_eq!(term.margin, 50);
    assert!(c.get_scratchpad("broken").is_none());
    assert_eq!(c.get_empty_plugin_config().unwrap().workspaces, vec![("1".to_string(), "firefox".to_string())]);
    assert_eq!(c.window_order, vec![("term".to_string(), 10), ("editor".to_string(), 5)]);
    assert_eq!(c.window_rule.len(), 1);
    assert_eq!(c.window_rule[0].open_on_workspace.as_deref(), Some("web"));
    assert_eq!(c.swallow.len(), 1);
    assert_eq!(c.swallow[0].child_app_id, Some(vec!["mpv".to_string()]));
    assert!(c.is_window_rule_enabled());
}

#[test]
fn empty_document_gives_defaults() {
    let c = Config::from_document(&Vec::new());
    assert_eq!(c.piri.scratchpad.default_size, "75% 60%");
    assert_eq!(c.piri.scratchpad.default_margin, 50);
    assert!(c.piri.swallow.use_pid_matching);
    assert!(!c.is_scratchpads_enabled());
    assert!(!c.is_empty_enabled());
    assert!(!c.is_autofill_enabled());
    assert!(!c.is_window_rule_enabled());
    assert!(c.get_empty_plugin_config().is_none());
    assert!(c.get_window_rule_plugin_config().is_none());
}

#[test]
fn output_size_and_window_queries() {
    let out = Output { name: "DP-1".to_string(), focused: true, logical: Some(OutputLogical { x: 0, y: 0, width: 2560, height: 1440 }) };
    assert_eq!(NiriIpc::get_output_dimensions(Some(&out)), (2560, 1440));
    assert_eq!(NiriIpc::get_output_dimensions(None), (1920, 1080));
    let workspaces = vec![workspace(10, 3, None, true)];
    assert_eq!(NiriIpc::get_workspace_idx_from_id(&workspaces, 10), Some(3));
    assert_eq!(NiriIpc::get_workspace_idx_from_id(&workspaces, 11), None);
    let mut w = window(1, None, "x", Some(10));
    w.floating = true;
    w.layout = Some(WindowLayout { tile_pos: Some((12, 34)), window_size: Some((800, 600)), pos_in_scrolling_layout: None });
    assert_eq!(NiriIpc::get_window_position(&vec![w.clone()], 1), Some((12, 34, 800, 600)));
    w.floating = false;
    assert_eq!(NiriIpc::get_window_position(&vec![w], 1), None);
}

#[test]
fn swallow_parent_by_pid_before_rules() {
    let rule = SwallowRule { parent_app_id: None, parent_title: None, child_app_id: None, child_title: None };
    let mut plugin = SwallowPlugin::new(SwallowPluginConfig { rules: vec![rule], use_pid_matching: true, exclude: None });
    let mut shell = window(1, Some("foot"), "shell", Some(1));
    shell.pid = Some(1000);
    let other = window(3, Some("firefox"), "web", Some(1));
    let mut child = window(2, Some("mpv"), "video", Some(1));
    child.pid = Some(1500);
    let windows = vec![other.clone(), shell.clone(), child.clone()];
    assert!(plugin.note_opened(&child));
    assert_eq!(plugin.choose_parent(&child, &windows, &vec![1000], Some(&other)).ok().unwrap(), Some(1));
    assert_eq!(plugin.choose_parent(&child, &windows, &vec![], Some(&other)).ok().unwrap(), Some(0));
    let exclude = piri::swallow::SwallowExclude { app_id: Some(vec!["mpv".to_string()]), title: None };
    let mut plugin = SwallowPlugin::new(SwallowPluginConfig { rules: Vec::new(), use_pid_matching: true, exclude: Some(exclude) });
    assert_eq!(plugin.choose_parent(&child, &windows, &vec![1000], None).ok().unwrap(), None);
}

#[test]
fn swallow_batch_brings_child_over() {
    let parent = window(1, Some("foot"), "shell", Some(10));
    let mut child = window(2, Some("mpv"), "video", Some(11));
    child.floating = true;
    let workspaces = vec![workspace(10, 1, Some("dev"), true), workspace(11, 2, None, false)];
    let batch = piri::swallow::swallow_batch(&parent, &child, &workspaces);
    assert_eq!(batch.len(), 5);
    match &batch[2] {
        Action::MoveWindowToWorkspace { window_id: 2, reference: WorkspaceReference::Name(n), focus: false } => assert_eq!(n, "dev"),
        _ => panic!("expected a move to the parent's workspace"),
    }
}
