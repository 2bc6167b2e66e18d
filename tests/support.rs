use piri::actions::{Action, WorkspaceReference};
use piri::scratchpads::{hide_actions, in_current_workspace, setup_actions, show_actions, ScratchpadManager, TogglePlan};
use piri::config::ScratchpadConfig;
use piri::geometry::Direction;
use piri::niri::Workspace;
use piri::autofill::{align_actions, autofill_target};
use piri::commands::CommandHandler;
use piri::config::{key_index, Config, SingletonConfig};
use piri::config_value::{ConfigTable, ConfigValue};
use piri::matcher::{combine_outcomes, find_window_by_matcher, matches_window, outcome_of, WindowMatcher, WindowMatcherCache};
use piri::niri::{NiriIpc, Window, WindowLayout};
use piri::rules::first_focus_rule;
use piri::config::WindowRuleConfig;
use piri::swallow::{default_true, SwallowExclude, SwallowPlugin, SwallowPluginConfig, SwallowRule};
use piri::utils::process_name_bytes;
use piri::singleton::{SingletonManager, SingletonSource};
use piri::ipc::IpcResponse;
use piri::plugins::{unhandled_response, PluginKind, Unhandled};
use piri::scratchpads::ScratchpadError;

fn tile(id: u64, ws: u64, column: usize) -> Window {
    Window {
        id,
        title: format!("w{}", id),
        app_id: None,
        floating: false,
        workspace_id: Some(ws),
        pid: None,
        layout: Some(WindowLayout { tile_pos: None, window_size: None, pos_in_scrolling_layout: Some((column, 1)) }),
    }
}

#[test]
fn autofill_picks_the_last_column() {
    let windows = vec![tile(1, 1, 1), tile(2, 1, 3), tile(3, 1, 2), tile(4, 2, 9), tile(5, 1, 3)];
    assert_eq!(autofill_target(Some(1), &windows), Some(5));
    assert_eq!(autofill_target(Some(4), &windows), None);
    assert_eq!(autofill_target(None, &windows), None);
    let actions = align_actions(5);
    assert_eq!(actions.len(), 3);
    assert!(matches!(actions[0], Action::FocusWindow { id: 5 }));
    assert!(matches!(actions[1], Action::FocusColumnLeft));
    assert!(matches!(actions[2], Action::FocusColumnRight));
}

#[test]
fn focus_rule_needs_a_command() {
    let rules = vec![
        WindowRuleConfig {
            app_id: Some(vec!["term".to_string()]),
            title: None,
            open_on_workspace: Some("1".to_string()),
            focus_command: None,
            focus_command_once: false,
        },
        WindowRuleConfig {
            app_id: None,
            title: Some(vec!["vim".to_string()]),
            open_on_workspace: None,
            focus_command: Some("fcitx5-remote -c".to_string()),
            focus_command_once: false,
        },
    ];
    let mut cache = WindowMatcherCache::new();
    let app = "term".to_string();
    let title = "vim main.rs".to_string();
    assert_eq!(first_focus_rule(&mut cache, &rules, Some(&app), Some(&title)), Some(1));
    let other = "notes".to_string();
    assert_eq!(first_focus_rule(&mut cache, &rules, Some(&app), Some(&other)), None);
}

#[test]
fn process_name_is_cut_to_fifteen_bytes() {
    assert_eq!(process_name_bytes("piri"), Some(b"piri".to_vec()));
    assert_eq!(process_name_bytes("a-very-long-process-name"), Some(b"a-very-long-pro".to_vec()));
    assert_eq!(process_name_bytes("bad\0name"), None);
}

#[test]
fn swallow_scan_and_config_update() {
    let mut plugin = SwallowPlugin::new(SwallowPluginConfig { rules: Vec::new(), use_pid_matching: default_true(), exclude: None });
    let mut w = tile(8, 1, 1);
    w.pid = Some(42);
    plugin.initial_scan(&vec![w.clone(), tile(9, 1, 2)]);
    assert!(plugin.pid_map.references(8));
    assert!(!plugin.pid_map.references(9));
    assert!(!plugin.note_opened(&w));
    plugin.update_config(SwallowPluginConfig { rules: Vec::new(), use_pid_matching: false, exclude: None });
    assert!(!plugin.config.use_pid_matching);
    assert!(plugin.pid_map.references(8));
}

#[test]
fn older_empty_form_is_read() {
    let doc: ConfigTable = vec![(
        "piri".to_string(),
        ConfigValue::Table(vec![(
            "plugins".to_string(),
            ConfigValue::Table(vec![(
                "empty".to_string(),
                ConfigValue::Table(vec![(
                    "workspaces".to_string(),
                    ConfigValue::Table(vec![("2".to_string(), ConfigValue::Str("firefox".to_string()))]),
                )]),
            )]),
        )]),
    )];
    let c = Config::from_document(&doc);
    assert_eq!(c.piri.plugins.empty, None);
    let e = c.get_empty_plugin_config().unwrap();
    assert_eq!(e.workspaces, vec![("2".to_string(), "firefox".to_string())]);
}

#[test]
fn handler_keeps_config_and_path() {
    let mut config = Config::default();
    config.niri.socket_path = Some("/run/niri.sock".to_string());
    let mut h = CommandHandler::with_config_path(config, "/home/u/.config/niri/piri.toml".to_string());
    assert_eq!(h.config_path(), "/home/u/.config/niri/piri.toml");
    assert_eq!(h.niri().path(), Some("/run/niri.sock".to_string()));
    assert!(!h.config().is_scratchpads_enabled());
    assert!(!h.scratchpad_manager().is_visible("term"));
    let h = CommandHandler::new(Config::default());
    assert_eq!(h.config_path(), "");
    assert_eq!(NiriIpc::new(None).path(), None);
}

#[test]
fn entries_are_found_by_key() {
    let entries = vec![("a".to_string(), 1), ("b".to_string(), 2), ("b".to_string(), 3)];
    assert_eq!(key_index(&entries, "b"), Some(1));
    assert_eq!(key_index(&entries, "c"), None);
    let mut c = Config::default();
    c.singleton.push(("browser".to_string(), SingletonConfig { command: "firefox".to_string(), app_id: None, on_created_command: None }));
    assert_eq!(c.get_singleton("browser").unwrap().command, "firefox");
    assert!(c.get_singleton("mail").is_none());
}

#[test]
fn unhandled_requests_say_why() {
    let m = Unhandled::NotEnabled(PluginKind::WindowOrder).message();
    assert_eq!(
        m,
        "WindowOrder plugin is not enabled. Please enable it in the configuration file (piri.plugins.window_order = true)."
    );
    assert!(m.contains("plugin is not enabled"));
    let m = Unhandled::NotInitialized(PluginKind::Scratchpads).message();
    assert_eq!(m, "Scratchpads plugin is enabled but not initialized. Please restart the daemon.");
    match unhandled_response(Unhandled::NotEnabled(PluginKind::Singleton)) {
        IpcResponse::Error(m) => assert!(m.starts_with("Singleton plugin is not enabled")),
        _ => panic!("expected an error"),
    }
}

#[test]
fn scratchpad_errors_say_why() {
    assert_eq!(
        ScratchpadError::NotFound("term".to_string()).message(),
        "Scratchpad 'term' not found. Use 'piri scratchpads term add <direction>' to add it first."
    );
    assert_eq!(ScratchpadError::AlreadyExists("t".to_string()).message(), "Scratchpad 't' already exists");
    assert_eq!(ScratchpadError::ScratchpadGone("t".to_string()).message(), "Scratchpad 't' window is gone");
    assert_eq!(ScratchpadError::NoFocusedWindow.message(), "No focused window found");
    assert_eq!(ScratchpadError::NoAppId.message(), "Focused window has no app_id");
    assert_eq!(
        ScratchpadError::LaunchTimeout("t".to_string()).message(),
        "Timeout waiting for window to appear for scratchpad t"
    );
    assert_eq!(
        ScratchpadError::InvalidSize("big".to_string()).message(),
        "Size must be in format 'width% height%', got: big"
    );
}

#[test]
fn window_rule_config_is_copied_whole() {
    let mut c = Config::default();
    assert!(c.get_window_rule_plugin_config().is_none());
    c.window_rule.push(WindowRuleConfig {
        app_id: Some(vec!["a".to_string(), "b".to_string()]),
        title: None,
        open_on_workspace: Some("web".to_string()),
        focus_command: Some("cmd".to_string()),
        focus_command_once: true,
    });
    let p = c.get_window_rule_plugin_config().unwrap();
    assert_eq!(p.rules.len(), 1);
    assert_eq!(p.rules[0].app_id, Some(vec!["a".to_string(), "b".to_string()]));
    assert_eq!(p.rules[0].open_on_workspace.as_deref(), Some("web"));
    assert_eq!(p.rules[0].focus_command.as_deref(), Some("cmd"));
    assert!(p.rules[0].focus_command_once);
}

#[test]
fn scratchpad_action_lists() {
    let windows = vec![tile(5, 2, 1)];
    assert!(in_current_workspace(&windows, 5, Some(2)));
    assert!(!in_current_workspace(&windows, 5, Some(3)));
    assert!(!in_current_workspace(&windows, 6, Some(2)));
    assert!(!in_current_workspace(&windows, 5, None));
    let a = setup_actions(5, 1440, 648);
    assert!(matches!(a[0], Action::MoveWindowToFloating { id: 5 }));
    assert!(matches!(a[1], Action::SetWindowWidth { id: 5, width: 1440 }));
    assert!(matches!(a[2], Action::SetWindowHeight { id: 5, height: 648 }));
    let a = show_actions(5, 240, -698, (240, 50));
    assert_eq!(a.len(), 2);
    assert!(matches!(a[0], Action::MoveFloatingWindow { id: 5, dx: 0, dy: 748 }));
    assert!(matches!(a[1], Action::FocusWindow { id: 5 }));
    let a = hide_actions(5, 240, 50, (240, -698), None, Some(9));
    assert_eq!(a.len(), 2);
    assert!(matches!(a[0], Action::MoveFloatingWindow { id: 5, dx: 0, dy: -748 }));
    assert!(matches!(a[1], Action::FocusWindow { id: 9 }));
    let a = hide_actions(5, 240, 50, (240, -698), Some(WorkspaceReference::Index(9)), None);
    assert!(matches!(a[1], Action::MoveWindowToWorkspace { window_id: 5, reference: WorkspaceReference::Index(9), focus: false }));
}

#[test]
fn pattern_results_combine_in_order() {
    assert_eq!(outcome_of(&vec![]), Some(false));
    assert_eq!(outcome_of(&vec![Some(false), Some(true), None]), Some(true));
    assert_eq!(outcome_of(&vec![Some(false), None, Some(true)]), None);
    assert_eq!(outcome_of(&vec![Some(false), Some(false)]), Some(false));
    assert_eq!(combine_outcomes(Some(true), None), Some(true));
    assert_eq!(combine_outcomes(Some(false), Some(true)), Some(true));
    assert_eq!(combine_outcomes(Some(false), None), None);
    assert_eq!(combine_outcomes(None, Some(true)), None);
}

#[test]
fn first_window_by_matcher() {
    let mut a = tile(1, 1, 1);
    a.app_id = Some("foot".to_string());
    let mut b = tile(2, 1, 2);
    b.app_id = Some("firefox".to_string());
    let windows = vec![a, b];
    let mut cache = WindowMatcherCache::new();
    let m = WindowMatcher::new(Some(vec!["^fire".to_string()]), None);
    assert_eq!(find_window_by_matcher(&windows, &m, &mut cache).ok().unwrap(), Some(1));
    let m = WindowMatcher::new(None, Some(vec!["w2".to_string()]));
    assert_eq!(find_window_by_matcher(&windows, &m, &mut cache).ok().unwrap(), Some(1));
    let m = WindowMatcher::new(Some(vec!["zzz".to_string()]), None);
    assert_eq!(find_window_by_matcher(&windows, &m, &mut cache).ok().unwrap(), None);
    let m = WindowMatcher::new(Some(vec!["(".to_string()]), None);
    assert!(find_window_by_matcher(&windows, &m, &mut cache).is_err());
}

#[test]
fn singleton_bound_found_or_launched() {
    let config = SingletonConfig { command: "/usr/bin/firefox --new-window".to_string(), app_id: None, on_created_command: None };
    let mut m = SingletonManager::new();
    let mut cache = WindowMatcherCache::new();
    assert_eq!(m.source("web", &config, &Vec::new(), &mut cache).ok().unwrap(), SingletonSource::Launch);
    let mut w = tile(7, 1, 1);
    w.app_id = Some("firefox".to_string());
    let windows = vec![tile(6, 1, 2), w];
    assert_eq!(m.source("web", &config, &windows, &mut cache).ok().unwrap(), SingletonSource::Found(7));
    m.bind("web", 6);
    assert_eq!(m.bound("web"), Some(6));
    assert_eq!(m.source("web", &config, &windows, &mut cache).ok().unwrap(), SingletonSource::Bound(6));
    m.bind("mail", 9);
    m.unbind("web");
    assert_eq!(m.bound("web"), None);
    assert_eq!(m.bound("mail"), Some(9));
    assert_eq!(m.source("mail", &config, &windows, &mut cache).ok().unwrap(), SingletonSource::Found(7));
}

#[test]
fn include_and_exclude_patterns() {
    let mut cache = WindowMatcherCache::new();
    let mut w = tile(3, 1, 1);
    w.app_id = Some("mpv".to_string());
    w.title = "movie.mkv".to_string();
    let none: Option<Vec<String>> = None;
    let mpv = Some(vec!["^mpv$".to_string()]);
    let mkv = Some(vec!["\\.mkv$".to_string()]);
    assert_eq!(matches_window(&w, &none, &none, &none, &none, &mut cache).ok().unwrap(), true);
    assert_eq!(matches_window(&w, &mpv, &none, &none, &none, &mut cache).ok().unwrap(), true);
    assert_eq!(matches_window(&w, &mpv, &none, &none, &mkv, &mut cache).ok().unwrap(), false);
    assert_eq!(matches_window(&w, &none, &none, &mpv, &none, &mut cache).ok().unwrap(), false);
    let foot = Some(vec!["foot".to_string()]);
    assert_eq!(matches_window(&w, &foot, &none, &none, &none, &mut cache).ok().unwrap(), false);
    let bad = Some(vec!["(".to_string()]);
    assert!(matches_window(&w, &none, &none, &bad, &none, &mut cache).is_err());
}

#[test]
fn plugin_settings_come_from_the_config() {
    let mut c = Config::default();
    c.window_order.push(("term".to_string(), 10));
    c.piri.window_order.default_weight = 2;
    c.piri.window_order.workspaces.push("web".to_string());
    c.piri.window_order.enable_event_listener = true;
    let w = piri::window_order::WindowOrderConfig::from_config(&c);
    assert_eq!(w.weights, vec![("term".to_string(), 10)]);
    assert_eq!(w.default_weight, 2);
    assert_eq!(w.workspaces, vec!["web".to_string()]);
    assert!(w.enable_event_listener);
    c.swallow.push(SwallowRule { parent_app_id: Some(vec!["foot".to_string()]), parent_title: None, child_app_id: None, child_title: Some(vec!["x".to_string()]) });
    c.piri.swallow.use_pid_matching = false;
    c.piri.swallow.exclude = Some(SwallowExclude { app_id: None, title: Some(vec!["y".to_string()]) });
    let s = SwallowPluginConfig::from_config(&c);
    assert_eq!(s.rules.len(), 1);
    assert_eq!(s.rules[0].parent_app_id, Some(vec!["foot".to_string()]));
    assert_eq!(s.rules[0].child_title, Some(vec!["x".to_string()]));
    assert!(!s.use_pid_matching);
    assert_eq!(s.exclude.unwrap().title, Some(vec!["y".to_string()]));
}

#[test]
fn toggle_plan_shows_then_hides() {
    let config = ScratchpadConfig {
        direction: Direction::FromTop,
        command: "foot".to_string(),
        app_id: "foot".to_string(),
        size: "75% 60%".to_string(),
        margin: 50,
    };
    let mut m = ScratchpadManager::new(NiriIpc::new(None));
    let ws = Workspace { id: 1, idx: 1, name: None, is_focused: true, active_window_id: None };
    let mut pad = tile(50, 1, 1);
    pad.floating = true;
    pad.layout = Some(WindowLayout { tile_pos: Some((240, -698)), window_size: Some((1440, 648)), pos_in_scrolling_layout: None });
    let windows = vec![tile(9, 1, 1), pad.clone()];
    assert!(m.plan_toggle("term", &config, &windows, Some(&ws), Some(9), (1920, 1080), None).is_err());
    m.bind("term", 50, config.clone(), false);
    match m.plan_toggle("term", &config, &windows, Some(&ws), Some(9), (1920, 1080), None).ok().unwrap() {
        TogglePlan::Show { id, bring, width, height, target } => {
            assert_eq!((id, width, height, target), (50, 1440, 648, (240, 50)));
            assert_eq!(bring.len(), 1);
            assert!(matches!(bring[0], Action::MoveWindowToWorkspace { window_id: 50, reference: WorkspaceReference::Index(1), focus: false }));
        }
        TogglePlan::Hide { .. } => panic!("expected a show"),
    }
    m.set_visible("term", true);
    pad.layout = Some(WindowLayout { tile_pos: Some((240, 50)), window_size: Some((1440, 648)), pos_in_scrolling_layout: None });
    let windows = vec![tile(9, 1, 1), pad];
    match m.plan_toggle("term", &config, &windows, Some(&ws), Some(50), (1920, 1080), None).ok().unwrap() {
        TogglePlan::Hide { actions } => {
            assert_eq!(actions.len(), 2);
            assert!(matches!(actions[0], Action::MoveFloatingWindow { id: 50, dx: 0, dy: -748 }));
            assert!(matches!(actions[1], Action::FocusWindow { id: 9 }));
        }
        TogglePlan::Show { .. } => panic!("expected a hide"),
    }
    assert!(m.is_visible("term"));
}
