use std::collections::HashSet;

use niri_tools::state::{DaemonState, PersistedState, ScratchpadState, SCRATCHPAD_WORKSPACE};
use niri_tools::types::{OutputInfo, WindowInfo, WorkspaceInfo};

fn make_workspace(id: u64, output: &str, is_active: bool, name: Option<&str>) -> WorkspaceInfo {
    WorkspaceInfo {
        id,
        idx: 1,
        output: output.to_string(),
        is_active,
        name: name.map(|s| s.to_string()),
    }
}

fn make_window(id: u64, workspace_id: Option<u64>) -> WindowInfo {
    WindowInfo {
        id,
        app_id: "test".to_string(),
        title: "test".to_string(),
        workspace_id,
        is_focused: false,
        is_floating: false,
        width: 800,
        height: 600,
    }
}

fn make_output(name: &str) -> OutputInfo {
    OutputInfo {
        name: name.to_string(),
        width: 1920,
        height: 1080,
    }
}

fn setup_state_with_workspaces() -> DaemonState {
    let mut state = DaemonState::default();
    state.workspaces.insert(1, make_workspace(1, "eDP-1", true, Some("main")));
    state.workspaces.insert(2, make_workspace(2, "eDP-1", false, Some("code")));
    state.workspaces.insert(3, make_workspace(3, "HDMI-A-1", true, Some("web")));
    state.outputs.insert("eDP-1".to_string(), make_output("eDP-1"));
    state.outputs.insert("HDMI-A-1".to_string(), make_output("HDMI-A-1"));
    state.focused_output = Some("eDP-1".to_string());
    state
}

#[test]
fn get_active_workspace_for_output_returns_correct_workspace() {
    let state = setup_state_with_workspaces();
    let ws = state.get_active_workspace_for_output("eDP-1").unwrap();
    assert_eq!(ws.id, 1);
    assert_eq!(ws.name.as_deref(), Some("main"));
}

#[test]
fn get_active_workspace_for_output_returns_none_for_unknown() {
    let state = setup_state_with_workspaces();
    assert!(state.get_active_workspace_for_output("VGA-1").is_none());
}

#[test]
fn get_focused_workspace_returns_workspace_on_focused_output() {
    let state = setup_state_with_workspaces();
    let ws = state.get_focused_workspace().unwrap();
    assert_eq!(ws.id, 1);
    assert_eq!(ws.output, "eDP-1");
}

#[test]
fn get_focused_workspace_returns_none_when_no_focused_output() {
    let mut state = setup_state_with_workspaces();
    state.focused_output = None;
    assert!(state.get_focused_workspace().is_none());
}

#[test]
fn is_on_scratchpad_workspace_returns_true() {
    let mut state = DaemonState::default();
    state.workspaces.insert(10, make_workspace(10, "eDP-1", true, Some(SCRATCHPAD_WORKSPACE)));
    let window = make_window(1, Some(10));
    assert!(state.is_on_scratchpad_workspace(&window));
}

#[test]
fn is_on_scratchpad_workspace_returns_false_for_normal() {
    let mut state = DaemonState::default();
    state.workspaces.insert(10, make_workspace(10, "eDP-1", true, Some("main")));
    let window = make_window(1, Some(10));
    assert!(!state.is_on_scratchpad_workspace(&window));
}

#[test]
fn is_on_scratchpad_workspace_returns_false_for_no_workspace() {
    let state = DaemonState::default();
    let window = make_window(1, None);
    assert!(!state.is_on_scratchpad_workspace(&window));
}

#[test]
fn register_scratchpad_window_creates_mapping_and_state() {
    let mut state = DaemonState::default();
    state.register_scratchpad_window("term", 42);
    assert_eq!(state.window_to_scratchpad.get(&42), Some(&"term".to_string()));
    let sp = state.scratchpads.get("term").unwrap();
    assert_eq!(sp.window_id, Some(42));
    assert!(sp.last_used > 0);
}

#[test]
fn register_scratchpad_window_on_existing_updates_window_id() {
    let mut state = DaemonState::default();
    state.register_scratchpad_window("term", 42);
    state.register_scratchpad_window("term", 99);
    assert!(state.window_to_scratchpad.get(&42).is_none());
    assert_eq!(state.window_to_scratchpad.get(&99), Some(&"term".to_string()));
    let sp = state.scratchpads.get("term").unwrap();
    assert_eq!(sp.window_id, Some(99));
}

#[test]
fn unregister_scratchpad_window_clears_mappings() {
    let mut state = DaemonState::default();
    state.register_scratchpad_window("term", 42);
    state.unregister_scratchpad_window(42);
    assert!(state.window_to_scratchpad.get(&42).is_none());
    let sp = state.scratchpads.get("term").unwrap();
    assert_eq!(sp.window_id, None);
    assert!(!sp.visible);
}

#[test]
fn get_scratchpad_for_window_returns_correct_name() {
    let mut state = DaemonState::default();
    state.register_scratchpad_window("term", 42);
    assert_eq!(state.get_scratchpad_for_window(42), Some("term"));
    assert_eq!(state.get_scratchpad_for_window(99), None);
}

#[test]
fn mark_scratchpad_visible_sets_visible_and_updates_last_used() {
    let mut state = DaemonState::default();
    state.register_scratchpad_window("term", 42);
    let before = state.scratchpads.get("term").unwrap().last_used;
    state.mark_scratchpad_visible("term");
    let sp = state.scratchpads.get("term").unwrap();
    assert!(sp.visible);
    assert!(sp.last_used >= before);
}

#[test]
fn mark_scratchpad_hidden_clears_visible_and_updates_last_used() {
    let mut state = DaemonState::default();
    state.register_scratchpad_window("term", 42);
    state.mark_scratchpad_visible("term");
    state.mark_scratchpad_hidden("term");
    let sp = state.scratchpads.get("term").unwrap();
    assert!(!sp.visible);
}

#[test]
fn update_scratchpad_recency_updates_last_used() {
    let mut state = DaemonState::default();
    state.register_scratchpad_window("term", 42);
    let before = state.scratchpads.get("term").unwrap().last_used;
    state.update_scratchpad_recency(42);
    let after = state.scratchpads.get("term").unwrap().last_used;
    assert!(after >= before);
}

#[test]
fn update_scratchpad_recency_ignores_non_scratchpad_windows() {
    let mut state = DaemonState::default();
    state.update_scratchpad_recency(999);
    assert!(state.scratchpads.is_empty());
}

fn with_time(state: &mut DaemonState, name: &str, window: Option<u64>, visible: bool, last_used: u64) {
    state.scratchpads.insert(
        name.to_string(),
        ScratchpadState {
            window_id: window,
            visible,
            last_used,
        },
    );
}

#[test]
fn get_most_recent_hidden_scratchpad_returns_most_recent() {
    let mut state = DaemonState::default();
    with_time(&mut state, "term", Some(42), false, 100);
    with_time(&mut state, "browser", Some(43), false, 200);
    assert_eq!(state.get_most_recent_hidden_scratchpad(), Some("browser"));
}

#[test]
fn get_most_recent_hidden_scratchpad_skips_visible() {
    let mut state = DaemonState::default();
    with_time(&mut state, "term", Some(42), false, 100);
    with_time(&mut state, "browser", Some(43), true, 200);
    assert_eq!(state.get_most_recent_hidden_scratchpad(), Some("term"));
}

#[test]
fn get_most_recent_hidden_scratchpad_skips_no_window() {
    let mut state = DaemonState::default();
    state.scratchpads.insert("empty".to_string(), ScratchpadState::default());
    state.register_scratchpad_window("term", 42);
    assert_eq!(state.get_most_recent_hidden_scratchpad(), Some("term"));
}

#[test]
fn get_most_recent_hidden_scratchpad_returns_none_when_all_visible() {
    let mut state = DaemonState::default();
    state.register_scratchpad_window("term", 42);
    state.mark_scratchpad_visible("term");
    assert!(state.get_most_recent_hidden_scratchpad().is_none());
}

#[test]
fn most_recent_hidden_ties_go_to_the_later_entry() {
    let mut state = DaemonState::default();
    with_time(&mut state, "a", Some(1), false, 100);
    with_time(&mut state, "b", Some(2), false, 100);
    assert_eq!(state.get_most_recent_hidden_scratchpad(), Some("b"));
}

#[test]
fn save_and_load_scratchpad_state_roundtrip() {
    let mut state = DaemonState::default();
    state.register_scratchpad_window("term", 42);
    state.mark_scratchpad_visible("term");
    state.register_scratchpad_window("browser", 43);

    let persisted = state.to_persisted("/run/user/1000/niri.1234.0.sock");
    assert_eq!(persisted.window_to_scratchpad.len(), 2);
    assert!(persisted
        .window_to_scratchpad
        .contains(&("42".to_string(), "term".to_string())));

    let mut state2 = DaemonState::default();
    assert!(state2.restore(&persisted, "/run/user/1000/niri.1234.0.sock"));

    assert_eq!(state2.window_to_scratchpad.get(&42), Some(&"term".to_string()));
    assert_eq!(state2.window_to_scratchpad.get(&43), Some(&"browser".to_string()));

    let sp_term = state2.scratchpads.get("term").unwrap();
    assert_eq!(sp_term.window_id, Some(42));
    assert!(sp_term.visible);

    let sp_browser = state2.scratchpads.get("browser").unwrap();
    assert_eq!(sp_browser.window_id, Some(43));
    assert!(!sp_browser.visible);
}

#[test]
fn load_scratchpad_state_returns_false_for_session_mismatch() {
    let mut state = DaemonState::default();
    state.register_scratchpad_window("term", 42);
    let persisted = state.to_persisted("/run/user/1000/niri.1234.0.sock");

    let mut state2 = DaemonState::default();
    assert!(!state2.restore(&persisted, "/run/user/1000/niri.9999.0.sock"));
    assert!(state2.scratchpads.is_empty());
}

#[test]
fn restore_skips_window_ids_that_are_not_numbers() {
    let persisted = PersistedState {
        niri_session: "s".to_string(),
        scratchpads: vec![],
        window_to_scratchpad: vec![
            ("abc".to_string(), "x".to_string()),
            ("+7".to_string(), "y".to_string()),
        ],
    };
    let mut state = DaemonState::default();
    assert!(state.restore(&persisted, "s"));
    assert_eq!(state.window_to_scratchpad.len(), 1);
    assert_eq!(state.get_scratchpad_for_window(7), Some("y"));
}

#[test]
fn reconcile_with_windows_removes_orphaned_mappings() {
    let mut state = DaemonState::default();
    state.register_scratchpad_window("term", 42);
    state.register_scratchpad_window("browser", 43);

    let mut existing = HashSet::new();
    existing.insert(42);
    state.reconcile_with_windows(&existing);

    assert_eq!(state.window_to_scratchpad.get(&42), Some(&"term".to_string()));
    assert_eq!(state.scratchpads.get("term").unwrap().window_id, Some(42));

    assert!(state.window_to_scratchpad.get(&43).is_none());
    let sp_browser = state.scratchpads.get("browser").unwrap();
    assert_eq!(sp_browser.window_id, None);
    assert!(!sp_browser.visible);
}

#[test]
fn stamp_scratchpad_for_window_sets_owner_time_only() {
    let mut state = DaemonState::default();
    with_time(&mut state, "term", Some(42), true, 5);
    with_time(&mut state, "music", Some(7), false, 9);
    state.window_to_scratchpad.insert(42, "term".to_string());
    state.window_to_scratchpad.insert(7, "music".to_string());
    state.stamp_scratchpad_for_window(42, 1234);
    let term = state.scratchpads.get("term").unwrap();
    assert_eq!((term.window_id, term.visible, term.last_used), (Some(42), true, 1234));
    assert_eq!(state.scratchpads.get("music").unwrap().last_used, 9);
    // a window no scratchpad owns changes nothing
    state.stamp_scratchpad_for_window(999, 77);
    assert_eq!(state.scratchpads.get("term").unwrap().last_used, 1234);
    assert_eq!(state.scratchpads.get("music").unwrap().last_used, 9);
}
