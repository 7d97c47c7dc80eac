use niri_tools::protocol::{Command, Response};
use niri_tools::server::{cmdline_display, dispatch_command, ppid_from_status, response_for, Dispatch};
use niri_tools::config::{PositionConfig, ScratchpadConfig, SizeConfig};
use niri_tools::scratchpad::{apply_step, ScratchpadManager, Step};
use niri_tools::state::{DaemonState, SCRATCHPAD_WORKSPACE};
use niri_tools::strmap::StrMap;
use niri_tools::types::{OutputInfo, WindowInfo, WorkspaceInfo};

/// Carries out a plan as the daemon does, recording the niri actions.
fn run(state: &mut DaemonState, steps: Vec<Step>) -> Vec<(String, Vec<String>)> {
    let mut actions = Vec::new();
    for step in &steps {
        if let Step::Action { name, args } = step {
            actions.push((name.clone(), args.clone()));
        }
        apply_step(state, step);
    }
    actions
}

fn make_config(name: &str) -> ScratchpadConfig {
    ScratchpadConfig {
        name: name.to_string(),
        command: Some(vec!["ghostty".to_string()]),
        app_id: Some("ghostty".to_string()),
        title: None,
        auto_adopt: false,
        key: None,
        desc: None,
        size: Some(SizeConfig {
            width: "60%".to_string(),
            height: "60%".to_string(),
        }),
        position: Some(PositionConfig {
            x: "50%".to_string(),
            y: "50%".to_string(),
        }),
        output_overrides: StrMap::new(),
    }
}

fn make_window(id: u64, app_id: &str, is_focused: bool, is_floating: bool, workspace_id: Option<u64>) -> WindowInfo {
    WindowInfo {
        id,
        app_id: app_id.to_string(),
        title: "test".to_string(),
        workspace_id,
        is_focused,
        is_floating,
        width: 800,
        height: 600,
    }
}

fn make_workspace(id: u64, output: &str, is_active: bool, name: Option<&str>) -> WorkspaceInfo {
    WorkspaceInfo {
        id,
        idx: 1,
        output: output.to_string(),
        is_active,
        name: name.map(|s| s.to_string()),
    }
}

fn setup_state() -> DaemonState {
    let mut state = DaemonState::default();
    state.workspaces.insert(1, make_workspace(1, "eDP-1", true, Some("main")));
    state.workspaces.insert(2, make_workspace(2, "eDP-1", false, Some(SCRATCHPAD_WORKSPACE)));
    state.outputs.insert(
        "eDP-1".to_string(),
        OutputInfo {
            name: "eDP-1".to_string(),
            width: 1920,
            height: 1080,
        },
    );
    state.focused_output = Some("eDP-1".to_string());
    state
}

fn setup_state_with_config(name: &str) -> DaemonState {
    let mut state = setup_state();
    state.scratchpad_configs.insert(name.to_string(), make_config(name));
    state
}

#[test]
fn toggle_no_window_spawns() {
    let mut state = setup_state_with_config("term");
    let steps = ScratchpadManager::new(&state).toggle("term").unwrap();
    let actions = run(&mut state, steps);

    assert_eq!(actions.len(), 1);
    assert_eq!(actions[0].0, "spawn");
    assert_eq!(actions[0].1, vec!["--", "ghostty"]);
    assert!(state.pending_spawns.contains("term"));
}

#[test]
fn toggle_focused_floating_hides() {
    let mut state = setup_state_with_config("term");

    // Register a floating focused window
    let window = make_window(42, "ghostty", true, true, Some(1));
    state.windows.insert(42, window);
    state.register_scratchpad_window("term", 42);
    state.mark_scratchpad_visible("term");
    state.focused_window_id = Some(42);

    let steps = ScratchpadManager::new(&state).toggle("term").unwrap();
    let actions = run(&mut state, steps);

    // Should have move-window-to-workspace action
    assert!(actions.iter().any(|(action, args)| {
        action == "move-window-to-workspace"
            && args.contains(&SCRATCHPAD_WORKSPACE.to_string())
    }));
    assert!(!state.scratchpads.get("term").unwrap().visible);
}

#[test]
fn toggle_focused_tiled_focuses_previous() {
    let mut state = setup_state_with_config("term");

    // Register a tiled focused window
    let window = make_window(42, "ghostty", true, false, Some(1));
    state.windows.insert(42, window);
    state.register_scratchpad_window("term", 42);
    state.focused_window_id = Some(42);
    state.previous_focused_window_id = Some(99);

    // Add the previous window too
    let prev_window = make_window(99, "firefox", false, false, Some(1));
    state.windows.insert(99, prev_window);

    let steps = ScratchpadManager::new(&state).toggle("term").unwrap();
    let actions = run(&mut state, steps);

    assert!(actions.iter().any(|(action, args)| {
        action == "focus-window" && args.contains(&"99".to_string())
    }));
}

#[test]
fn toggle_different_workspace_floating_shows() {
    let mut state = setup_state_with_config("term");

    // Add a second workspace on another output
    state.workspaces.insert(3, make_workspace(3, "HDMI-A-1", true, Some("other")));

    // Window on workspace 3 (different from focused workspace 1), floating
    let window = make_window(42, "ghostty", false, true, Some(3));
    state.windows.insert(42, window);
    state.register_scratchpad_window("term", 42);

    let steps = ScratchpadManager::new(&state).toggle("term").unwrap();
    let actions = run(&mut state, steps);

    // Should configure (float, set size, set height) + move to monitor + focus
    assert!(actions.iter().any(|(action, _)| action == "move-window-to-floating"));
    assert!(actions.iter().any(|(action, _)| action == "move-window-to-monitor"));
    assert!(actions.iter().any(|(action, args)| {
        action == "focus-window" && args.contains(&"42".to_string())
    }));
    assert!(state.scratchpads.get("term").unwrap().visible);
}

#[test]
fn toggle_same_workspace_not_focused_focuses() {
    let mut state = setup_state_with_config("term");

    // Window on same workspace (1), not focused
    let window = make_window(42, "ghostty", false, true, Some(1));
    state.windows.insert(42, window);
    state.register_scratchpad_window("term", 42);
    state.focused_window_id = Some(99); // something else is focused

    let steps = ScratchpadManager::new(&state).toggle("term").unwrap();
    let actions = run(&mut state, steps);

    assert_eq!(actions.len(), 1);
    assert_eq!(actions[0].0, "focus-window");
    assert!(actions[0].1.contains(&"42".to_string()));
}

#[test]
fn toggle_different_workspace_tiled_on_scratchpad_ws_shows() {
    let mut state = setup_state_with_config("term");

    // Window on scratchpad workspace, tiled
    let window = make_window(42, "ghostty", false, false, Some(2));
    state.windows.insert(42, window);
    state.register_scratchpad_window("term", 42);

    let steps = ScratchpadManager::new(&state).toggle("term").unwrap();
    let actions = run(&mut state, steps);

    // Should show: configure + move to monitor + focus
    assert!(actions.iter().any(|(action, _)| action == "move-window-to-floating"));
    assert!(actions.iter().any(|(action, _)| action == "move-window-to-monitor"));
    assert!(actions.iter().any(|(action, args)| {
        action == "focus-window" && args.contains(&"42".to_string())
    }));
}

#[test]
fn toggle_different_workspace_tiled_not_scratchpad_ws_focuses() {
    let mut state = setup_state_with_config("term");

    // Add a third workspace (not scratchpad)
    state.workspaces.insert(3, make_workspace(3, "eDP-1", false, Some("code")));

    // Window on workspace 3, tiled, not scratchpad workspace
    let window = make_window(42, "ghostty", false, false, Some(3));
    state.windows.insert(42, window);
    state.register_scratchpad_window("term", 42);

    let steps = ScratchpadManager::new(&state).toggle("term").unwrap();
    let actions = run(&mut state, steps);

    // Should just focus where it is
    assert_eq!(actions.len(), 1);
    assert_eq!(actions[0].0, "focus-window");
    assert!(actions[0].1.contains(&"42".to_string()));
}

// -- smart_toggle tests --

#[test]
fn smart_toggle_focused_floating_scratchpad_hides() {
    let mut state = setup_state_with_config("term");

    let window = make_window(42, "ghostty", true, true, Some(1));
    state.windows.insert(42, window);
    state.register_scratchpad_window("term", 42);
    state.mark_scratchpad_visible("term");
    state.focused_window_id = Some(42);

    let steps = ScratchpadManager::new(&state).smart_toggle();
    let actions = run(&mut state, steps);

    assert!(actions.iter().any(|(action, args)| {
        action == "move-window-to-workspace"
            && args.contains(&SCRATCHPAD_WORKSPACE.to_string())
    }));
    assert!(!state.scratchpads.get("term").unwrap().visible);
}

#[test]
fn smart_toggle_no_scratchpad_focused_shows_most_recent_hidden() {
    let mut state = setup_state_with_config("term");

    // Register window but mark hidden
    let window = make_window(42, "ghostty", false, true, Some(2));
    state.windows.insert(42, window);
    state.register_scratchpad_window("term", 42);
    state.mark_scratchpad_hidden("term");

    // Focus is on a non-scratchpad window
    state.focused_window_id = Some(99);
    let other = make_window(99, "firefox", true, false, Some(1));
    state.windows.insert(99, other);

    let steps = ScratchpadManager::new(&state).smart_toggle();
    let actions = run(&mut state, steps);

    // Should show the hidden scratchpad
    assert!(actions.iter().any(|(action, _)| action == "move-window-to-floating"));
    assert!(actions.iter().any(|(action, _)| action == "move-window-to-monitor"));
    assert!(actions.iter().any(|(action, args)| {
        action == "focus-window" && args.contains(&"42".to_string())
    }));
    assert!(state.scratchpads.get("term").unwrap().visible);
}

// -- hide tests --

#[test]
fn hide_focused_floating_window_moves_to_scratchpad_workspace() {
    let mut state = setup_state_with_config("term");

    let window = make_window(42, "ghostty", true, true, Some(1));
    state.windows.insert(42, window);
    state.register_scratchpad_window("term", 42);
    state.mark_scratchpad_visible("term");
    state.focused_window_id = Some(42);

    let steps = ScratchpadManager::new(&state).hide_focused();
    let actions = run(&mut state, steps);

    assert!(actions.iter().any(|(action, args)| {
        action == "move-window-to-workspace"
            && args.contains(&SCRATCHPAD_WORKSPACE.to_string())
    }));
    assert!(!state.scratchpads.get("term").unwrap().visible);
}

#[test]
fn hide_untracked_floating_window_moves_to_scratchpad_workspace() {
    let mut state = setup_state();

    // Floating window that's not a tracked scratchpad
    let window = make_window(42, "random-app", true, true, Some(1));
    state.windows.insert(42, window);
    state.focused_window_id = Some(42);

    let steps = ScratchpadManager::new(&state).hide_focused();
    let actions = run(&mut state, steps);

    assert!(actions.iter().any(|(action, args)| {
        action == "move-window-to-workspace"
            && args.contains(&SCRATCHPAD_WORKSPACE.to_string())
    }));
}

#[test]
fn hide_tiled_window_does_nothing() {
    let mut state = setup_state();

    let window = make_window(42, "ghostty", true, false, Some(1));
    state.windows.insert(42, window);
    state.focused_window_id = Some(42);

    let steps = ScratchpadManager::new(&state).hide_focused();
    let actions = run(&mut state, steps);

    assert!(actions.is_empty());
}

// -- toggle_float tests --

#[test]
fn toggle_float_floating_to_tiled() {
    let mut state = setup_state_with_config("term");

    let window = make_window(42, "ghostty", true, true, Some(1));
    state.windows.insert(42, window);
    state.register_scratchpad_window("term", 42);
    state.mark_scratchpad_visible("term");
    state.focused_window_id = Some(42);

    let steps = ScratchpadManager::new(&state).toggle_float(Some("term")).unwrap();
    let actions = run(&mut state, steps);

    assert!(actions.iter().any(|(action, args)| {
        action == "move-window-to-tiling" && args.contains(&"42".to_string())
    }));
}

#[test]
fn toggle_float_tiled_to_floating() {
    let mut state = setup_state_with_config("term");

    let window = make_window(42, "ghostty", true, false, Some(1));
    state.windows.insert(42, window);
    state.register_scratchpad_window("term", 42);
    state.focused_window_id = Some(42);

    let steps = ScratchpadManager::new(&state).toggle_float(Some("term")).unwrap();
    let actions = run(&mut state, steps);

    // Should configure: float + set size + set height + position
    assert!(actions.iter().any(|(action, _)| action == "move-window-to-floating"));
    assert!(actions.iter().any(|(action, _)| action == "set-window-width"));
    assert!(actions.iter().any(|(action, _)| action == "set-window-height"));
}

// -- handle_window_opened tests --

#[test]
fn handle_window_opened_matches_pending_spawn() {
    let mut state = setup_state_with_config("term");
    state.pending_spawns.insert("term".to_string());

    let window = make_window(42, "ghostty", false, false, Some(1));

    let steps = ScratchpadManager::new(&state).handle_window_opened(&window);
    let actions = run(&mut state, steps);

    // Should be registered
    assert_eq!(state.get_scratchpad_for_window(42), Some("term"));
    assert!(state.scratchpads.get("term").unwrap().visible);
    assert!(!state.pending_spawns.contains("term"));

    // Should configure: float + set size + set height + position + focus
    assert!(actions.iter().any(|(action, _)| action == "move-window-to-floating"));
    assert!(actions.iter().any(|(action, args)| {
        action == "focus-window" && args.contains(&"42".to_string())
    }));
}

#[test]
fn handle_window_opened_no_match_does_nothing() {
    let mut state = setup_state_with_config("term");
    state.pending_spawns.insert("term".to_string());

    // Window with non-matching app_id
    let window = make_window(42, "firefox", false, false, Some(1));

    let steps = ScratchpadManager::new(&state).handle_window_opened(&window);
    let actions = run(&mut state, steps);

    // Should NOT be registered
    assert!(state.get_scratchpad_for_window(42).is_none());
    assert!(state.pending_spawns.contains("term"));

    assert!(actions.is_empty());
}

#[test]
fn configure_positions_window_by_expected_size() {
    let mut state = setup_state_with_config("term");
    let window = make_window(42, "ghostty", false, false, Some(3));
    state.windows.insert(42, window);
    state.register_scratchpad_window("term", 42);
    let steps = ScratchpadManager::new(&state).toggle_float(Some("term")).unwrap();
    let actions = run(&mut state, steps);
    // window 60% of 1920x1080 = 1152x648; 50% of the room left = (384, 216)
    assert!(actions.contains(&(
        "move-floating-window".to_string(),
        vec!["--id", "42", "--x", "384", "--y", "216"].into_iter().map(String::from).collect()
    )));
}

#[test]
fn toggle_unknown_scratchpad_is_an_error() {
    let state = setup_state();
    let err = ScratchpadManager::new(&state).toggle("nope").unwrap_err();
    assert_eq!(err.message(), "No scratchpad config for 'nope'");
}

#[test]
fn resolve_without_window_is_an_error() {
    let state = setup_state_with_config("term");
    let err = ScratchpadManager::new(&state).float_scratchpad(Some("term")).unwrap_err();
    assert_eq!(
        err.message(),
        "Scratchpad 'term' has no active window. Use 'toggle term' to spawn it."
    );
    let err = ScratchpadManager::new(&state).tile_scratchpad(None).unwrap_err();
    assert_eq!(
        err.message(),
        "No scratchpad to act on. Specify a scratchpad name or focus a scratchpad window first."
    );
}

#[test]
fn spawn_without_command_is_an_error() {
    let mut state = setup_state();
    let mut config = make_config("x");
    config.command = None;
    state.scratchpad_configs.insert("x".to_string(), config);
    let err = ScratchpadManager::new(&state).toggle("x").unwrap_err();
    assert_eq!(err.message(), "Scratchpad 'x' has no command to spawn");
}

#[test]
fn dispatch_routes_commands() {
    let state = setup_state_with_config("term");
    assert_eq!(dispatch_command(&state, &Command::DaemonStatus), Dispatch::Status);
    assert_eq!(dispatch_command(&state, &Command::DaemonStop), Dispatch::Stop);
    assert_eq!(dispatch_command(&state, &Command::DaemonRestart), Dispatch::Reload);
    match dispatch_command(&state, &Command::Toggle { name: Some("term".to_string()) }) {
        Dispatch::Plan(Ok(steps)) => assert_eq!(steps.len(), 2),
        other => panic!("unexpected {other:?}"),
    }
    assert_eq!(response_for(&Ok(())), Response::Success);
    assert_eq!(
        response_for(&Err(niri_tools::error::NiriToolsError::NiriCommand("boom".to_string()))),
        Response::Error("Niri command failed: boom".to_string())
    );
}

#[test]
fn cmdline_text_from_proc() {
    assert_eq!(cmdline_display("niri-tools-daemon\0--flag\0"), "niri-tools-daemon --flag");
}

#[test]
fn ppid_from_proc_status_text() {
    let status = "Name:\tbash\nUmask:\t0022\nState:\tS (sleeping)\nPid:\t4242\nPPid:\t1234\nTracerPid:\t0\n";
    assert_eq!(ppid_from_status(status), Some(1234));
    // the first PPid line decides, even when it holds no number
    assert_eq!(ppid_from_status("PPid: x\nPPid: 7\n"), None);
    assert_eq!(ppid_from_status("Pid: 3\nPPid:\t  9  \r\n"), Some(9));
    assert_eq!(ppid_from_status("Name: a\nPid: 3"), None);
    assert_eq!(ppid_from_status(""), None);
    assert_eq!(ppid_from_status("PPid:"), None);
    assert_eq!(ppid_from_status(" PPid: 5"), None);
}
