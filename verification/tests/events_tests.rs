use niri_tools::error::NiriToolsError;
use niri_tools::events::{event_from_line, focused_output_from_reply, outputs_from_reply, parse_window_info, windows_from_reply, workspaces_from_reply};
use niri_tools::events::{apply_event, parse_niri_event, parse_output_info, parse_workspace_info, EventAction};
use niri_tools::json::parse_json;
use niri_tools::state::DaemonState;
use niri_tools::strmap::StrMap;
use niri_tools::types::{NiriEvent, OutputInfo, WindowInfo, WorkspaceInfo};

#[test]
fn parse_window_opened_or_changed() {
    let json = parse_json(
        r#"{
            "WindowOpenedOrChanged": {
                "window": {
                    "id": 42,
                    "app_id": "ghostty",
                    "title": "Terminal",
                    "workspace_id": 1,
                    "is_focused": true,
                    "is_floating": false,
                    "width": 800,
                    "height": 600
                }
            }
        }"#,
    )
    .unwrap();

    let event = parse_niri_event(&json).unwrap();
    match event {
        NiriEvent::WindowOpenedOrChanged(w) => {
            assert_eq!(w.id, 42);
            assert_eq!(w.app_id, "ghostty");
            assert_eq!(w.title, "Terminal");
            assert_eq!(w.workspace_id, Some(1));
            assert!(w.is_focused);
            assert!(!w.is_floating);
            assert_eq!(w.width, 800);
            assert_eq!(w.height, 600);
        }
        other => panic!("Expected WindowOpenedOrChanged, got {other:?}"),
    }
}

#[test]
fn parse_window_opened_with_layout_size() {
    let json = parse_json(
        r#"{
            "WindowOpenedOrChanged": {
                "window": {
                    "id": 10,
                    "app_id": "foot",
                    "title": "bash",
                    "workspace_id": 2,
                    "is_focused": false,
                    "is_floating": true,
                    "layout": {
                        "window_size": [1200, 900]
                    }
                }
            }
        }"#,
    )
    .unwrap();

    let event = parse_niri_event(&json).unwrap();
    match event {
        NiriEvent::WindowOpenedOrChanged(w) => {
            assert_eq!(w.id, 10);
            assert_eq!(w.width, 1200);
            assert_eq!(w.height, 900);
        }
        other => panic!("Expected WindowOpenedOrChanged, got {other:?}"),
    }
}

#[test]
fn parse_windows_changed() {
    let json = parse_json(
        r#"{
            "WindowsChanged": {
                "windows": [
                    {
                        "id": 1,
                        "app_id": "ghostty",
                        "title": "Term 1",
                        "workspace_id": 1,
                        "is_focused": true,
                        "is_floating": false,
                        "width": 800,
                        "height": 600
                    },
                    {
                        "id": 2,
                        "app_id": "firefox",
                        "title": "Browser",
                        "workspace_id": 2,
                        "is_focused": false,
                        "is_floating": false,
                        "width": 1920,
                        "height": 1080
                    }
                ]
            }
        }"#,
    )
    .unwrap();

    let event = parse_niri_event(&json).unwrap();
    match event {
        NiriEvent::WindowsChanged(windows) => {
            assert_eq!(windows.len(), 2);
            assert_eq!(windows[0].id, 1);
            assert_eq!(windows[0].app_id, "ghostty");
            assert_eq!(windows[1].id, 2);
            assert_eq!(windows[1].app_id, "firefox");
        }
        other => panic!("Expected WindowsChanged, got {other:?}"),
    }
}

#[test]
fn parse_window_closed() {
    let json = parse_json(r#"{"WindowClosed": {"id": 99}}"#).unwrap();

    let event = parse_niri_event(&json).unwrap();
    assert_eq!(event, NiriEvent::WindowClosed { id: 99 });
}

#[test]
fn parse_window_focus_changed_with_id() {
    let json = parse_json(r#"{"WindowFocusChanged": {"id": 42}}"#).unwrap();

    let event = parse_niri_event(&json).unwrap();
    assert_eq!(event, NiriEvent::WindowFocusChanged { id: Some(42) });
}

#[test]
fn parse_window_focus_changed_without_id() {
    let json = parse_json(r#"{"WindowFocusChanged": {"id": null}}"#).unwrap();

    let event = parse_niri_event(&json).unwrap();
    assert_eq!(event, NiriEvent::WindowFocusChanged { id: None });
}

#[test]
fn parse_workspace_activated() {
    let json = parse_json(r#"{"WorkspaceActivated": {"id": 5, "focused": true}}"#).unwrap();

    let event = parse_niri_event(&json).unwrap();
    assert_eq!(
        event,
        NiriEvent::WorkspaceActivated {
            id: 5,
            focused: true
        }
    );
}

#[test]
fn parse_workspace_activated_not_focused() {
    let json = parse_json(r#"{"WorkspaceActivated": {"id": 3, "focused": false}}"#).unwrap();

    let event = parse_niri_event(&json).unwrap();
    assert_eq!(
        event,
        NiriEvent::WorkspaceActivated {
            id: 3,
            focused: false
        }
    );
}

#[test]
fn parse_workspaces_changed() {
    let json = parse_json(r#"{"WorkspacesChanged": {}}"#).unwrap();

    let event = parse_niri_event(&json).unwrap();
    assert_eq!(event, NiriEvent::WorkspacesChanged);
}

#[test]
fn parse_output_focus_changed() {
    let json = parse_json(r#"{"OutputFocusChanged": {"output": "HDMI-A-1"}}"#).unwrap();

    let event = parse_niri_event(&json).unwrap();
    assert_eq!(
        event,
        NiriEvent::OutputFocusChanged {
            output: Some("HDMI-A-1".to_string())
        }
    );
}

#[test]
fn parse_output_focus_changed_null() {
    let json = parse_json(r#"{"OutputFocusChanged": {"output": null}}"#).unwrap();

    let event = parse_niri_event(&json).unwrap();
    assert_eq!(event, NiriEvent::OutputFocusChanged { output: None });
}

#[test]
fn parse_outputs_changed() {
    let json = parse_json(
        r#"{
            "OutputsChanged": {
                "outputs": {
                    "eDP-1": {
                        "logical": {"width": 1920, "height": 1080}
                    },
                    "HDMI-A-1": {
                        "logical": {"width": 2560, "height": 1440}
                    }
                }
            }
        }"#,
    )
    .unwrap();

    let event = parse_niri_event(&json).unwrap();
    match event {
        NiriEvent::OutputsChanged(outputs) => {
            assert_eq!(outputs.len(), 2);
            let edp = outputs.get("eDP-1").unwrap();
            assert_eq!(edp.name, "eDP-1");
            assert_eq!(edp.width, 1920);
            assert_eq!(edp.height, 1080);
            let hdmi = outputs.get("HDMI-A-1").unwrap();
            assert_eq!(hdmi.name, "HDMI-A-1");
            assert_eq!(hdmi.width, 2560);
            assert_eq!(hdmi.height, 1440);
        }
        other => panic!("Expected OutputsChanged, got {other:?}"),
    }
}

#[test]
fn parse_unknown_event_returns_none() {
    let json = parse_json(r#"{"SomeFutureEvent": {"data": 123}}"#).unwrap();

    assert!(parse_niri_event(&json).is_none());
}

// ---------------------------------------------------------------
// parse_workspace_info tests
// ---------------------------------------------------------------

#[test]
fn parse_workspace_info_full() {
    let json = parse_json(
        r#"{"id": 3, "idx": 2, "output": "eDP-1", "is_active": true, "name": "code"}"#,
    )
    .unwrap();

    let ws = parse_workspace_info(&json).unwrap();
    assert_eq!(ws.id, 3);
    assert_eq!(ws.idx, 2);
    assert_eq!(ws.output, "eDP-1");
    assert!(ws.is_active);
    assert_eq!(ws.name, Some("code".to_string()));
}

#[test]
fn parse_workspace_info_without_name() {
    let json = parse_json(
        r#"{"id": 1, "idx": 1, "output": "HDMI-A-1", "is_active": false}"#,
    )
    .unwrap();

    let ws = parse_workspace_info(&json).unwrap();
    assert_eq!(ws.id, 1);
    assert!(ws.name.is_none());
}

// ---------------------------------------------------------------
// parse_output_info tests
// ---------------------------------------------------------------

#[test]
fn parse_output_info_with_logical() {
    let json = parse_json(r#"{"logical": {"width": 3840, "height": 2160}}"#).unwrap();

    let output = parse_output_info("DP-1", &json);
    assert_eq!(output.name, "DP-1");
    assert_eq!(output.width, 3840);
    assert_eq!(output.height, 2160);
}

#[test]
fn parse_output_info_without_logical() {
    let json = parse_json(r#"{}"#).unwrap();

    let output = parse_output_info("eDP-1", &json);
    assert_eq!(output.name, "eDP-1");
    assert_eq!(output.width, 0);
    assert_eq!(output.height, 0);
}

// ---------------------------------------------------------------
// Event application tests
// ---------------------------------------------------------------

fn make_window(id: u64) -> WindowInfo {
    WindowInfo {
        id,
        app_id: "test".to_string(),
        title: "test".to_string(),
        workspace_id: Some(1),
        is_focused: false,
        is_floating: false,
        width: 800,
        height: 600,
    }
}

fn make_workspace(id: u64, output: &str, is_active: bool) -> WorkspaceInfo {
    WorkspaceInfo {
        id,
        idx: 1,
        output: output.to_string(),
        is_active,
        name: None,
    }
}

#[test]
fn apply_window_opened_adds_to_state_and_returns_window_opened() {
    let mut state = DaemonState::default();
    let window = make_window(42);
    let event = NiriEvent::WindowOpenedOrChanged(window.clone());

    let action = apply_event(&mut state, &event);

    assert_eq!(action, EventAction::WindowOpened(window.clone()));
    assert!(state.windows.contains_key(&42));
    assert_eq!(state.windows.get(&42).unwrap().id, 42);
}

#[test]
fn apply_window_opened_updates_existing_returns_none() {
    let mut state = DaemonState::default();
    let window = make_window(42);
    state.windows.insert(42, window.clone());

    let mut updated = window.clone();
    updated.title = "updated".to_string();
    let event = NiriEvent::WindowOpenedOrChanged(updated.clone());

    let action = apply_event(&mut state, &event);

    assert_eq!(action, EventAction::Nothing);
    assert_eq!(state.windows.get(&42).unwrap().title, "updated");
}

#[test]
fn apply_windows_changed_reconciles() {
    let mut state = DaemonState::default();
    let w1 = WindowInfo {
        is_focused: true,
        ..make_window(1)
    };
    let w2 = make_window(2);
    let event = NiriEvent::WindowsChanged(vec![w1, w2]);

    let action = apply_event(&mut state, &event);

    match action {
        EventAction::Reconcile(ids) => {
            assert!(ids.contains(&1));
            assert!(ids.contains(&2));
            assert_eq!(ids.len(), 2);
        }
        other => panic!("Expected Reconcile, got {other:?}"),
    }
    assert_eq!(state.focused_window_id, Some(1));
    assert_eq!(state.windows.len(), 2);
}

#[test]
fn apply_window_closed_removes_from_state() {
    let mut state = DaemonState::default();
    state.windows.insert(42, make_window(42));

    let event = NiriEvent::WindowClosed { id: 42 };
    let action = apply_event(&mut state, &event);

    assert_eq!(action, EventAction::Nothing);
    assert!(!state.windows.contains_key(&42));
}

#[test]
fn apply_window_closed_returns_save_state_if_was_scratchpad() {
    let mut state = DaemonState::default();
    state.windows.insert(42, make_window(42));
    state.register_scratchpad_window("term", 42);

    let event = NiriEvent::WindowClosed { id: 42 };
    let action = apply_event(&mut state, &event);

    assert_eq!(action, EventAction::SaveState);
    assert!(!state.windows.contains_key(&42));
    assert!(!state.window_to_scratchpad.contains_key(&42));
}

#[test]
fn apply_window_focus_changed_updates_focus_tracking() {
    let mut state = DaemonState::default();
    state.windows.insert(1, make_window(1));
    state.windows.insert(2, make_window(2));
    state.focused_window_id = Some(1);

    // Focus window 2
    let event = NiriEvent::WindowFocusChanged { id: Some(2) };
    let action = apply_event(&mut state, &event);

    assert_eq!(action, EventAction::Nothing);
    assert_eq!(state.focused_window_id, Some(2));
    assert_eq!(state.previous_focused_window_id, Some(1));
    assert!(state.windows.get(&2).unwrap().is_focused);
    assert!(!state.windows.get(&1).unwrap().is_focused);
}

#[test]
fn apply_window_focus_changed_to_none() {
    let mut state = DaemonState::default();
    state.windows.insert(1, make_window(1));
    state.focused_window_id = Some(1);

    let event = NiriEvent::WindowFocusChanged { id: None };
    let action = apply_event(&mut state, &event);

    assert_eq!(action, EventAction::Nothing);
    assert_eq!(state.focused_window_id, None);
    assert_eq!(state.previous_focused_window_id, Some(1));
}

#[test]
fn apply_window_focus_changed_does_not_update_previous_when_same() {
    let mut state = DaemonState::default();
    state.windows.insert(1, make_window(1));
    state.focused_window_id = Some(1);

    // "Focus" same window again
    let event = NiriEvent::WindowFocusChanged { id: Some(1) };
    let action = apply_event(&mut state, &event);

    assert_eq!(action, EventAction::Nothing);
    assert_eq!(state.focused_window_id, Some(1));
    // previous should not be set since focus didn't change
    assert_eq!(state.previous_focused_window_id, None);
}

#[test]
fn apply_workspace_activated_updates_active_state() {
    let mut state = DaemonState::default();
    state.workspaces.insert(1, make_workspace(1, "eDP-1", true));
    state
        .workspaces
        .insert(2, make_workspace(2, "eDP-1", false));
    state
        .workspaces
        .insert(3, make_workspace(3, "HDMI-A-1", true));

    let event = NiriEvent::WorkspaceActivated {
        id: 2,
        focused: true,
    };
    let action = apply_event(&mut state, &event);

    assert_eq!(action, EventAction::Nothing);
    // Workspace 2 should be active, workspace 1 should not
    assert!(state.workspaces.get(&2).unwrap().is_active);
    assert!(!state.workspaces.get(&1).unwrap().is_active);
    // Workspace 3 on different output should be unaffected
    assert!(state.workspaces.get(&3).unwrap().is_active);
    assert_eq!(state.focused_output, Some("eDP-1".to_string()));
}

#[test]
fn apply_workspace_activated_not_focused() {
    let mut state = DaemonState::default();
    state.workspaces.insert(1, make_workspace(1, "eDP-1", true));
    state
        .workspaces
        .insert(2, make_workspace(2, "eDP-1", false));
    state.focused_output = Some("HDMI-A-1".to_string());

    let event = NiriEvent::WorkspaceActivated {
        id: 2,
        focused: false,
    };
    apply_event(&mut state, &event);

    // focused_output should remain unchanged
    assert_eq!(state.focused_output, Some("HDMI-A-1".to_string()));
}

#[test]
fn apply_workspaces_changed_returns_reload() {
    let mut state = DaemonState::default();
    let event = NiriEvent::WorkspacesChanged;
    let action = apply_event(&mut state, &event);
    assert_eq!(action, EventAction::ReloadWorkspaces);
}

#[test]
fn apply_output_focus_changed() {
    let mut state = DaemonState::default();
    let event = NiriEvent::OutputFocusChanged {
        output: Some("HDMI-A-1".to_string()),
    };
    let action = apply_event(&mut state, &event);

    assert_eq!(action, EventAction::Nothing);
    assert_eq!(state.focused_output, Some("HDMI-A-1".to_string()));
}

#[test]
fn apply_outputs_changed_replaces_outputs() {
    let mut state = DaemonState::default();
    state.outputs.insert(
        "old".to_string(),
        OutputInfo {
            name: "old".to_string(),
            width: 100,
            height: 100,
        },
    );

    let mut new_outputs = StrMap::new();
    new_outputs.insert(
        "eDP-1".to_string(),
        OutputInfo {
            name: "eDP-1".to_string(),
            width: 1920,
            height: 1080,
        },
    );

    let event = NiriEvent::OutputsChanged(new_outputs);
    let action = apply_event(&mut state, &event);

    assert_eq!(action, EventAction::Nothing);
    assert_eq!(state.outputs.len(), 1);
    assert!(state.outputs.contains_key("eDP-1"));
    assert!(!state.outputs.contains_key("old"));
}

#[test]
fn apply_window_focus_changed_updates_scratchpad_recency() {
    let mut state = DaemonState::default();
    state.windows.insert(42, make_window(42));
    state.register_scratchpad_window("term", 42);

    let before = state.scratchpads.get("term").unwrap().last_used;

    let event = NiriEvent::WindowFocusChanged { id: Some(42) };
    apply_event(&mut state, &event);

    let after = state.scratchpads.get("term").unwrap().last_used;
    assert!(after >= before);
}

#[test]
fn event_lines_blank_bad_and_good() {
    assert!(event_from_line("   ").is_none());
    assert!(matches!(
        event_from_line("{not json"),
        Some(Err(NiriToolsError::Serialization(_)))
    ));
    assert_eq!(
        event_from_line(r#"{"WindowClosed": {"id": 7}}"#),
        Some(Ok(NiriEvent::WindowClosed { id: 7 }))
    );
    assert!(event_from_line(r#"{"Unknown": {}}"#).is_none());
}

#[test]
fn replies_from_niri_msg() {
    let ws = windows_from_reply(r#"[{"id": 1, "app_id": "a"}, {"app_id": "no id"}]"#).unwrap();
    assert_eq!(ws.len(), 1);
    assert_eq!(ws[0].app_id, "a");
    assert_eq!(
        windows_from_reply("{}"),
        Err(NiriToolsError::NiriCommand("expected array from niri msg windows".to_string()))
    );
    let wss = workspaces_from_reply(r#"[{"id": 3, "output": "eDP-1", "is_active": true}]"#).unwrap();
    assert_eq!(wss[0].output, "eDP-1");
    let outs = outputs_from_reply(r#"{"eDP-1": {"logical": {"width": 1280, "height": 800}}}"#).unwrap();
    assert_eq!(outs.get("eDP-1").unwrap().width, 1280);
    assert_eq!(focused_output_from_reply(r#"{"name": "DP-2"}"#), Ok("DP-2".to_string()));
    assert!(matches!(focused_output_from_reply("[]"), Err(NiriToolsError::NiriCommand(_))));
    assert!(matches!(focused_output_from_reply("nope"), Err(NiriToolsError::Serialization(_))));
}

#[test]
fn window_size_from_layout_and_truncation() {
    let json = parse_json(r#"{"id": 5, "layout": {"window_size": [4294967297, 20]}}"#).unwrap();
    let w = parse_window_info(&json).unwrap();
    // 2^32 + 1 truncates to 1, as `as u32` does
    assert_eq!((w.width, w.height), (1, 20));
    assert_eq!(w.app_id, "");
    assert!(!w.is_focused);
}

#[test]
fn events_keep_scratchpads_and_windows_paired() {
    let mut state = DaemonState::default();
    state.windows.insert(42, make_window(42));
    state.windows.insert(7, make_window(7));
    state.register_scratchpad_window("term", 42);
    state.register_scratchpad_window("music", 7);

    apply_event(&mut state, &NiriEvent::WindowFocusChanged { id: Some(42) });
    apply_event(&mut state, &NiriEvent::WindowClosed { id: 42 });

    // the closed window's scratchpad lets go of it; the other pair stays
    assert_eq!(state.scratchpads.get("term").unwrap().window_id, None);
    assert!(!state.window_to_scratchpad.contains_key(&42));
    assert_eq!(state.scratchpads.get("music").unwrap().window_id, Some(7));
    assert_eq!(state.window_to_scratchpad.get(&7).map(|s| s.as_str()), Some("music"));
}
