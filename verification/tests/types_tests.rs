use niri_tools::strmap::StrMap;
use niri_tools::types::{NiriEvent, OutputInfo, WindowInfo};

fn sample_window() -> WindowInfo {
    WindowInfo {
        id: 1,
        app_id: "foot".to_string(),
        title: "Terminal".to_string(),
        workspace_id: Some(10),
        is_focused: true,
        is_floating: false,
        width: 800,
        height: 600,
    }
}

fn sample_output() -> OutputInfo {
    OutputInfo {
        name: "eDP-1".to_string(),
        width: 1920,
        height: 1080,
    }
}

#[test]
fn niri_event_window_opened_or_changed() {
    let event = NiriEvent::WindowOpenedOrChanged(sample_window());
    if let NiriEvent::WindowOpenedOrChanged(w) = event {
        assert_eq!(w.id, 1);
    } else {
        panic!("wrong variant");
    }
}

#[test]
fn niri_event_windows_changed() {
    let event = NiriEvent::WindowsChanged(vec![sample_window()]);
    if let NiriEvent::WindowsChanged(ws) = event {
        assert_eq!(ws.len(), 1);
    } else {
        panic!("wrong variant");
    }
}

#[test]
fn niri_event_window_closed() {
    let event = NiriEvent::WindowClosed { id: 42 };
    assert_eq!(event, NiriEvent::WindowClosed { id: 42 });
}

#[test]
fn niri_event_window_focus_changed() {
    let event = NiriEvent::WindowFocusChanged { id: Some(1) };
    assert_eq!(event, NiriEvent::WindowFocusChanged { id: Some(1) });

    let event_none = NiriEvent::WindowFocusChanged { id: None };
    assert_eq!(event_none, NiriEvent::WindowFocusChanged { id: None });
}

#[test]
fn niri_event_workspace_activated() {
    let event = NiriEvent::WorkspaceActivated {
        id: 5,
        focused: true,
    };
    assert_eq!(
        event,
        NiriEvent::WorkspaceActivated {
            id: 5,
            focused: true
        }
    );
}

#[test]
fn niri_event_workspaces_changed() {
    let event = NiriEvent::WorkspacesChanged;
    assert_eq!(event, NiriEvent::WorkspacesChanged);
}

#[test]
fn niri_event_output_focus_changed() {
    let event = NiriEvent::OutputFocusChanged {
        output: Some("HDMI-A-1".to_string()),
    };
    if let NiriEvent::OutputFocusChanged { output } = event {
        assert_eq!(output.as_deref(), Some("HDMI-A-1"));
    } else {
        panic!("wrong variant");
    }
}

#[test]
fn niri_event_outputs_changed() {
    let mut outputs = StrMap::new();
    outputs.insert("eDP-1".to_string(), sample_output());
    let event = NiriEvent::OutputsChanged(outputs);
    if let NiriEvent::OutputsChanged(map) = event {
        assert_eq!(map.len(), 1);
        assert!(map.contains_key("eDP-1"));
    } else {
        panic!("wrong variant");
    }
}

#[test]
fn window_duplicate_is_equal() {
    let w = sample_window();
    assert_eq!(w.duplicate(), w);
    let o = sample_output();
    assert_eq!(o.duplicate(), o);
}
