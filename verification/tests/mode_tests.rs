use niri_tools::config::{BindAction, BindConfig, BindOption, ModeConfig};
use niri_tools::mode::{strip_super_key, ModeState};
use niri_tools::strmap::StrMap;

fn make_modes() -> StrMap<ModeConfig> {
    let mut modes = StrMap::new();
    modes.insert(
        "root".to_string(),
        ModeConfig {
            name: "root".to_string(),
            keep_open: false,
            binds: vec![
                BindConfig {
                    key: "Space".to_string(),
                    description: "Launcher".to_string(),
                    options: vec![],
                    action: BindAction::SpawnSh("rofi -show drun".to_string()),
                },
                BindConfig {
                    key: "b".to_string(),
                    description: "Brightness".to_string(),
                    options: vec![],
                    action: BindAction::SwitchMode("brightness".to_string()),
                },
            ],
        },
    );
    modes.insert(
        "brightness".to_string(),
        ModeConfig {
            name: "brightness".to_string(),
            keep_open: true,
            binds: vec![
                BindConfig {
                    key: "j".to_string(),
                    description: "-5".to_string(),
                    options: vec![BindOption::KeepOpen],
                    action: BindAction::SpawnSh("brightness -5".to_string()),
                },
                BindConfig {
                    key: "k".to_string(),
                    description: "+5".to_string(),
                    options: vec![],
                    action: BindAction::SpawnSh("brightness +5".to_string()),
                },
                BindConfig {
                    key: "?".to_string(),
                    description: "Query".to_string(),
                    options: vec![BindOption::Alias("q".to_string())],
                    action: BindAction::SpawnSh("brightness -q".to_string()),
                },
            ],
        },
    );
    modes
}

#[test]
fn push_and_current_mode() {
    let mut state = ModeState::new(make_modes());
    assert!(state.current_mode().is_none());

    assert!(state.push_mode("root"));
    assert_eq!(state.current_mode().unwrap().name, "root");

    assert!(state.push_mode("brightness"));
    assert_eq!(state.current_mode().unwrap().name, "brightness");
}

#[test]
fn push_nonexistent_mode_returns_false() {
    let mut state = ModeState::new(make_modes());
    assert!(!state.push_mode("nonexistent"));
    assert!(state.current_mode().is_none());
}

#[test]
fn pop_mode() {
    let mut state = ModeState::new(make_modes());
    state.push_mode("root");
    state.push_mode("brightness");

    assert!(state.pop_mode());
    assert_eq!(state.current_mode().unwrap().name, "root");

    assert!(state.pop_mode());
    assert!(state.current_mode().is_none());

    assert!(!state.pop_mode()); // empty stack
}

#[test]
fn clear_mode_stack() {
    let mut state = ModeState::new(make_modes());
    state.push_mode("root");
    state.push_mode("brightness");
    assert_eq!(state.depth(), 2);

    state.clear();
    assert_eq!(state.depth(), 0);
    assert!(state.current_mode().is_none());
}

#[test]
fn lookup_bind_exact_match() {
    let mut state = ModeState::new(make_modes());
    state.push_mode("root");

    let bind = state.lookup_bind("Space").unwrap();
    assert_eq!(bind.description, "Launcher");

    let bind = state.lookup_bind("b").unwrap();
    assert_eq!(bind.description, "Brightness");

    assert!(state.lookup_bind("z").is_none());
}

#[test]
fn lookup_bind_alias_match() {
    let mut state = ModeState::new(make_modes());
    state.push_mode("brightness");

    // "q" is an alias for "?"
    let bind = state.lookup_bind("q").unwrap();
    assert_eq!(bind.key, "?");
    assert_eq!(bind.description, "Query");
}

#[test]
fn lookup_bind_empty_stack_returns_none() {
    let state = ModeState::new(make_modes());
    assert!(state.lookup_bind("Space").is_none());
}

#[test]
fn current_keep_open() {
    let mut state = ModeState::new(make_modes());

    // No mode → false
    assert!(!state.current_keep_open());

    // Root mode → false
    state.push_mode("root");
    assert!(!state.current_keep_open());

    // Brightness mode → true
    state.push_mode("brightness");
    assert!(state.current_keep_open());
}

#[test]
fn update_modes() {
    let mut state = ModeState::new(make_modes());
    state.push_mode("root");
    assert_eq!(state.current_mode().unwrap().binds.len(), 2);

    // Update with new modes
    let mut new_modes = StrMap::new();
    new_modes.insert(
        "root".to_string(),
        ModeConfig {
            name: "root".to_string(),
            keep_open: false,
            binds: vec![BindConfig {
                key: "a".to_string(),
                description: "Only bind".to_string(),
                options: vec![],
                action: BindAction::SpawnSh("echo a".to_string()),
            }],
        },
    );
    state.update_modes(new_modes);

    // Stack still has "root" on it, and new mode definition is used
    assert_eq!(state.current_mode().unwrap().binds.len(), 1);
}

#[test]
fn lookup_bind_ignores_super() {
    let mut state = ModeState::new(make_modes());
    state.push_mode("root");
    assert_eq!(state.lookup_bind("Super+Space").unwrap().description, "Launcher");
    assert_eq!(state.lookup_bind("Mod+b").unwrap().description, "Brightness");
    assert_eq!(state.lookup_bind("Mod4+b").unwrap().description, "Brightness");
    // other modifiers count
    assert!(state.lookup_bind("Ctrl+b").is_none());
    state.push_mode("brightness");
    assert_eq!(state.lookup_bind("Super+q").unwrap().key, "?");
}

#[test]
fn strip_super_keeps_other_modifiers() {
    assert_eq!(strip_super_key("Super+Space"), "Space");
    assert_eq!(strip_super_key("Mod+Ctrl+j"), "Ctrl+j");
    assert_eq!(strip_super_key("Ctrl+Super+j"), "Ctrl+j");
    assert_eq!(strip_super_key("Ctrl+j"), "Ctrl+j");
    assert_eq!(strip_super_key("Mod4+Shift+Mod+x"), "Shift+x");
    // a key that is itself `+`, and names that only look like modifiers
    assert_eq!(strip_super_key("Mod++"), "+");
    assert_eq!(strip_super_key("Super+"), "Super+");
    assert_eq!(strip_super_key("Modx+a"), "Modx+a");
    assert_eq!(strip_super_key(""), "");
}

#[test]
fn depth_counts_successful_pushes_and_pops_since_clear() {
    let mut state = ModeState::new(make_modes());
    assert!(state.push_mode("root"));
    assert!(!state.push_mode("missing"));
    assert!(state.push_mode("brightness"));
    state.clear();
    assert!(state.push_mode("root"));
    assert!(state.push_mode("brightness"));
    assert!(state.pop_mode());
    state.update_modes(make_modes());
    let _ = state.lookup_bind("Space");
    assert_eq!(state.depth(), 1);
    assert!(state.pop_mode());
    assert!(!state.pop_mode());
    assert_eq!(state.depth(), 0);
}
