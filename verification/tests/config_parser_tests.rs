use niri_tools::config::{BindAction, BindOption, DaemonSettings, NotifyLevel};
use niri_tools::config_parser::{
    apply_node, enter_config_file, include_failed, include_not_found, missing_config, read_config_text,
    validate_config, LoadedConfig,
};
use niri_tools::strmap::StrSet;
use niri_tools::error::NiriToolsError;
use niri_tools::kdl_doc::Number;

/// Reads one configuration text the way the daemon reads a file without includes.
fn load_from_str(content: &str) -> Result<LoadedConfig, NiriToolsError> {
    let doc = read_config_text("niri-tools.kdl", content)?;
    let mut config = LoadedConfig::default();
    for node in &doc.nodes {
        let _ = apply_node(node, &mut config);
    }
    validate_config(&mut config);
    Ok(config)
}

#[test]
fn parse_settings_notify_all() {
    let cfg = load_from_str(r#"settings { notify "all"; }"#).unwrap();
    assert_eq!(cfg.settings.notify_level, NotifyLevel::All);
}

#[test]
fn parse_settings_notify_error() {
    let cfg = load_from_str(r#"settings { notify "error"; }"#).unwrap();
    assert_eq!(cfg.settings.notify_level, NotifyLevel::Error);
}

#[test]
fn parse_settings_notify_warning() {
    let cfg = load_from_str(r#"settings { notify "warning"; }"#).unwrap();
    assert_eq!(cfg.settings.notify_level, NotifyLevel::Warning);
}

#[test]
fn parse_settings_notify_none() {
    let cfg = load_from_str(r#"settings { notify "none"; }"#).unwrap();
    assert_eq!(cfg.settings.notify_level, NotifyLevel::Off);
}

#[test]
fn parse_settings_watch_true() {
    let cfg = load_from_str("settings { watch true; }").unwrap();
    assert!(cfg.settings.watch_config);
}

#[test]
fn parse_settings_watch_false() {
    let cfg = load_from_str("settings { watch false; }").unwrap();
    assert!(!cfg.settings.watch_config);
}

#[test]
fn parse_settings_defaults_when_missing() {
    let cfg = load_from_str("").unwrap();
    assert_eq!(cfg.settings, DaemonSettings::default());
}

#[test]
fn parse_settings_unknown_notify_level_warns_and_uses_default() {
    let cfg = load_from_str(r#"settings { notify "banana"; }"#).unwrap();
    assert_eq!(cfg.settings.notify_level, NotifyLevel::All); // default
    assert!(cfg.warnings.iter().any(|w| w.contains("banana")));
}

// ── Scratchpad parsing ────────────────────────────────────────

#[test]
fn parse_scratchpad_all_fields() {
    let kdl = r#"
scratchpad "term" {
app-id "com.mitchellh.ghostty"
command "ghostty"
size width="60%" height="60%"
position x="10%" y="35%"
}
"#;
    let cfg = load_from_str(kdl).unwrap();
    let sp = cfg
        .scratchpads
        .get("term")
        .expect("scratchpad 'term' not found");
    assert_eq!(sp.name, "term");
    assert_eq!(sp.app_id.as_deref(), Some("com.mitchellh.ghostty"));
    assert_eq!(sp.command, Some(vec!["ghostty".to_string()]));
    let size = sp.size.as_ref().unwrap();
    assert_eq!(size.width, "60%");
    assert_eq!(size.height, "60%");
    let pos = sp.position.as_ref().unwrap();
    assert_eq!(pos.x, "10%");
    assert_eq!(pos.y, "35%");
}

#[test]
fn parse_scratchpad_multi_arg_command() {
    let kdl = r#"
scratchpad "dms" {
app-id "org.quickshell"
command "dms" "ipc" "call" "settings" "open"
}
"#;
    let cfg = load_from_str(kdl).unwrap();
    let sp = cfg.scratchpads.get("dms").unwrap();
    assert_eq!(
        sp.command,
        Some(vec![
            "dms".to_string(),
            "ipc".to_string(),
            "call".to_string(),
            "settings".to_string(),
            "open".to_string(),
        ])
    );
}

#[test]
fn parse_scratchpad_title_field() {
    let kdl = r#"
scratchpad "settings" {
app-id "org.quickshell"
title "^Settings$"
}
"#;
    let cfg = load_from_str(kdl).unwrap();
    let sp = cfg.scratchpads.get("settings").unwrap();
    assert_eq!(sp.title.as_deref(), Some("^Settings$"));
}

#[test]
fn parse_scratchpad_output_overrides() {
    let kdl = r#"
scratchpad "term" {
app-id "ghostty"
size width="60%" height="60%"
position x="10%" y="35%"

output "DP-2" {
    position x="50%" y="35%"
}
output "eDP-1" {
    size width="80%" height="80%"
}
output "HDMI-1" {
    size width="40%" height="40%"
    position x="30%" y="30%"
}
}
"#;
    let cfg = load_from_str(kdl).unwrap();
    let sp = cfg.scratchpads.get("term").unwrap();
    assert_eq!(sp.output_overrides.len(), 3);

    // DP-2: position only
    let dp2 = sp.output_overrides.get("DP-2").unwrap();
    assert!(dp2.size.is_none());
    let dp2_pos = dp2.position.as_ref().unwrap();
    assert_eq!(dp2_pos.x, "50%");
    assert_eq!(dp2_pos.y, "35%");

    // eDP-1: size only
    let edp = sp.output_overrides.get("eDP-1").unwrap();
    assert!(edp.position.is_none());
    let edp_size = edp.size.as_ref().unwrap();
    assert_eq!(edp_size.width, "80%");
    assert_eq!(edp_size.height, "80%");

    // HDMI-1: both
    let hdmi = sp.output_overrides.get("HDMI-1").unwrap();
    assert!(hdmi.size.is_some());
    assert!(hdmi.position.is_some());
}

#[test]
fn parse_scratchpad_without_name_warns_and_skips() {
    let kdl = r#"
scratchpad {
app-id "ghostty"
}
"#;
    let cfg = load_from_str(kdl).unwrap();
    assert!(cfg.scratchpads.is_empty());
    assert!(cfg.warnings.iter().any(|w| w.contains("name")));
}

#[test]
fn parse_scratchpad_without_app_id_warns_and_skips() {
    let kdl = r#"
scratchpad "orphan" {
command "foo"
}
"#;
    let cfg = load_from_str(kdl).unwrap();
    assert!(cfg.scratchpads.is_empty());
    assert!(cfg.warnings.iter().any(|w| w.contains("app-id")));
}

// ── Include resolution ────────────────────────────────────────

#[test]
fn parse_complete_config() {
    let kdl = r#"
settings {
notify "all"
watch true
}

scratchpad "term" {
app-id "com.mitchellh.ghostty"
command "ghostty"
size width="60%" height="60%"
position x="10%" y="35%"

output "DP-2" {
    position x="50%" y="35%"
}
}

scratchpad "dms-settings" {
app-id "org.quickshell"
title "^Settings$"
command "dms" "ipc" "call" "settings" "open"
size width="40%" height="60%"
position x="10%" y="35%"

output "DP-2" {
    position x="50%" y="35%"
}
}
"#;
    let cfg = load_from_str(kdl).unwrap();
    assert_eq!(cfg.settings.notify_level, NotifyLevel::All);
    assert!(cfg.settings.watch_config);
    assert_eq!(cfg.scratchpads.len(), 2);
    assert!(cfg.scratchpads.contains_key("term"));
    assert!(cfg.scratchpads.contains_key("dms-settings"));
    // auto_adopt defaults to false
    assert!(!cfg.scratchpads.get("term").unwrap().auto_adopt);
    assert!(!cfg.scratchpads.get("dms-settings").unwrap().auto_adopt);
    assert!(cfg.warnings.is_empty());
}

// ── key/desc on scratchpads ──────────────────────────────────

#[test]
fn parse_scratchpad_with_key_and_desc() {
    let cfg = load_from_str(
        r#"
scratchpad "term" {
key "t"
desc "Terminal"
app-id "com.mitchellh.ghostty"
command "ghostty"
}
"#,
    )
    .unwrap();
    let sp = cfg.scratchpads.get("term").unwrap();
    assert_eq!(sp.key.as_deref(), Some("t"));
    assert_eq!(sp.desc.as_deref(), Some("Terminal"));
}

// ── notifications top-level node ──────────────────────────────

#[test]
fn parse_notifications_warning() {
    let cfg = load_from_str(r#"notifications "warning""#).unwrap();
    assert_eq!(cfg.settings.notify_level, NotifyLevel::Warning);
}

#[test]
fn parse_notifications_none() {
    let cfg = load_from_str(r#"notifications "none""#).unwrap();
    assert_eq!(cfg.settings.notify_level, NotifyLevel::Off);
}

#[test]
fn parse_notifications_overrides_settings() {
    let cfg = load_from_str(
        r#"
settings { notify "all"; }
notifications "error"
"#,
    )
    .unwrap();
    assert_eq!(cfg.settings.notify_level, NotifyLevel::Error);
}

#[test]
fn parse_notifications_unknown_level_warns() {
    let cfg = load_from_str(r#"notifications "banana""#).unwrap();
    assert_eq!(cfg.settings.notify_level, NotifyLevel::All);
    assert!(cfg.warnings.iter().any(|w| w.contains("banana")));
}

// ── UI config parsing ─────────────────────────────────────────

#[test]
fn parse_mode_config() {
    let cfg = load_from_str(
        r#"
mode "root" {
binds {
    Space "Launcher" { spawn-sh "rofi -show drun"; }
    o "Open" { switch-mode "open"; }
    b "Brightness" { switch-mode "brightness"; }
}
}
mode "brightness" {
keep-open
binds {
    j "-5" { keep-open; spawn-sh "brightness -5"; }
    k "+5" { spawn-sh "brightness +5"; }
    "?" "Query" { alias "q"; spawn-sh "brightness -q"; }
}
}
"#,
    )
    .unwrap();

    // Root mode
    let root = cfg.modes.get("root").unwrap();
    assert_eq!(root.binds.len(), 3);
    assert_eq!(root.binds[0].key, "Space");
    assert_eq!(root.binds[0].description, "Launcher");
    assert!(matches!(
        root.binds[0].action,
        BindAction::SpawnSh(ref s) if s == "rofi -show drun"
    ));
    assert!(matches!(
        root.binds[1].action,
        BindAction::SwitchMode(ref s) if s == "open"
    ));
    assert!(!root.keep_open);

    // Brightness mode
    let bright = cfg.modes.get("brightness").unwrap();
    assert!(bright.keep_open);
    assert_eq!(bright.binds.len(), 3);
    assert_eq!(bright.binds[0].key, "j");
    assert!(bright.binds[0].options.contains(&BindOption::KeepOpen));
    assert_eq!(bright.binds[2].key, "?");
    assert!(bright.binds[2]
        .options
        .iter()
        .any(|o| matches!(o, BindOption::Alias(s) if s == "q")));
}

#[test]
fn parse_niri_action_passthrough() {
    let cfg = load_from_str(
        r#"
mode "resize" {
binds {
    "5" "50%" { set-window-width "50%"; }
    e "Expand" { expand-column-to-available-width; }
}
}
"#,
    )
    .unwrap();
    let resize = cfg.modes.get("resize").unwrap();
    assert!(matches!(
        &resize.binds[0].action,
        BindAction::NiriAction { name, args }
        if name == "set-window-width" && args == &["50%"]
    ));
    assert!(matches!(
        &resize.binds[1].action,
        BindAction::NiriAction { name, args }
        if name == "expand-column-to-available-width" && args.is_empty()
    ));
}

#[test]
fn parse_duplicate_mode_name_overrides() {
    let cfg = load_from_str(
        r#"
mode "root" {
binds {
    a "A" { spawn-sh "echo a"; }
}
}
mode "root" {
binds {
    b "B" { spawn-sh "echo b"; }
}
}
"#,
    )
    .unwrap();
    // Second definition overrides first
    assert_eq!(cfg.modes.get("root").unwrap().binds[0].key, "b");
}

// ── match field parsing ─────────────────────────────────────

#[test]
fn parse_scratchpad_auto_adopt_true() {
    let kdl = r#"
scratchpad "browser" {
app-id "firefox"
auto-adopt true
}
"#;
    let cfg = load_from_str(kdl).unwrap();
    let sp = cfg.scratchpads.get("browser").unwrap();
    assert!(sp.auto_adopt);
}

#[test]
fn parse_scratchpad_auto_adopt_false() {
    let kdl = r#"
scratchpad "term" {
app-id "ghostty"
auto-adopt false
}
"#;
    let cfg = load_from_str(kdl).unwrap();
    let sp = cfg.scratchpads.get("term").unwrap();
    assert!(!sp.auto_adopt);
}

#[test]
fn parse_scratchpad_auto_adopt_defaults_to_false() {
    let kdl = r#"
scratchpad "term" {
app-id "ghostty"
command "ghostty"
}
"#;
    let cfg = load_from_str(kdl).unwrap();
    let sp = cfg.scratchpads.get("term").unwrap();
    assert!(!sp.auto_adopt);
}

#[test]
fn parse_scratchpad_auto_adopt_with_all_fields() {
    let kdl = r#"
scratchpad "browser" {
app-id "firefox"
title "^Mozilla.*"
auto-adopt true
size width="80%" height="80%"
position x="10%" y="10%"
}
"#;
    let cfg = load_from_str(kdl).unwrap();
    let sp = cfg.scratchpads.get("browser").unwrap();
    assert!(sp.auto_adopt);
    assert_eq!(sp.app_id.as_deref(), Some("firefox"));
    assert_eq!(sp.title.as_deref(), Some("^Mozilla.*"));
    assert!(sp.size.is_some());
    assert!(sp.position.is_some());
    assert!(sp.command.is_none());
}

// ── Validation ─────────────────────────────────────────────────

#[test]
fn validate_warns_on_invalid_switch_mode_reference() {
    let cfg = load_from_str(
        r#"
mode "root" {
binds {
    b "Bad" { switch-mode "nonexistent"; }
}
}
"#,
    )
    .unwrap();
    assert!(cfg
        .warnings
        .iter()
        .any(|w| w.contains("nonexistent") && w.contains("undefined mode")));
}

#[test]
fn validate_warns_on_duplicate_keys_in_mode() {
    let cfg = load_from_str(
        r#"
mode "root" {
binds {
    a "First" { spawn-sh "echo 1"; }
    a "Second" { spawn-sh "echo 2"; }
}
}
"#,
    )
    .unwrap();
    assert!(cfg
        .warnings
        .iter()
        .any(|w| w.contains("duplicate key") && w.contains("\"a\"")));
}

#[test]
fn validate_warns_on_scratchpad_key_conflict() {
    let cfg = load_from_str(
        r#"
scratchpad "term" {
app-id "ghostty"
key "t"
}
scratchpad "todo" {
app-id "todoist"
key "t"
}
"#,
    )
    .unwrap();
    assert!(cfg
        .warnings
        .iter()
        .any(|w| w.contains("key \"t\" conflict")));
}

#[test]
fn validate_no_warnings_for_valid_config() {
    let cfg = load_from_str(
        r#"
mode "root" {
binds {
    a "A" { spawn-sh "echo a"; }
    b "B" { switch-mode "sub"; }
}
}
mode "sub" {
binds {
    x "X" { spawn-sh "echo x"; }
}
}
scratchpad "term" {
app-id "ghostty"
key "t"
}
scratchpad "browser" {
app-id "firefox"
key "b"
}
"#,
    )
    .unwrap();
    assert!(
        cfg.warnings.is_empty(),
        "unexpected warnings: {:?}",
        cfg.warnings
    );
}

#[test]
fn empty_config_file_returns_defaults() {
    let cfg = load_from_str("").unwrap();
    assert_eq!(cfg.settings, DaemonSettings::default());
    assert!(cfg.scratchpads.is_empty());
    assert!(cfg.warnings.is_empty());
}

#[test]
fn invalid_kdl_returns_error() {
    let result = load_from_str("this is {{{{ not valid kdl");
    assert!(result.is_err());
    match result.unwrap_err() {
        NiriToolsError::Config(msg) => assert!(!msg.is_empty()),
        other => panic!("Expected Config error, got: {other:?}"),
    }
}

#[test]
fn kdl_v2_syntax_reads_too() {
    let cfg = load_from_str("settings { watch #false; notify \"error\"; }").unwrap();
    assert!(!cfg.settings.watch_config);
    assert_eq!(cfg.settings.notify_level, NotifyLevel::Error);
}

#[test]
fn invalid_kdl_is_a_config_error_naming_the_file() {
    match load_from_str("scratchpad \"term\" {") {
        Err(NiriToolsError::Config(m)) => assert!(m.starts_with("KDL parse error in niri-tools.kdl: ")),
        other => panic!("expected a config error, got {other:?}"),
    }
}

#[test]
fn include_nodes_are_handed_back_and_ui_is_read() {
    let doc = read_config_text("x.kdl", "include \"more.kdl\"\ninclude\nui { font \"Sans\"; }").unwrap();
    let mut config = LoadedConfig::default();
    assert_eq!(
        apply_node(&doc.nodes[0], &mut config),
        niri_tools::config_parser::NodeOutcome::Include("more.kdl".to_string())
    );
    assert_eq!(apply_node(&doc.nodes[1], &mut config), niri_tools::config_parser::NodeOutcome::Read);
    assert_eq!(config.warnings, vec!["include node missing path argument".to_string()]);
    assert_eq!(apply_node(&doc.nodes[2], &mut config), niri_tools::config_parser::NodeOutcome::Read);
    assert_eq!(config.ui_config.font.as_deref(), Some("Sans"));
}

#[test]
fn mode_without_binds_block_warns_but_is_kept() {
    let cfg = load_from_str("mode \"empty\" { keep-open; }").unwrap();
    assert!(cfg.modes.get("empty").unwrap().binds.is_empty());
    assert!(cfg.warnings.iter().any(|w| w == "Mode \"empty\" has no binds block"));
}

/// A configured number as the overlays use it.
fn num(n: &Option<Number>) -> Option<f64> {
    match n {
        Some(Number::Int(i)) => Some(*i as f64),
        Some(Number::Float(s)) => s.parse().ok(),
        None => None,
    }
}

#[test]
fn parse_ui_config() {
    let cfg = load_from_str(
        r##"
ui {
    font "Mono 12"
    background-color "#282828"
    color "#fbf1c7"
    corner-radius 4
    modes {
        anchor "bottom"
        separator "  "
        margin-bottom -33
        padding 4
        column-padding 50
        min-width 1000
    }
    scratchpads {
        anchor "center"
        padding 12
    }
}
"##,
    )
    .unwrap();
    assert_eq!(cfg.ui_config.font.as_deref(), Some("Mono 12"));
    assert_eq!(cfg.ui_config.background_color.as_deref(), Some("#282828"));
    assert_eq!(cfg.ui_config.color.as_deref(), Some("#fbf1c7"));
    assert_eq!(num(&cfg.ui_config.corner_radius), Some(4.0));
    assert_eq!(cfg.ui_config.modes.anchor.as_deref(), Some("bottom"));
    assert_eq!(cfg.ui_config.modes.separator.as_deref(), Some("  "));
    assert_eq!(cfg.ui_config.modes.margin_bottom, Some(-33));
    assert_eq!(num(&cfg.ui_config.modes.padding), Some(4.0));
    assert_eq!(num(&cfg.ui_config.modes.column_padding), Some(50.0));
    assert_eq!(num(&cfg.ui_config.modes.min_width), Some(1000.0));
    assert_eq!(cfg.ui_config.scratchpads.anchor.as_deref(), Some("center"));
    assert_eq!(num(&cfg.ui_config.scratchpads.padding), Some(12.0));
}

#[test]
fn ui_block_keeps_numbers_as_written_and_resets_globals() {
    let cfg = load_from_str(
        "ui { corner-radius 2.5; modes { border-width 1.5; margin-top 4294967297; } }\nui { color \"#000\"; }",
    )
    .unwrap();
    // a second `ui` block sets the globals anew and keeps the `modes` block
    assert_eq!(cfg.ui_config.corner_radius, None);
    assert_eq!(cfg.ui_config.color.as_deref(), Some("#000"));
    assert_eq!(cfg.ui_config.modes.border_width, Some(Number::Float("1.5".to_string())));
    // 2^32 + 1 cut to 32 bits
    assert_eq!(cfg.ui_config.modes.margin_top, Some(1));
    assert_eq!(cfg.ui_config.scratchpads.padding, None);
}

#[test]
fn later_definitions_win() {
    let cfg = load_from_str(
        r#"
settings { notify "error"; }
scratchpad "term" { app-id "foot"; }
settings { notify "bogus"; }
scratchpad "term" { app-id "ghostty"; }
"#,
    )
    .unwrap();
    assert_eq!(cfg.scratchpads.get("term").unwrap().app_id.as_deref(), Some("ghostty"));
    // an unknown level is read as "all"
    assert_eq!(cfg.settings.notify_level, NotifyLevel::All);
}

#[test]
fn missing_main_file_defaults_or_errors() {
    let cfg = missing_config(false, "/home/u/.config/niri/niri-tools.kdl").unwrap();
    assert_eq!(cfg.settings, DaemonSettings::default());
    assert!(cfg.scratchpads.is_empty() && cfg.config_files.is_empty());
    match missing_config(true, "/nope.kdl") {
        Err(NiriToolsError::Config(m)) => assert_eq!(m, "Config file not found: /nope.kdl"),
        other => panic!("expected a config error, got {other:?}"),
    }
}

#[test]
fn include_cycle_reads_each_file_once() {
    let mut visited = StrSet::new();
    let mut cfg = LoadedConfig::default();
    assert!(enter_config_file(&mut visited, &mut cfg, "/c/a.kdl"));
    assert!(enter_config_file(&mut visited, &mut cfg, "/c/b.kdl"));
    assert!(!enter_config_file(&mut visited, &mut cfg, "/c/a.kdl"));
    assert_eq!(cfg.config_files, vec!["/c/a.kdl".to_string(), "/c/b.kdl".to_string()]);
}

#[test]
fn include_problems_leave_warnings() {
    let mut cfg = LoadedConfig::default();
    include_not_found(&mut cfg, "/c/./nonexistent.kdl");
    include_failed(&mut cfg, "/c/bad.kdl", &NiriToolsError::Config("KDL parse error in /c/bad.kdl: x".to_string()));
    assert_eq!(
        cfg.warnings,
        vec![
            "Include file not found: /c/./nonexistent.kdl".to_string(),
            "Error loading include /c/bad.kdl: Config error: KDL parse error in /c/bad.kdl: x".to_string(),
        ]
    );
}
