use niri_tools::config::{
    DaemonSettings, NotifyLevel, OutputOverride, PositionConfig, ScratchpadConfig, SizeConfig,
};
use niri_tools::strmap::StrMap;

#[test]
fn config_daemon_settings_default_values() {
    let settings = DaemonSettings::default();
    assert_eq!(settings.notify_level, NotifyLevel::All);
    assert!(settings.watch_config);
}

#[test]
fn size_config_construction_and_equality() {
    let a = SizeConfig {
        width: "60%".to_string(),
        height: "600".to_string(),
    };
    let b = SizeConfig {
        width: "60%".to_string(),
        height: "600".to_string(),
    };
    assert_eq!(a, b);
}

#[test]
fn position_config_construction_and_equality() {
    let a = PositionConfig {
        x: "10%".to_string(),
        y: "200".to_string(),
    };
    let b = PositionConfig {
        x: "10%".to_string(),
        y: "200".to_string(),
    };
    assert_eq!(a, b);
}

#[test]
fn output_override_default_is_empty() {
    let ov = OutputOverride::default();
    assert_eq!(ov.size, None);
    assert_eq!(ov.position, None);
}

#[test]
fn scratchpad_config_construction() {
    let config = ScratchpadConfig {
        name: "term".to_string(),
        command: Some(vec!["foot".to_string()]),
        app_id: Some("foot".to_string()),
        title: None,
        auto_adopt: false,
        key: None,
        desc: None,
        size: Some(SizeConfig {
            width: "60%".to_string(),
            height: "60%".to_string(),
        }),
        position: Some(PositionConfig {
            x: "20%".to_string(),
            y: "20%".to_string(),
        }),
        output_overrides: StrMap::new(),
    };
    assert_eq!(config.name, "term");
    assert!(config.command.is_some());
    assert_eq!(config.app_id.as_deref(), Some("foot"));
    assert!(config.title.is_none());
    assert!(config.size.is_some());
    assert!(config.position.is_some());
    assert!(config.output_overrides.is_empty());
}

#[test]
fn scratchpad_config_with_output_overrides() {
    let mut overrides = StrMap::new();
    overrides.insert(
        "eDP-1".to_string(),
        OutputOverride {
            size: Some(SizeConfig {
                width: "800".to_string(),
                height: "600".to_string(),
            }),
            position: None,
        },
    );

    let config = ScratchpadConfig {
        name: "browser".to_string(),
        command: None,
        app_id: Some("firefox".to_string()),
        title: None,
        auto_adopt: false,
        key: None,
        desc: None,
        size: None,
        position: None,
        output_overrides: overrides,
    };

    assert_eq!(config.output_overrides.len(), 1);
    let edp = config.output_overrides.get("eDP-1").unwrap();
    assert!(edp.size.is_some());
    assert!(edp.position.is_none());
}

#[test]
fn config_notify_level_variants() {
    assert_ne!(NotifyLevel::Off, NotifyLevel::Error);
    assert_ne!(NotifyLevel::Error, NotifyLevel::Warning);
    assert_ne!(NotifyLevel::Warning, NotifyLevel::All);
    assert_ne!(NotifyLevel::Off, NotifyLevel::All);
}

#[test]
fn settings_daemon_settings_default_values() {
    let settings = DaemonSettings::default();
    assert_eq!(settings.notify_level, NotifyLevel::All);
    assert!(settings.watch_config);
}

#[test]
fn settings_notify_level_variants() {
    assert_ne!(NotifyLevel::Off, NotifyLevel::Error);
    assert_ne!(NotifyLevel::Error, NotifyLevel::Warning);
    assert_ne!(NotifyLevel::Warning, NotifyLevel::All);
    assert_ne!(NotifyLevel::Off, NotifyLevel::All);
}

#[test]
fn notify_level_rank_and_admits() {
    assert_eq!(NotifyLevel::Off.rank(), 0);
    assert_eq!(NotifyLevel::All.rank(), 3);
    assert!(NotifyLevel::Warning.admits(NotifyLevel::Error));
    assert!(!NotifyLevel::Error.admits(NotifyLevel::Warning));
    assert!(!NotifyLevel::Off.admits(NotifyLevel::Error));
}
