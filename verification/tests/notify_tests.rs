use niri_tools::config::NotifyLevel;
use niri_tools::notify::{NotifyCommand, RealNotifier};

#[test]
fn notify_level_ordering() {
    assert!(NotifyLevel::Off < NotifyLevel::Error);
    assert!(NotifyLevel::Error < NotifyLevel::Warning);
    assert!(NotifyLevel::Warning < NotifyLevel::All);
}

#[test]
fn notify_level_gte_comparison() {
    // All >= Error
    assert!(NotifyLevel::All >= NotifyLevel::Error);
    // Error >= Error
    assert!(NotifyLevel::Error >= NotifyLevel::Error);
    // Off < Error
    assert!(!(NotifyLevel::Off >= NotifyLevel::Error));
}

#[test]
fn real_notifier_stores_level() {
    let notifier = RealNotifier {
        level: NotifyLevel::Warning,
        has_dms: false,
    };
    assert_eq!(notifier.level, NotifyLevel::Warning);
}

#[test]
fn notify_methods_do_not_panic() {
    let notifier = RealNotifier {
        level: NotifyLevel::Off,
        has_dms: false,
    };
    notifier.notify_error("test", "msg");
    notifier.notify_warning("test", "msg");
    notifier.notify_info("test", "msg");
}

#[test]
fn level_error_filters_correctly() {
    let level = NotifyLevel::Error;
    assert!(level >= NotifyLevel::Error); // error: pass
    assert!(!(level >= NotifyLevel::Warning)); // warning: block
    assert!(!(level >= NotifyLevel::All)); // info: block
}

#[test]
fn level_warning_filters_correctly() {
    let level = NotifyLevel::Warning;
    assert!(level >= NotifyLevel::Error); // error: pass
    assert!(level >= NotifyLevel::Warning); // warning: pass
    assert!(!(level >= NotifyLevel::All)); // info: block
}

#[test]
fn level_all_filters_correctly() {
    let level = NotifyLevel::All;
    assert!(level >= NotifyLevel::Error); // error: pass
    assert!(level >= NotifyLevel::Warning); // warning: pass
    assert!(level >= NotifyLevel::All); // info: pass
}

#[test]
fn level_none_filters_correctly() {
    let level = NotifyLevel::Off;
    assert!(!(level >= NotifyLevel::Error)); // error: block
    assert!(!(level >= NotifyLevel::Warning)); // warning: block
    assert!(!(level >= NotifyLevel::All)); // info: block
}

fn strings(v: &[&str]) -> Vec<String> {
    v.iter().map(|s| s.to_string()).collect()
}

#[test]
fn off_level_sends_nothing() {
    let n = RealNotifier::new(NotifyLevel::Off, false);
    assert_eq!(n.notify_error("t", "m"), None);
    assert_eq!(n.notify_warning("t", "m"), None);
    assert_eq!(n.notify_info("t", "m"), None);
}

#[test]
fn warning_level_lets_warnings_through_by_notify_send() {
    let n = RealNotifier::new(NotifyLevel::Warning, false);
    assert_eq!(
        n.notify_warning("Config", "bad key"),
        Some(NotifyCommand {
            program: "notify-send".to_string(),
            args: strings(&["-a", "niri-tools", "-u", "normal", "-t", "5000", "Config", "bad key"]),
        })
    );
    assert_eq!(
        n.notify_error("Socket", "down"),
        Some(NotifyCommand {
            program: "notify-send".to_string(),
            args: strings(&["-a", "niri-tools", "-u", "critical", "Socket", "down"]),
        })
    );
    assert_eq!(n.notify_info("Config", "reloaded"), None);
}

#[test]
fn dms_toast_when_available() {
    let n = RealNotifier::new(NotifyLevel::All, true);
    assert_eq!(
        n.notify_info("Config", "reloaded"),
        Some(NotifyCommand {
            program: "dms".to_string(),
            args: strings(&["ipc", "toast", "infoWith", "niri-tools: Config", "reloaded", "", ""]),
        })
    );
}
