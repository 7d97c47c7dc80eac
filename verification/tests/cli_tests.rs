use niri_tools::cli::{
    autostart_next, build_command, AutostartAction, Cli, Commands, DaemonCommand, ScratchpadCommand,
    MAX_CONNECT_ATTEMPTS,
};
use niri_tools::protocol::Command;

fn daemon(command: DaemonCommand) -> Cli {
    Cli {
        command: Commands::Daemon { command },
    }
}

fn scratchpad(command: ScratchpadCommand) -> Cli {
    Cli {
        command: Commands::Scratchpad { command },
    }
}

#[test]
fn build_command_daemon_start_returns_none() {
    let cli = daemon(DaemonCommand::Start);
    assert!(build_command(&cli).is_none());
}

#[test]
fn build_command_daemon_stop() {
    let cli = daemon(DaemonCommand::Stop);
    assert_eq!(build_command(&cli), Some(Command::DaemonStop));
}

#[test]
fn build_command_daemon_restart() {
    let cli = daemon(DaemonCommand::Restart);
    assert_eq!(build_command(&cli), Some(Command::DaemonRestart));
}

#[test]
fn build_command_daemon_status() {
    let cli = daemon(DaemonCommand::Status);
    assert_eq!(build_command(&cli), Some(Command::DaemonStatus));
}

#[test]
fn build_command_scratchpad_toggle_with_name() {
    let cli = scratchpad(ScratchpadCommand::Toggle {
        name: Some("term".to_string()),
    });
    assert_eq!(
        build_command(&cli),
        Some(Command::Toggle {
            name: Some("term".to_string())
        })
    );
}

#[test]
fn build_command_scratchpad_toggle_without_name() {
    let cli = scratchpad(ScratchpadCommand::Toggle { name: None });
    assert_eq!(build_command(&cli), Some(Command::Toggle { name: None }));
}

#[test]
fn build_command_scratchpad_hide() {
    let cli = scratchpad(ScratchpadCommand::Hide);
    assert_eq!(build_command(&cli), Some(Command::Hide));
}

#[test]
fn build_command_scratchpad_toggle_float_with_name() {
    let cli = scratchpad(ScratchpadCommand::ToggleFloat {
        name: Some("browser".to_string()),
    });
    assert_eq!(
        build_command(&cli),
        Some(Command::ToggleFloat {
            name: Some("browser".to_string())
        })
    );
}

#[test]
fn build_command_scratchpad_toggle_float_without_name() {
    let cli = scratchpad(ScratchpadCommand::ToggleFloat { name: None });
    assert_eq!(build_command(&cli), Some(Command::ToggleFloat { name: None }));
}

#[test]
fn build_command_scratchpad_float() {
    let cli = scratchpad(ScratchpadCommand::Float {
        name: Some("x".to_string()),
    });
    assert_eq!(
        build_command(&cli),
        Some(Command::Float {
            name: Some("x".to_string())
        })
    );
}

#[test]
fn build_command_scratchpad_tile() {
    let cli = scratchpad(ScratchpadCommand::Tile {
        name: Some("y".to_string()),
    });
    assert_eq!(
        build_command(&cli),
        Some(Command::Tile {
            name: Some("y".to_string())
        })
    );
}

#[test]
fn autostart_starts_once_then_retries_then_gives_up() {
    assert_eq!(autostart_next(0, true), AutostartAction::Done);
    assert_eq!(autostart_next(0, false), AutostartAction::SpawnDaemon);
    assert_eq!(autostart_next(1, false), AutostartAction::Retry);
    assert_eq!(autostart_next(9, false), AutostartAction::Retry);
    assert_eq!(autostart_next(7, true), AutostartAction::Done);
    assert_eq!(autostart_next(10, false), AutostartAction::GiveUp);
    assert_eq!(MAX_CONNECT_ATTEMPTS, 10);
    // a daemon that never answers: one start, ten more tries, then an error
    let mut tries = 0;
    let mut spawns = 0;
    let mut attempt = 0;
    loop {
        tries += 1;
        match autostart_next(attempt, false) {
            AutostartAction::SpawnDaemon => spawns += 1,
            AutostartAction::Retry => {}
            AutostartAction::GiveUp => break,
            AutostartAction::Done => unreachable!(),
        }
        attempt += 1;
    }
    assert_eq!((tries, spawns), (11, 1));
}
