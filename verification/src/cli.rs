//! The command-line tool's commands and the requests they send to the daemon.
use vstd::prelude::*;
use crate::config::opt_chars;
use crate::protocol::Command;

verus! {

/// The parsed command line.
#[derive(Debug, PartialEq, Eq)]
pub struct Cli {
    pub command: Commands,
}

#[derive(Debug, PartialEq, Eq)]
pub enum Commands {
    /// Manage the daemon.
    Daemon { command: DaemonCommand },
    /// Manage scratchpad windows.
    Scratchpad { command: ScratchpadCommand },
}

#[derive(Debug, PartialEq, Eq)]
pub enum DaemonCommand {
    Start,
    Stop,
    Restart,
    Status,
}

#[derive(Debug, PartialEq, Eq)]
pub enum ScratchpadCommand {
    /// Toggle a scratchpad (the smart toggle without a name).
    Toggle { name: Option<String> },
    /// Hide the focused scratchpad.
    Hide,
    ToggleFloat { name: Option<String> },
    Float { name: Option<String> },
    Tile { name: Option<String> },
}

/// The same optional name.
pub open spec fn same_name(a: Option<String>, b: Option<String>) -> bool {
    opt_chars(a) == opt_chars(b)
}

fn copy_name(n: &Option<String>) -> (res: Option<String>)
    ensures
        same_name(res, *n),
{
    match n {
        Some(s) => Some(s.clone()),
        None => None,
    }
}

/// The request a command line sends: none for `daemon start`, which starts the daemon
/// instead; otherwise the daemon or scratchpad command of the same name.
pub fn build_command(cli: &Cli) -> (res: Option<Command>)
    ensures
        match cli.command {
            Commands::Daemon { command } => match command {
                DaemonCommand::Start => res is None,
                DaemonCommand::Stop => res == Some(Command::DaemonStop),
                DaemonCommand::Restart => res == Some(Command::DaemonRestart),
                DaemonCommand::Status => res == Some(Command::DaemonStatus),
            },
            Commands::Scratchpad { command } => match command {
                ScratchpadCommand::Toggle { name } => res matches Some(Command::Toggle { name: n })
                    && same_name(n, name),
                ScratchpadCommand::Hide => res == Some(Command::Hide),
                ScratchpadCommand::ToggleFloat { name } => res matches Some(
                    Command::ToggleFloat { name: n },
                ) && same_name(n, name),
                ScratchpadCommand::Float { name } => res matches Some(Command::Float { name: n })
                    && same_name(n, name),
                ScratchpadCommand::Tile { name } => res matches Some(Command::Tile { name: n })
                    && same_name(n, name),
            },
        },
{
    match &cli.command {
        Commands::Daemon { command } => match command {
            DaemonCommand::Stop => Some(Command::DaemonStop),
            DaemonCommand::Restart => Some(Command::DaemonRestart),
            DaemonCommand::Status => Some(Command::DaemonStatus),
            DaemonCommand::Start => None,
        },
        Commands::Scratchpad { command } => match command {
            ScratchpadCommand::Toggle { name } => Some(Command::Toggle { name: copy_name(name) }),
            ScratchpadCommand::Hide => Some(Command::Hide),
            ScratchpadCommand::ToggleFloat { name } => Some(
                Command::ToggleFloat { name: copy_name(name) },
            ),
            ScratchpadCommand::Float { name } => Some(Command::Float { name: copy_name(name) }),
            ScratchpadCommand::Tile { name } => Some(Command::Tile { name: copy_name(name) }),
        },
    }
}

/// How many times the tool tries to reach the daemon after starting it.
pub const MAX_CONNECT_ATTEMPTS: u32 = 10;

/// The wait before each of those attempts, in milliseconds.
pub const CONNECT_RETRY_DELAY_MS: u64 = 100;

/// What the tool does after trying to reach the daemon.
#[derive(Debug, Clone, Copy, PartialEq, Eq, Structural)]
pub enum AutostartAction {
    /// The daemon answered: use its answer.
    Done,
    /// The first try failed: start the daemon, wait, and try again.
    SpawnDaemon,
    /// Wait and try again.
    Retry,
    /// Every try failed: give up with an error.
    GiveUp,
}

/// The next step of reaching the daemon, starting it when needed: `attempt` counts
/// the tries made before this one came back (0 for the first), `ok` says whether
/// it reached the daemon. After a failed first try the daemon is started; then up
/// to [`MAX_CONNECT_ATTEMPTS`] more tries follow before the tool gives up.
pub fn autostart_next(attempt: u32, ok: bool) -> (res: AutostartAction)
    ensures
        res == (if ok {
            AutostartAction::Done
        } else if attempt == 0 {
            AutostartAction::SpawnDaemon
        } else if attempt < MAX_CONNECT_ATTEMPTS {
            AutostartAction::Retry
        } else {
            AutostartAction::GiveUp
        }),
{
    if ok {
        AutostartAction::Done
    } else if attempt == 0 {
        AutostartAction::SpawnDaemon
    } else if attempt < MAX_CONNECT_ATTEMPTS {
        AutostartAction::Retry
    } else {
        AutostartAction::GiveUp
    }
}

} // verus!
