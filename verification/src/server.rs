//! The daemon's decisions: what a client command asks for, what a response says,
//! and how fresh information from niri or from the configuration enters the state.
use vstd::prelude::*;
use crate::config::{opt_chars, strings_view};
use crate::config_parser::LoadedConfig;
use crate::error::NiriToolsError;
use crate::events::{insert_windows, last_focused};
use crate::idmap::IdMap;
use crate::protocol::{Command, Response};
use crate::scratchpad::{
    float_plan, hide_plan, plan_matches, smart_toggle_plan, steps_view, tile_plan, toggle_float_plan,
    toggle_plan, ScratchpadManager, Step,
};
use crate::state::DaemonState;
use crate::strmap::{StrMap, StrSet};
use crate::numbers::{parse_u32, std_parse_u32};
use crate::text::{chars_of, string_of, sub_chars, trim_chars, trim_spec};
use crate::types::{OutputInfo, WindowInfo, WorkspaceInfo};

verus! {

/// What the daemon does for a client command.
#[derive(Debug, PartialEq, Eq)]
pub enum Dispatch {
    /// Answer with the daemon's process status.
    Status,
    /// Stop the daemon and answer `Success`.
    Stop,
    /// Reload the configuration and answer `Success`.
    Reload,
    /// Carry out the plan, or answer with its error.
    Plan(Result<Vec<Step>, NiriToolsError>),
}

/// Decides what a client command does: status, stop and restart are the daemon's
/// own; each scratchpad command is planned by the [`ScratchpadManager`].
pub fn dispatch_command(state: &DaemonState, command: &Command) -> (res: Dispatch)
    ensures
        match *command {
            Command::DaemonStatus => res == Dispatch::Status,
            Command::DaemonStop => res == Dispatch::Stop,
            Command::DaemonRestart => res == Dispatch::Reload,
            Command::Toggle { name: Some(n) } => res matches Dispatch::Plan(r) && plan_matches(
                r,
                toggle_plan(*state, n@),
            ),
            Command::Toggle { name: None } => res matches Dispatch::Plan(Ok(v)) && steps_view(v@)
                == smart_toggle_plan(*state),
            Command::Hide => res matches Dispatch::Plan(Ok(v)) && steps_view(v@) == hide_plan(
                *state,
            ),
            Command::ToggleFloat { name } => res matches Dispatch::Plan(r) && plan_matches(
                r,
                toggle_float_plan(*state, opt_chars(name)),
            ),
            Command::Float { name } => res matches Dispatch::Plan(r) && plan_matches(
                r,
                float_plan(*state, opt_chars(name)),
            ),
            Command::Tile { name } => res matches Dispatch::Plan(r) && plan_matches(
                r,
                tile_plan(*state, opt_chars(name)),
            ),
        },
{
    let mgr = ScratchpadManager::new(state);
    match command {
        Command::DaemonStatus => Dispatch::Status,
        Command::DaemonStop => Dispatch::Stop,
        Command::DaemonRestart => Dispatch::Reload,
        Command::Toggle { name } => match name {
            Some(n) => Dispatch::Plan(mgr.toggle(n.as_str())),
            None => Dispatch::Plan(Ok(mgr.smart_toggle())),
        },
        Command::Hide => Dispatch::Plan(Ok(mgr.hide_focused())),
        Command::ToggleFloat { name } => Dispatch::Plan(mgr.toggle_float(opt_str(name))),
        Command::Float { name } => Dispatch::Plan(mgr.float_scratchpad(opt_str(name))),
        Command::Tile { name } => Dispatch::Plan(mgr.tile_scratchpad(opt_str(name))),
    }
}

fn opt_str(name: &Option<String>) -> (res: Option<&str>)
    ensures
        match res {
            Some(s) => opt_chars(*name) == Some(s@),
            None => name is None,
        },
{
    match name {
        Some(n) => Some(n.as_str()),
        None => None,
    }
}

/// The answer to a command that was carried out: `Success`, or the error's text.
pub fn response_for(outcome: &Result<(), NiriToolsError>) -> (res: Response)
    ensures
        match outcome {
            Ok(_) => res == Response::Success,
            Err(e) => res matches Response::Error(m) && m@ == e.message_spec(),
        },
{
    match outcome {
        Ok(_) => Response::Success,
        Err(e) => Response::Error(e.message()),
    }
}

/// `m` with the workspaces `ws` stored by id, in order.
pub open spec fn insert_workspaces(m: Map<u64, WorkspaceInfo>, ws: Seq<WorkspaceInfo>) -> Map<
    u64,
    WorkspaceInfo,
>
    decreases ws.len(),
{
    if ws.len() == 0 {
        m
    } else {
        insert_workspaces(m, ws.drop_last()).insert(ws.last().id, ws.last())
    }
}

fn store_workspaces(state: &mut DaemonState, ws: Vec<WorkspaceInfo>)
    ensures
        final(state).workspaces@ == insert_workspaces(old(state).workspaces@, ws@),
        final(state).windows@ == old(state).windows@,
        final(state).outputs@ == old(state).outputs@,
        final(state).focused_output == old(state).focused_output,
        final(state).focused_window_id == old(state).focused_window_id,
        final(state).previous_focused_window_id == old(state).previous_focused_window_id,
        final(state).scratchpads@ == old(state).scratchpads@,
        final(state).owners() == old(state).owners(),
        final(state).pending_spawns@ == old(state).pending_spawns@,
        final(state).scratchpad_configs@ == old(state).scratchpad_configs@,
        final(state).config_files@ == old(state).config_files@,
        final(state).watch_config == old(state).watch_config,
{
    let mut i: usize = 0;
    while i < ws.len()
        invariant
            i <= ws@.len(),
            state.workspaces@ == insert_workspaces(old(state).workspaces@, ws@.take(i as int)),
            state.windows@ == old(state).windows@,
            state.outputs@ == old(state).outputs@,
            state.focused_output == old(state).focused_output,
            state.focused_window_id == old(state).focused_window_id,
            state.previous_focused_window_id == old(state).previous_focused_window_id,
            state.scratchpads@ == old(state).scratchpads@,
            state.owners() == old(state).owners(),
            state.pending_spawns@ == old(state).pending_spawns@,
            state.scratchpad_configs@ == old(state).scratchpad_configs@,
            state.config_files@ == old(state).config_files@,
            state.watch_config == old(state).watch_config,
        decreases ws@.len() - i,
    {
        assert(ws@.take(i + 1).drop_last() =~= ws@.take(i as int));
        assert(ws@.take(i + 1).last() == ws@[i as int]);
        let w = ws[i].duplicate();
        state.workspaces.insert(w.id, w);
        i = i + 1;
    }
    assert(ws@.take(ws@.len() as int) =~= ws@);
}

/// Replaces the workspaces with a freshly fetched list.
pub fn replace_workspaces(state: &mut DaemonState, ws: Vec<WorkspaceInfo>)
    ensures
        final(state).workspaces@ == insert_workspaces(Map::empty(), ws@),
        final(state).windows@ == old(state).windows@,
        final(state).outputs@ == old(state).outputs@,
        final(state).focused_output == old(state).focused_output,
        final(state).focused_window_id == old(state).focused_window_id,
        final(state).previous_focused_window_id == old(state).previous_focused_window_id,
        final(state).scratchpads@ == old(state).scratchpads@,
        final(state).owners() == old(state).owners(),
        final(state).pending_spawns@ == old(state).pending_spawns@,
        final(state).scratchpad_configs@ == old(state).scratchpad_configs@,
{
    state.workspaces = IdMap::new();
    store_workspaces(state, ws);
}

/// Takes in what niri reports at start-up: its windows (the last focused one among
/// them takes the focus), workspaces, outputs, and the focused output when known.
pub fn initialize_state(
    state: &mut DaemonState,
    windows: Vec<WindowInfo>,
    workspaces: Vec<WorkspaceInfo>,
    outputs: StrMap<OutputInfo>,
    focused_output: Option<String>,
)
    ensures
        final(state).windows@ == insert_windows(old(state).windows@, windows@),
        final(state).focused_window_id == last_focused(windows@, old(state).focused_window_id),
        final(state).workspaces@ == insert_workspaces(old(state).workspaces@, workspaces@),
        final(state).outputs@ == outputs@,
        final(state).focused_output == (if focused_output is Some {
            focused_output
        } else {
            old(state).focused_output
        }),
        final(state).previous_focused_window_id == old(state).previous_focused_window_id,
        final(state).scratchpads@ == old(state).scratchpads@,
        final(state).owners() == old(state).owners(),
        final(state).pending_spawns@ == old(state).pending_spawns@,
        final(state).scratchpad_configs@ == old(state).scratchpad_configs@,
{
    let mut i: usize = 0;
    while i < windows.len()
        invariant
            i <= windows@.len(),
            state.windows@ == insert_windows(old(state).windows@, windows@.take(i as int)),
            state.focused_window_id == last_focused(windows@.take(i as int), old(state).focused_window_id),
            state.workspaces@ == old(state).workspaces@,
            state.outputs@ == old(state).outputs@,
            state.focused_output == old(state).focused_output,
            state.previous_focused_window_id == old(state).previous_focused_window_id,
            state.scratchpads@ == old(state).scratchpads@,
            state.owners() == old(state).owners(),
            state.pending_spawns@ == old(state).pending_spawns@,
            state.scratchpad_configs@ == old(state).scratchpad_configs@,
        decreases windows@.len() - i,
    {
        assert(windows@.take(i + 1).drop_last() =~= windows@.take(i as int));
        assert(windows@.take(i + 1).last() == windows@[i as int]);
        let w = windows[i].duplicate();
        if w.is_focused {
            state.focused_window_id = Some(w.id);
        }
        state.windows.insert(w.id, w);
        i = i + 1;
    }
    assert(windows@.take(windows@.len() as int) =~= windows@);
    store_workspaces(state, workspaces);
    state.outputs = outputs;
    if focused_output.is_some() {
        state.focused_output = focused_output;
    }
}

/// Takes in a freshly loaded configuration: its scratchpads, the files it was read
/// from, and whether to watch them.
pub fn apply_loaded_config(state: &mut DaemonState, loaded: LoadedConfig)
    ensures
        final(state).scratchpad_configs@ == loaded.scratchpads@,
        final(state).config_files@ == strings_view(loaded.config_files@).to_set(),
        final(state).watch_config == loaded.settings.watch_config,
        final(state).windows@ == old(state).windows@,
        final(state).workspaces@ == old(state).workspaces@,
        final(state).outputs@ == old(state).outputs@,
        final(state).scratchpads@ == old(state).scratchpads@,
        final(state).owners() == old(state).owners(),
        final(state).pending_spawns@ == old(state).pending_spawns@,
{
    let LoadedConfig { settings, scratchpads, modes: _, config_files, warnings: _, ui_config: _ } = loaded;
    let mut files = StrSet::new();
    let mut i: usize = 0;
    while i < config_files.len()
        invariant
            i <= config_files@.len(),
            files@ == strings_view(config_files@.take(i as int)).to_set(),
        decreases config_files@.len() - i,
    {
        let ghost before = strings_view(config_files@.take(i as int));
        let _ = files.insert(config_files[i].clone());
        proof {
            assert(strings_view(config_files@.take(i + 1)) =~= before.push(config_files@[i as int]@));
            assert forall|x: Seq<char>| files@.contains(x) <==> before.push(config_files@[i as int]@).to_set().contains(x) by {
                if before.contains(x) {
                    let j = before.index_of(x);
                    assert(before.push(config_files@[i as int]@)[j] == x);
                }
                if before.push(config_files@[i as int]@).contains(x) && x != config_files@[i as int]@ {
                    let j = before.push(config_files@[i as int]@).index_of(x);
                    assert(before[j] == x);
                }
                assert(before.push(config_files@[i as int]@)[before.len() as int] == config_files@[i as int]@);
            }
            assert(files@ =~= strings_view(config_files@.take(i + 1)).to_set());
        }
        i = i + 1;
    }
    assert(config_files@.take(config_files@.len() as int) =~= config_files@);
    state.scratchpad_configs = scratchpads;
    state.config_files = files;
    state.watch_config = settings.watch_config;
}

/// A process command line as `/proc/<pid>/cmdline` stores it (arguments separated by
/// NUL bytes) turned into text: NULs become spaces and the ends are trimmed.
pub open spec fn cmdline_text(raw: Seq<char>) -> Seq<char> {
    trim_spec(raw.map_values(|c: char| if c == '\0' { ' ' } else { c }))
}

/// See [`cmdline_text`].
pub fn cmdline_display(raw: &str) -> (res: String)
    ensures
        res@ == cmdline_text(raw@),
{
    let cs = chars_of(raw);
    let mut out: Vec<char> = Vec::new();
    let mut i: usize = 0;
    while i < cs.len()
        invariant
            i <= cs@.len(),
            out@ == cs@.take(i as int).map_values(|c: char| if c == '\0' { ' ' } else { c }),
        decreases cs@.len() - i,
    {
        let c = cs[i];
        out.push(if c == '\0' { ' ' } else { c });
        assert(out@ =~= cs@.take(i + 1).map_values(|c: char| if c == '\0' { ' ' } else { c }));
        i = i + 1;
    }
    assert(cs@.take(cs@.len() as int) =~= cs@);
    string_of(&trim_chars(&out))
}

/// Where the line of `t` that starts at `k` ends: the next newline, or the end.
pub open spec fn line_end_from(t: Seq<char>, k: int) -> int
    decreases t.len() - k,
{
    if k >= t.len() || t[k] == '\n' {
        k
    } else {
        line_end_from(t, k + 1)
    }
}

/// A line ends at or after its start, and within the text.
pub proof fn lemma_line_end(t: Seq<char>, k: int)
    ensures
        k <= t.len() ==> k <= line_end_from(t, k) <= t.len(),
        k > t.len() ==> line_end_from(t, k) == k,
    decreases t.len() - k,
{
    if k < t.len() && t[k] != '\n' {
        lemma_line_end(t, k + 1);
    }
}

/// Whether a line starts with `PPid:`.
pub open spec fn is_ppid_line(line: Seq<char>) -> bool {
    line.len() >= 5 && line.take(5) == "PPid:"@
}

/// What follows `PPid:` on the first such line of `t` from position `start` on.
pub open spec fn ppid_rest_from(t: Seq<char>, start: int) -> Option<Seq<char>>
    decreases t.len() - start,
{
    if start < 0 || start >= t.len() {
        None
    } else {
        proof {
            lemma_line_end(t, start);
        }
        let e = line_end_from(t, start);
        let line = t.subrange(start, e);
        if is_ppid_line(line) {
            Some(line.skip(5))
        } else if e >= t.len() {
            None
        } else {
            ppid_rest_from(t, e + 1)
        }
    }
}

/// The parent process id that a `/proc/<pid>/status` text gives: the first line that
/// starts with `PPid:`, the rest of it trimmed and read as a `u32`; none when there is
/// no such line or it does not hold a number.
pub open spec fn status_ppid(t: Seq<char>) -> Option<u32> {
    match ppid_rest_from(t, 0) {
        Some(rest) => std_parse_u32(trim_spec(rest)),
        None => None,
    }
}

/// See [`status_ppid`].
pub fn ppid_from_status(status: &str) -> (res: Option<u32>)
    ensures
        res == status_ppid(status@),
{
    let cs = chars_of(status);
    let n = cs.len();
    let mut start: usize = 0;
    while start < n
        invariant
            n == cs@.len(),
            cs@ == status@,
            start <= n,
            ppid_rest_from(cs@, 0) == ppid_rest_from(cs@, start as int),
        decreases n - start,
    {
        let mut e = start;
        while e < n && cs[e] != '\n'
            invariant
                n == cs@.len(),
                start <= e <= n,
                line_end_from(cs@, start as int) == line_end_from(cs@, e as int),
            decreases n - e,
        {
            e = e + 1;
        }
        proof {
            lemma_line_end(cs@, start as int);
        }
        assert(line_end_from(cs@, start as int) == e);
        let is_ppid = e - start >= 5 && cs[start] == 'P' && cs[start + 1] == 'P' && cs[start + 2]
            == 'i' && cs[start + 3] == 'd' && cs[start + 4] == ':';
        let ghost line = cs@.subrange(start as int, e as int);
        proof {
            reveal_strlit("PPid:");
            if e - start >= 5 {
                assert(line.take(5) =~= seq![line[0], line[1], line[2], line[3], line[4]]);
                assert("PPid:"@ =~= seq!['P', 'P', 'i', 'd', ':']);
            }
        }
        assert(is_ppid == is_ppid_line(line));
        if is_ppid {
            let rest = sub_chars(&cs, start + 5, e);
            assert(rest@ =~= line.skip(5));
            let trimmed = trim_chars(&rest);
            return parse_u32(&trimmed);
        }
        if e >= n {
            return None;
        }
        start = e + 1;
    }
    None
}

} // verus!
