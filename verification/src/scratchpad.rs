//! What each scratchpad command does, as a plan of steps: niri actions to run and
//! changes to the daemon state, carried out in order until an action fails.
use vstd::prelude::*;
use crate::config::{strings_view, ScratchpadConfig};
use crate::error::NiriToolsError;
use crate::geometry::{
    calculate_expected_window_size, convert_position_to_pixels, expected_window_size,
    matches_config, position_value, resolve_output_overrides, resolved_position, resolved_size,
    window_matches,
};
use crate::numbers::{decimal_digits, fmt_i32, fmt_u64, signed_decimal};
use crate::seqs::{first_where, lemma_first_where, lemma_first_where_at, lemma_first_where_none};
use crate::state::{
    active_on, eligible, is_latest, law_register_keeps_ownership, law_visibility_keeps_ownership,
    registered, scratchpad_workspace_name, visibility_set, DaemonState, SCRATCHPAD_WORKSPACE,
};
use crate::text::{join3, str_eq};
use crate::types::WindowInfo;

verus! {

/// One step of a scratchpad operation.
#[derive(Debug, PartialEq, Eq)]
pub enum Step {
    /// Run `niri msg action <name> <args..>`. A failure ends the operation with that
    /// error; the steps after it are not carried out.
    Action { name: String, args: Vec<String> },
    /// Record that the window got the focus: the focused window becomes the previous
    /// one.
    FocusTracked(u64),
    MarkVisible(String),
    MarkHidden(String),
    /// Write the state file; a failure to write is ignored.
    SaveState,
    /// Remember that the scratchpad's command was spawned and its window is awaited.
    AddPending(String),
    RemovePending(String),
    /// Make the window the scratchpad's window.
    Register(String, u64),
}

/// A step as plain values.
pub enum StepView {
    Action { name: Seq<char>, args: Seq<Seq<char>> },
    FocusTracked(u64),
    MarkVisible(Seq<char>),
    MarkHidden(Seq<char>),
    SaveState,
    AddPending(Seq<char>),
    RemovePending(Seq<char>),
    Register(Seq<char>, u64),
}

impl View for Step {
    type V = StepView;

    open spec fn view(&self) -> StepView {
        match self {
            Step::Action { name, args } => StepView::Action { name: name@, args: strings_view(args@) },
            Step::FocusTracked(w) => StepView::FocusTracked(*w),
            Step::MarkVisible(n) => StepView::MarkVisible(n@),
            Step::MarkHidden(n) => StepView::MarkHidden(n@),
            Step::SaveState => StepView::SaveState,
            Step::AddPending(n) => StepView::AddPending(n@),
            Step::RemovePending(n) => StepView::RemovePending(n@),
            Step::Register(n, w) => StepView::Register(n@, *w),
        }
    }
}

pub open spec fn steps_view(s: Seq<Step>) -> Seq<StepView> {
    s.map_values(|x: Step| x@)
}

/// A niri action step.
pub open spec fn act(name: Seq<char>, args: Seq<Seq<char>>) -> StepView {
    StepView::Action { name, args }
}

/// A window id as niri's command line takes it.
pub open spec fn id_text(w: u64) -> Seq<char> {
    decimal_digits(w as nat)
}

/// The focused output's name, empty when none is known.
pub open spec fn focused_output_name(s: DaemonState) -> Seq<char> {
    match s.focused_output {
        Some(o) => o@,
        None => Seq::empty(),
    }
}

/// Float window `w`, then give it the scratchpad's size and position for the
/// focused output. The size is set as written; the position is computed in pixels
/// from the expected window size, and only when the output is known.
pub open spec fn configure_steps(s: DaemonState, w: u64, c: ScratchpadConfig) -> Seq<StepView> {
    let id = id_text(w);
    let out_name = focused_output_name(s);
    let float = seq![act("move-window-to-floating"@, seq!["--id"@, id])];
    let size = match resolved_size(c, out_name) {
        Some(sz) => seq![
            act("set-window-width"@, seq!["--id"@, id, sz.width@]),
            act("set-window-height"@, seq!["--id"@, id, sz.height@]),
        ],
        None => Seq::empty(),
    };
    let pos = match resolved_position(c, out_name) {
        Some(p) => if s.outputs@.contains_key(out_name) {
            let out = s.outputs@[out_name];
            let ws = expected_window_size(c, out);
            let x = position_value(p.x@, out.width, ws.0);
            let y = position_value(p.y@, out.height, ws.1);
            seq![
                act(
                    "move-floating-window"@,
                    seq!["--id"@, id, "--x"@, signed_decimal(x as int), "--y"@, signed_decimal(y as int)],
                ),
            ]
        } else {
            Seq::empty()
        },
        None => Seq::empty(),
    };
    float + size + pos
}

/// Focus window `w`.
pub open spec fn focus_steps(w: u64) -> Seq<StepView> {
    seq![act("focus-window"@, seq!["--id"@, id_text(w)]), StepView::FocusTracked(w)]
}

/// Focus the previously focused window, if one is known.
pub open spec fn focus_previous_steps(s: DaemonState) -> Seq<StepView> {
    match s.previous_focused_window_id {
        Some(p) => focus_steps(p),
        None => Seq::empty(),
    }
}

/// Move window `w` to the scratchpad workspace without following it.
pub open spec fn park_steps(w: u64) -> Seq<StepView> {
    seq![
        act(
            "move-window-to-workspace"@,
            seq!["--window-id"@, id_text(w), "--focus"@, "false"@, scratchpad_workspace_name()],
        ),
    ]
}

/// Hide scratchpad `name` with window `w`: park it, mark it hidden, save.
pub open spec fn hide_steps(name: Seq<char>, w: u64) -> Seq<StepView> {
    park_steps(w) + seq![StepView::MarkHidden(name), StepView::SaveState]
}

/// Show scratchpad `name` with window `w`: configure it, bring it to the focused
/// output, focus it, mark it visible, save.
pub open spec fn show_steps(s: DaemonState, name: Seq<char>, w: u64, c: ScratchpadConfig) -> Seq<
    StepView,
> {
    let to_monitor = match s.focused_output {
        Some(o) => seq![act("move-window-to-monitor"@, seq!["--id"@, id_text(w), o@])],
        None => Seq::empty(),
    };
    configure_steps(s, w, c) + to_monitor + focus_steps(w) + seq![
        StepView::MarkVisible(name),
        StepView::SaveState,
    ]
}

/// Tile window `w`.
pub open spec fn tile_steps(w: u64) -> Seq<StepView> {
    seq![act("move-window-to-tiling"@, seq!["--id"@, id_text(w)])]
}

/// Spawn scratchpad `name`'s command and await its window; an error without a command.
pub open spec fn spawn_plan(name: Seq<char>, c: ScratchpadConfig) -> Result<Seq<StepView>, Seq<char>> {
    match c.command {
        Some(cmd) => Ok(
            seq![act("spawn"@, seq!["--"@] + strings_view(cmd@)), StepView::AddPending(name)],
        ),
        None => Err("Scratchpad '"@ + name + "' has no command to spawn"@),
    }
}

/// The id of the active workspace of the focused output.
pub open spec fn focused_workspace_id(s: DaemonState) -> Option<u64> {
    match s.focused_output {
        None => None,
        Some(o) => match first_where(s.workspaces.val_seq(), active_on(o@)) {
            Some(i) => Some(s.workspaces.val_seq()[i].id),
            None => None,
        },
    }
}

/// Toggle scratchpad `name`, whose window `win` exists: a focused window is hidden
/// when floating and left for the previous window when tiled; a window on the focused
/// workspace is focused; a floating window elsewhere, or a tiled one parked on the
/// scratchpad workspace, is shown here; a tiled one elsewhere is focused where it is.
pub open spec fn toggle_existing_steps(
    s: DaemonState,
    name: Seq<char>,
    win: WindowInfo,
    c: ScratchpadConfig,
) -> Seq<StepView> {
    if win.is_focused {
        if win.is_floating {
            hide_steps(name, win.id)
        } else {
            focus_previous_steps(s)
        }
    } else if win.workspace_id is Some && focused_workspace_id(s) is Some && win.workspace_id
        == focused_workspace_id(s) {
        focus_steps(win.id)
    } else if win.is_floating {
        show_steps(s, name, win.id, c)
    } else if s.parked(win) {
        show_steps(s, name, win.id, c)
    } else {
        focus_steps(win.id)
    }
}

/// `toggle name`: spawn the scratchpad when it has no live window, else see
/// [`toggle_existing_steps`]. An unknown scratchpad is an error.
pub open spec fn toggle_plan(s: DaemonState, name: Seq<char>) -> Result<Seq<StepView>, Seq<char>> {
    if !s.scratchpad_configs@.contains_key(name) {
        Err("No scratchpad config for '"@ + name + "'"@)
    } else {
        let c = s.scratchpad_configs@[name];
        let wid = if s.scratchpads@.contains_key(name) {
            s.scratchpads@[name].window_id
        } else {
            None
        };
        match wid {
            Some(w) => if s.windows@.contains_key(w) {
                Ok(toggle_existing_steps(s, name, s.windows@[w], c))
            } else {
                spawn_plan(name, c)
            },
            None => spawn_plan(name, c),
        }
    }
}

fn s(text: &str) -> (res: String)
    ensures
        res@ == text@,
{
    text.to_owned()
}

fn action_step(name: &str, args: Vec<String>) -> (res: Step)
    ensures
        res@ == act(name@, strings_view(args@)),
{
    Step::Action { name: name.to_owned(), args }
}

fn steps_of2(a: Step, b: Step) -> (res: Vec<Step>)
    ensures
        steps_view(res@) == seq![a@, b@],
{
    let mut v: Vec<Step> = Vec::new();
    v.push(a);
    v.push(b);
    assert(steps_view(v@) =~= seq![a@, b@]);
    v
}

fn steps_of1(a: Step) -> (res: Vec<Step>)
    ensures
        steps_view(res@) == seq![a@],
{
    let mut v: Vec<Step> = Vec::new();
    v.push(a);
    assert(steps_view(v@) =~= seq![a@]);
    v
}

fn concat_steps(mut a: Vec<Step>, mut b: Vec<Step>) -> (res: Vec<Step>)
    ensures
        steps_view(res@) == steps_view(a@) + steps_view(b@),
{
    let ghost a0 = a@;
    let ghost b0 = b@;
    a.append(&mut b);
    assert(steps_view(a@) =~= steps_view(a0) + steps_view(b0));
    a
}

fn push_arg(v: &mut Vec<String>, a: String)
    ensures
        strings_view(final(v)@) == strings_view(old(v)@).push(a@),
{
    v.push(a);
    assert(strings_view(v@) =~= strings_view(old(v)@).push(a@));
}

fn args2(a: String, b: String) -> (res: Vec<String>)
    ensures
        strings_view(res@) == seq![a@, b@],
{
    let mut v: Vec<String> = Vec::new();
    push_arg(&mut v, a);
    push_arg(&mut v, b);
    assert(strings_view(v@) =~= seq![a@, b@]);
    v
}

fn args3(a: String, b: String, c: String) -> (res: Vec<String>)
    ensures
        strings_view(res@) == seq![a@, b@, c@],
{
    let mut v = args2(a, b);
    push_arg(&mut v, c);
    assert(strings_view(v@) =~= seq![a@, b@, c@]);
    v
}

fn args5(a: String, b: String, c: String, d: String, e: String) -> (res: Vec<String>)
    ensures
        strings_view(res@) == seq![a@, b@, c@, d@, e@],
{
    let mut v = args3(a, b, c);
    push_arg(&mut v, d);
    push_arg(&mut v, e);
    assert(strings_view(v@) =~= seq![a@, b@, c@, d@, e@]);
    v
}

fn args6(a: String, b: String, c: String, d: String, e: String, f: String) -> (res: Vec<String>)
    ensures
        strings_view(res@) == seq![a@, b@, c@, d@, e@, f@],
{
    let mut v = args5(a, b, c, d, e);
    push_arg(&mut v, f);
    assert(strings_view(v@) =~= seq![a@, b@, c@, d@, e@, f@]);
    v
}

/// The steps of [`configure_steps`].
fn configure_window(state: &DaemonState, w: u64, config: &ScratchpadConfig) -> (res: Vec<Step>)
    ensures
        steps_view(res@) == configure_steps(*state, w, *config),
{
    let id = fmt_u64(w);
    let out_name: String = match &state.focused_output {
        Some(o) => o.clone(),
        None => String::new(),
    };
    assert(out_name@ == focused_output_name(*state));
    let steps = steps_of1(action_step("move-window-to-floating", args2(s("--id"), id.clone())));
    let (size_cfg, pos_cfg) = resolve_output_overrides(config, out_name.as_str());
    let size_steps: Vec<Step> = match size_cfg {
        Some(sz) => {
            let a = action_step("set-window-width", args3(s("--id"), id.clone(), sz.width.clone()));
            let b = action_step("set-window-height", args3(s("--id"), id.clone(), sz.height.clone()));
            steps_of2(a, b)
        },
        None => Vec::new(),
    };
    let pos_steps: Vec<Step> = match pos_cfg {
        Some(p) => match state.outputs.get(out_name.as_str()) {
            Some(out) => {
                let (ww, wh) = calculate_expected_window_size(config, out);
                let (x, y) = convert_position_to_pixels(
                    p.x.as_str(),
                    p.y.as_str(),
                    out.width,
                    out.height,
                    ww,
                    wh,
                );
                let a = action_step(
                    "move-floating-window",
                    args6(s("--id"), id.clone(), s("--x"), fmt_i32(x), s("--y"), fmt_i32(y)),
                );
                steps_of1(a)
            },
            None => Vec::new(),
        },
        None => Vec::new(),
    };
    let res = concat_steps(concat_steps(steps, size_steps), pos_steps);
    assert(steps_view(res@) =~= configure_steps(*state, w, *config));
    res
}

/// The steps of [`focus_steps`].
fn focus_window(w: u64) -> (res: Vec<Step>)
    ensures
        steps_view(res@) == focus_steps(w),
{
    let a = action_step("focus-window", args2(s("--id"), fmt_u64(w)));
    steps_of2(a, Step::FocusTracked(w))
}

/// The steps of [`focus_previous_steps`].
fn focus_previous_window(state: &DaemonState) -> (res: Vec<Step>)
    ensures
        steps_view(res@) == focus_previous_steps(*state),
{
    match state.previous_focused_window_id {
        Some(p) => focus_window(p),
        None => {
            assert(steps_view(Seq::<Step>::empty()) =~= Seq::<StepView>::empty());
            Vec::new()
        },
    }
}

/// The steps of [`park_steps`].
fn move_to_scratchpad_workspace(w: u64) -> (res: Vec<Step>)
    ensures
        steps_view(res@) == park_steps(w),
{
    let ws = s(SCRATCHPAD_WORKSPACE);
    proof {
        reveal_strlit("\u{f0ab7}");
    }
    assert(ws@ =~= scratchpad_workspace_name());
    let a = action_step(
        "move-window-to-workspace",
        args5(s("--window-id"), fmt_u64(w), s("--focus"), s("false"), ws),
    );
    steps_of1(a)
}

/// The steps of [`hide_steps`].
fn hide_scratchpad(name: &str, w: u64) -> (res: Vec<Step>)
    ensures
        steps_view(res@) == hide_steps(name@, w),
{
    let tail = steps_of2(Step::MarkHidden(name.to_owned()), Step::SaveState);
    concat_steps(move_to_scratchpad_workspace(w), tail)
}

/// The steps of [`show_steps`].
fn show_scratchpad(state: &DaemonState, name: &str, w: u64, config: &ScratchpadConfig) -> (res: Vec<
    Step,
>)
    ensures
        steps_view(res@) == show_steps(*state, name@, w, *config),
{
    let to_monitor: Vec<Step> = match &state.focused_output {
        Some(o) => steps_of1(action_step("move-window-to-monitor", args3(s("--id"), fmt_u64(w), o.clone()))),
        None => Vec::new(),
    };
    let tail = steps_of2(Step::MarkVisible(name.to_owned()), Step::SaveState);
    let res = concat_steps(
        concat_steps(concat_steps(configure_window(state, w, config), to_monitor), focus_window(w)),
        tail,
    );
    assert(steps_view(res@) =~= show_steps(*state, name@, w, *config));
    res
}

/// The steps of [`tile_steps`].
fn tile_window(w: u64) -> (res: Vec<Step>)
    ensures
        steps_view(res@) == tile_steps(w),
{
    steps_of1(action_step("move-window-to-tiling", args2(s("--id"), fmt_u64(w))))
}

/// An error of the tools' own, with the given message.
pub open spec fn other_error(r: NiriToolsError, m: Seq<char>) -> bool {
    r matches NiriToolsError::Other(x) && x@ == m
}

/// A plan or the message of the error that replaces it.
pub open spec fn plan_matches(res: Result<Vec<Step>, NiriToolsError>, plan: Result<Seq<StepView>, Seq<char>>) -> bool {
    match plan {
        Ok(p) => res matches Ok(v) && steps_view(v@) == p,
        Err(m) => res matches Err(e) && other_error(e, m),
    }
}

/// The plan of [`spawn_plan`].
fn spawn_scratchpad(name: &str, config: &ScratchpadConfig) -> (res: Result<Vec<Step>, NiriToolsError>)
    ensures
        plan_matches(res, spawn_plan(name@, *config)),
{
    match &config.command {
        Some(cmd) => {
            let mut args: Vec<String> = Vec::new();
            push_arg(&mut args, s("--"));
            assert(strings_view(cmd@.take(0)) =~= Seq::<Seq<char>>::empty());
            let mut i: usize = 0;
            while i < cmd.len()
                invariant
                    i <= cmd@.len(),
                    strings_view(args@) == seq!["--"@] + strings_view(cmd@.take(i as int)),
                decreases cmd@.len() - i,
            {
                push_arg(&mut args, cmd[i].clone());
                assert(cmd@.take(i + 1) =~= cmd@.take(i as int).push(cmd@[i as int]));
                assert(strings_view(args@) =~= seq!["--"@] + strings_view(cmd@.take(i + 1)));
                i = i + 1;
            }
            assert(cmd@.take(cmd@.len() as int) =~= cmd@);
            Ok(steps_of2(action_step("spawn", args), Step::AddPending(name.to_owned())))
        },
        None => Err(NiriToolsError::Other(join3("Scratchpad '", name, "' has no command to spawn"))),
    }
}

/// The entry that [`is_latest`] picks among the scratchpads, if any is eligible.
pub open spec fn latest_index(s: DaemonState, hidden_only: bool) -> Option<int> {
    if exists|i: int| is_latest(s.scratchpads.val_seq(), hidden_only, i) {
        Some(choose|i: int| is_latest(s.scratchpads.val_seq(), hidden_only, i))
    } else {
        None
    }
}

/// At most one entry is the latest.
pub proof fn lemma_latest_unique(vals: Seq<crate::state::ScratchpadState>, hidden_only: bool, i: int, j: int)
    requires
        is_latest(vals, hidden_only, i),
        is_latest(vals, hidden_only, j),
    ensures
        i == j,
{
    if i < j {
        assert(vals[j].last_used < vals[i].last_used);
        assert(vals[j].last_used >= vals[i].last_used);
    } else if j < i {
        assert(vals[i].last_used < vals[j].last_used);
        assert(vals[i].last_used >= vals[j].last_used);
    }
}

/// `smart-toggle`: a focused scratchpad window is hidden (floating) or left for the
/// previous window (tiled); so is a scratchpad window that just lost the focus while
/// visible; otherwise the most recently used hidden scratchpad is shown.
pub open spec fn smart_toggle_plan(s: DaemonState) -> Seq<StepView> {
    let f = s.focused_window_id;
    let p = s.previous_focused_window_id;
    if f is Some && s.owners().contains_key(f->0) && s.windows@.contains_key(f->0) {
        if s.windows@[f->0].is_floating {
            hide_steps(s.owners()[f->0], f->0)
        } else {
            focus_previous_steps(s)
        }
    } else if p is Some && s.owners().contains_key(p->0) && s.scratchpads@.contains_key(
        s.owners()[p->0],
    ) && s.scratchpads@[s.owners()[p->0]].visible && s.windows@.contains_key(p->0) {
        if s.windows@[p->0].is_floating {
            hide_steps(s.owners()[p->0], p->0)
        } else {
            focus_previous_steps(s)
        }
    } else {
        match latest_index(s, true) {
            Some(i) => {
                let name = s.scratchpads.key_seq()[i];
                let w = s.scratchpads.val_seq()[i].window_id->0;
                if s.scratchpad_configs@.contains_key(name) {
                    show_steps(s, name, w, s.scratchpad_configs@[name])
                } else {
                    Seq::empty()
                }
            },
            None => Seq::empty(),
        }
    }
}

/// `hide`: park the focused window when it floats, marking its scratchpad hidden
/// when it belongs to one.
pub open spec fn hide_plan(s: DaemonState) -> Seq<StepView> {
    match s.focused_window_id {
        None => Seq::empty(),
        Some(f) => if !(s.windows@.contains_key(f) && s.windows@[f].is_floating) {
            Seq::empty()
        } else if s.owners().contains_key(f) {
            hide_steps(s.owners()[f], f)
        } else {
            park_steps(f)
        },
    }
}

pub open spec fn no_config_message(name: Seq<char>) -> Seq<char> {
    "No config for scratchpad '"@ + name + "'"@
}

/// The scratchpad a command acts on and its window: the named one (which must have a
/// window); else the one owning the focused window; else the most recently used one
/// with a window. Its configuration must exist.
pub open spec fn resolve_plan(s: DaemonState, name: Option<Seq<char>>) -> Result<(Seq<char>, u64), Seq<char>> {
    match name {
        Some(n) => if !(s.scratchpads@.contains_key(n) && s.scratchpads@[n].window_id is Some) {
            Err("Scratchpad '"@ + n + "' has no active window. Use 'toggle "@ + n + "' to spawn it."@)
        } else if !s.scratchpad_configs@.contains_key(n) {
            Err(no_config_message(n))
        } else {
            Ok((n, s.scratchpads@[n].window_id->0))
        },
        None => {
            let f = s.focused_window_id;
            if f is Some && s.owners().contains_key(f->0) {
                let n = s.owners()[f->0];
                if s.scratchpad_configs@.contains_key(n) {
                    Ok((n, f->0))
                } else {
                    Err(no_config_message(n))
                }
            } else {
                match latest_index(s, false) {
                    Some(i) => {
                        let n = s.scratchpads.key_seq()[i];
                        if s.scratchpad_configs@.contains_key(n) {
                            Ok((n, s.scratchpads.val_seq()[i].window_id->0))
                        } else {
                            Err(no_config_message(n))
                        }
                    },
                    None => Err(
                        "No scratchpad to act on. Specify a scratchpad name or focus a scratchpad window first."@,
                    ),
                }
            }
        },
    }
}

/// Window `w` exists and floats.
pub open spec fn floats(s: DaemonState, w: u64) -> bool {
    s.windows@.contains_key(w) && s.windows@[w].is_floating
}

/// Window `w` exists and has the focus.
pub open spec fn focused(s: DaemonState, w: u64) -> bool {
    s.windows@.contains_key(w) && s.windows@[w].is_focused
}

/// Show the scratchpad here first unless its window has the focus.
pub open spec fn bring_steps(s: DaemonState, n: Seq<char>, w: u64) -> Seq<StepView> {
    if focused(s, w) {
        Seq::empty()
    } else {
        show_steps(s, n, w, s.scratchpad_configs@[n])
    }
}

/// `toggle-float`: bring the scratchpad here, then tile it when it floats, else float
/// and configure it.
pub open spec fn toggle_float_plan(s: DaemonState, name: Option<Seq<char>>) -> Result<Seq<StepView>, Seq<char>> {
    match resolve_plan(s, name) {
        Err(m) => Err(m),
        Ok((n, w)) => Ok(
            bring_steps(s, n, w) + if floats(s, w) {
                tile_steps(w)
            } else {
                configure_steps(s, w, s.scratchpad_configs@[n])
            },
        ),
    }
}

/// `float`: nothing when the window floats already; else bring it here, float and
/// configure it.
pub open spec fn float_plan(s: DaemonState, name: Option<Seq<char>>) -> Result<Seq<StepView>, Seq<char>> {
    match resolve_plan(s, name) {
        Err(m) => Err(m),
        Ok((n, w)) => Ok(
            if floats(s, w) {
                Seq::empty()
            } else {
                bring_steps(s, n, w) + configure_steps(s, w, s.scratchpad_configs@[n])
            },
        ),
    }
}

/// `tile`: tile the window when it floats.
pub open spec fn tile_plan(s: DaemonState, name: Option<Seq<char>>) -> Result<Seq<StepView>, Seq<char>> {
    match resolve_plan(s, name) {
        Err(m) => Err(m),
        Ok((n, w)) => Ok(
            if floats(s, w) {
                tile_steps(w)
            } else {
                Seq::empty()
            },
        ),
    }
}

/// Scratchpads awaiting a window whose criteria `win` meets.
pub open spec fn awaits(s: DaemonState, win: WindowInfo) -> spec_fn(Seq<char>) -> bool {
    |n: Seq<char>| s.scratchpad_configs@.contains_key(n) && window_matches(win, s.scratchpad_configs@[n])
}

/// A new window: the first awaited scratchpad (in the order they were spawned) whose
/// criteria it meets adopts it, shows it configured and focused, and saves.
pub open spec fn window_opened_plan(s: DaemonState, win: WindowInfo) -> Seq<StepView> {
    match first_where(s.pending_spawns.elems(), awaits(s, win)) {
        Some(i) => {
            let n = s.pending_spawns.elems()[i];
            seq![
                StepView::RemovePending(n),
                StepView::Register(n, win.id),
                StepView::MarkVisible(n),
            ] + configure_steps(s, win.id, s.scratchpad_configs@[n]) + focus_steps(win.id)
                + seq![StepView::SaveState]
        },
        None => Seq::empty(),
    }
}

/// Plans the scratchpad commands against the daemon state (the state itself changes
/// only as the steps are carried out).
pub struct ScratchpadManager<'a> {
    pub state: &'a DaemonState,
}

impl<'a> ScratchpadManager<'a> {
    pub fn new(state: &'a DaemonState) -> (res: Self)
        ensures
            *res.state == *state,
    {
        ScratchpadManager { state }
    }

    /// Plans `toggle name` (see [`toggle_plan`]).
    pub fn toggle(&self, name: &str) -> (res: Result<Vec<Step>, NiriToolsError>)
        ensures
            plan_matches(res, toggle_plan(*self.state, name@)),
    {
        let state = self.state;
        let config = match state.scratchpad_configs.get(name) {
            Some(c) => c,
            None => return Err(NiriToolsError::Other(join3("No scratchpad config for '", name, "'"))),
        };
        let wid = match state.scratchpads.get(name) {
            Some(sp) => sp.window_id,
            None => None,
        };
        match wid {
            None => spawn_scratchpad(name, config),
            Some(w) => match state.windows.get(&w) {
                None => spawn_scratchpad(name, config),
                Some(win) => Ok(self.toggle_existing(name, win, config)),
            },
        }
    }

    fn toggle_existing(&self, name: &str, win: &WindowInfo, config: &ScratchpadConfig) -> (res: Vec<Step>)
        ensures
            steps_view(res@) == toggle_existing_steps(*self.state, name@, *win, *config),
    {
        let state = self.state;
        let wid = win.id;
        if win.is_focused {
            if win.is_floating {
                hide_scratchpad(name, wid)
            } else {
                focus_previous_window(state)
            }
        } else {
            let focused_ws: Option<u64> = match state.get_focused_workspace() {
                Some(ws) => Some(ws.id),
                None => None,
            };
            let same = win.workspace_id.is_some() && focused_ws.is_some() && win.workspace_id == focused_ws;
            if same {
                focus_window(wid)
            } else if win.is_floating {
                show_scratchpad(state, name, wid, config)
            } else if state.is_on_scratchpad_workspace(win) {
                show_scratchpad(state, name, wid, config)
            } else {
                focus_window(wid)
            }
        }
    }

    fn latest(&self, hidden_only: bool) -> (res: Option<usize>)
        ensures
            match latest_index(*self.state, hidden_only) {
                Some(i) => res == Some(i as usize),
                None => res is None,
            },
            res matches Some(i) ==> i < self.state.scratchpads.key_seq().len() && is_latest(
                self.state.scratchpads.val_seq(),
                hidden_only,
                i as int,
            ),
    {
        let r = self.state.latest_entry(hidden_only);
        proof {
            match r {
                Some(i) => {
                    assert(is_latest(self.state.scratchpads.val_seq(), hidden_only, i as int));
                    let j = choose|j: int| is_latest(self.state.scratchpads.val_seq(), hidden_only, j);
                    lemma_latest_unique(self.state.scratchpads.val_seq(), hidden_only, i as int, j);
                },
                None => {
                    if exists|j: int| is_latest(self.state.scratchpads.val_seq(), hidden_only, j) {
                        let j = choose|j: int| is_latest(self.state.scratchpads.val_seq(), hidden_only, j);
                        assert(eligible(self.state.scratchpads.val_seq()[j], hidden_only));
                    }
                },
            }
        }
        r
    }

    /// Plans `smart-toggle` (see [`smart_toggle_plan`]).
    pub fn smart_toggle(&self) -> (res: Vec<Step>)
        ensures
            steps_view(res@) == smart_toggle_plan(*self.state),
    {
        let state = self.state;
        if let Some(f) = state.focused_window_id {
            if let Some(name) = state.get_scratchpad_for_window(f) {
                if let Some(win) = state.windows.get(&f) {
                    return if win.is_floating {
                        hide_scratchpad(name, f)
                    } else {
                        focus_previous_window(state)
                    };
                }
            }
        }
        if let Some(p) = state.previous_focused_window_id {
            if let Some(name) = state.get_scratchpad_for_window(p) {
                let visible = match state.scratchpads.get(name) {
                    Some(sp) => sp.visible,
                    None => false,
                };
                if visible {
                    if let Some(win) = state.windows.get(&p) {
                        return if win.is_floating {
                            hide_scratchpad(name, p)
                        } else {
                            focus_previous_window(state)
                        };
                    }
                }
            }
        }
        match self.latest(true) {
            Some(i) => {
                let name = state.scratchpads.key_at(i);
                let sp = state.scratchpads.value_at(i);
                let w = match sp.window_id {
                    Some(w) => w,
                    None => {
                        return Vec::new();
                    },
                };
                match state.scratchpad_configs.get(name.as_str()) {
                    Some(c) => show_scratchpad(state, name.as_str(), w, c),
                    None => {
                        assert(steps_view(Seq::<Step>::empty()) =~= Seq::<StepView>::empty());
                        Vec::new()
                    },
                }
            },
            None => {
                assert(steps_view(Seq::<Step>::empty()) =~= Seq::<StepView>::empty());
                Vec::new()
            },
        }
    }

    /// Plans `hide` (see [`hide_plan`]).
    pub fn hide_focused(&self) -> (res: Vec<Step>)
        ensures
            steps_view(res@) == hide_plan(*self.state),
    {
        let state = self.state;
        assert(steps_view(Seq::<Step>::empty()) =~= Seq::<StepView>::empty());
        let f = match state.focused_window_id {
            Some(f) => f,
            None => return Vec::new(),
        };
        let floating = match state.windows.get(&f) {
            Some(w) => w.is_floating,
            None => false,
        };
        if !floating {
            return Vec::new();
        }
        match state.get_scratchpad_for_window(f) {
            Some(name) => hide_scratchpad(name, f),
            None => move_to_scratchpad_workspace(f),
        }
    }

    /// The scratchpad a command acts on (see [`resolve_plan`]).
    fn resolve_scratchpad(&self, name: Option<&str>) -> (res: Result<(String, u64, &'a ScratchpadConfig), NiriToolsError>)
        ensures
            match resolve_plan(*self.state, match name { Some(n) => Some(n@), None => None }) {
                Ok((n, w)) => res matches Ok(r) && r.0@ == n && r.1 == w
                    && self.state.scratchpad_configs@.contains_key(n)
                    && *r.2 == self.state.scratchpad_configs@[n],
                Err(m) => res matches Err(e) && other_error(e, m),
            },
    {
        let state: &'a DaemonState = self.state;
        match name {
            Some(n) => {
                let wid = match state.scratchpads.get(n) {
                    Some(sp) => sp.window_id,
                    None => None,
                };
                let w = match wid {
                    Some(w) => w,
                    None => {
                        let m = crate::text::join5(
                            "Scratchpad '",
                            n,
                            "' has no active window. Use 'toggle ",
                            n,
                            "' to spawn it.",
                        );
                        return Err(NiriToolsError::Other(m));
                    },
                };
                match state.scratchpad_configs.get(n) {
                    Some(c) => Ok((n.to_owned(), w, c)),
                    None => Err(NiriToolsError::Other(join3("No config for scratchpad '", n, "'"))),
                }
            },
            None => {
                if let Some(f) = state.focused_window_id {
                    if let Some(n) = state.get_scratchpad_for_window(f) {
                        return match state.scratchpad_configs.get(n) {
                            Some(c) => Ok((n.to_owned(), f, c)),
                            None => Err(
                                NiriToolsError::Other(join3("No config for scratchpad '", n, "'")),
                            ),
                        };
                    }
                }
                match self.latest(false) {
                    Some(i) => {
                        let n = state.scratchpads.key_at(i);
                        let sp = state.scratchpads.value_at(i);
                        let w = match sp.window_id {
                            Some(w) => w,
                            None => {
                                return Err(NiriToolsError::Other(String::new()));
                            },
                        };
                        match state.scratchpad_configs.get(n.as_str()) {
                            Some(c) => Ok((n.clone(), w, c)),
                            None => Err(
                                NiriToolsError::Other(
                                    join3("No config for scratchpad '", n.as_str(), "'"),
                                ),
                            ),
                        }
                    },
                    None => Err(
                        NiriToolsError::Other(
                            "No scratchpad to act on. Specify a scratchpad name or focus a scratchpad window first.".to_owned(),
                        ),
                    ),
                }
            },
        }
    }

    fn bring(&self, n: &str, w: u64, c: &ScratchpadConfig) -> (res: Vec<Step>)
        requires
            self.state.scratchpad_configs@.contains_key(n@),
            *c == self.state.scratchpad_configs@[n@],
        ensures
            steps_view(res@) == bring_steps(*self.state, n@, w),
    {
        let is_focused = match self.state.windows.get(&w) {
            Some(win) => win.is_focused,
            None => false,
        };
        if is_focused {
            assert(steps_view(Seq::<Step>::empty()) =~= Seq::<StepView>::empty());
            Vec::new()
        } else {
            show_scratchpad(self.state, n, w, c)
        }
    }

    fn floats_now(&self, w: u64) -> (res: bool)
        ensures
            res == floats(*self.state, w),
    {
        match self.state.windows.get(&w) {
            Some(win) => win.is_floating,
            None => false,
        }
    }

    /// Plans `toggle-float` (see [`toggle_float_plan`]).
    pub fn toggle_float(&self, name: Option<&str>) -> (res: Result<Vec<Step>, NiriToolsError>)
        ensures
            plan_matches(res, toggle_float_plan(*self.state, match name { Some(n) => Some(n@), None => None })),
    {
        let (n, w, c) = self.resolve_scratchpad(name)?;
        let first = self.bring(n.as_str(), w, c);
        let second = if self.floats_now(w) {
            tile_window(w)
        } else {
            configure_window(self.state, w, c)
        };
        Ok(concat_steps(first, second))
    }

    /// Plans `float` (see [`float_plan`]).
    pub fn float_scratchpad(&self, name: Option<&str>) -> (res: Result<Vec<Step>, NiriToolsError>)
        ensures
            plan_matches(res, float_plan(*self.state, match name { Some(n) => Some(n@), None => None })),
    {
        let (n, w, c) = self.resolve_scratchpad(name)?;
        if self.floats_now(w) {
            assert(steps_view(Seq::<Step>::empty()) =~= Seq::<StepView>::empty());
            return Ok(Vec::new());
        }
        let first = self.bring(n.as_str(), w, c);
        Ok(concat_steps(first, configure_window(self.state, w, c)))
    }

    /// Plans `tile` (see [`tile_plan`]).
    pub fn tile_scratchpad(&self, name: Option<&str>) -> (res: Result<Vec<Step>, NiriToolsError>)
        ensures
            plan_matches(res, tile_plan(*self.state, match name { Some(n) => Some(n@), None => None })),
    {
        let (_n, w, _c) = self.resolve_scratchpad(name)?;
        if self.floats_now(w) {
            Ok(tile_window(w))
        } else {
            assert(steps_view(Seq::<Step>::empty()) =~= Seq::<StepView>::empty());
            Ok(Vec::new())
        }
    }

    /// Plans what a new window does (see [`window_opened_plan`]).
    pub fn handle_window_opened(&self, window: &WindowInfo) -> (res: Vec<Step>)
        ensures
            steps_view(res@) == window_opened_plan(*self.state, *window),
    {
        let state = self.state;
        proof {
            use_type_invariant(&state.pending_spawns);
            state.pending_spawns.lemma_elems();
        }
        let n = state.pending_spawns.len();
        let mut i: usize = 0;
        while i < n
            invariant
                state == self.state,
                n == state.pending_spawns.elems().len(),
                i <= n,
                forall|j: int| 0 <= j < i ==> !awaits(*state, *window)(#[trigger] state.pending_spawns.elems()[j]),
            decreases n - i,
        {
            let name = state.pending_spawns.at(i);
            match state.scratchpad_configs.get(name.as_str()) {
                Some(c) => {
                    if matches_config(window, c) {
                        proof {
                            assert(awaits(*state, *window)(state.pending_spawns.elems()[i as int]));
                            lemma_first_where_at(state.pending_spawns.elems(), awaits(*state, *window), i as int);
                        }
                        let mut steps: Vec<Step> = Vec::new();
                        steps.push(Step::RemovePending(name.clone()));
                        steps.push(Step::Register(name.clone(), window.id));
                        steps.push(Step::MarkVisible(name.clone()));
                        let ghost head = steps@;
                        assert(steps_view(head) =~= seq![
                            StepView::RemovePending(name@),
                            StepView::Register(name@, window.id),
                            StepView::MarkVisible(name@),
                        ]);
                        let rest = concat_steps(configure_window(state, window.id, c), focus_window(window.id));
                        let tail = steps_of1(Step::SaveState);
                        let res = concat_steps(concat_steps(steps, rest), tail);
                        assert(steps_view(res@) =~= window_opened_plan(*state, *window));
                        return res;
                    }
                },
                None => {},
            }
            i = i + 1;
        }
        proof {
            lemma_first_where_none(state.pending_spawns.elems(), awaits(*state, *window));
        }
        assert(steps_view(Seq::<Step>::empty()) =~= Seq::<StepView>::empty());
        Vec::new()
    }
}

/// Everything but the awaited scratchpads is the same in `a` and `b`.
pub open spec fn same_but_pending(a: DaemonState, b: DaemonState) -> bool {
    &&& a.windows@ == b.windows@
    &&& a.workspaces@ == b.workspaces@
    &&& a.outputs@ == b.outputs@
    &&& a.focused_output == b.focused_output
    &&& a.focused_window_id == b.focused_window_id
    &&& a.previous_focused_window_id == b.previous_focused_window_id
    &&& a.scratchpads@ == b.scratchpads@
    &&& a.owners() == b.owners()
    &&& a.scratchpad_configs@ == b.scratchpad_configs@
    &&& a.config_files@ == b.config_files@
    &&& a.watch_config == b.watch_config
}

/// What carrying out a step does to the daemon state. Niri actions and saving leave
/// it as it is.
pub open spec fn step_applied(before: DaemonState, after: DaemonState, step: StepView) -> bool {
    match step {
        StepView::Action { .. } | StepView::SaveState => {
            &&& same_but_pending(before, after)
            &&& after.pending_spawns@ == before.pending_spawns@
        },
        StepView::FocusTracked(w) => {
            &&& after.previous_focused_window_id == before.focused_window_id
            &&& after.focused_window_id == Some(w)
            &&& after.windows@ == before.windows@
            &&& after.workspaces@ == before.workspaces@
            &&& after.outputs@ == before.outputs@
            &&& after.focused_output == before.focused_output
            &&& after.scratchpads@ == before.scratchpads@
            &&& after.owners() == before.owners()
            &&& after.pending_spawns@ == before.pending_spawns@
            &&& after.scratchpad_configs@ == before.scratchpad_configs@
            &&& after.config_files@ == before.config_files@
            &&& after.watch_config == before.watch_config
        },
        StepView::MarkVisible(n) => visibility_set(before, after, n, true),
        StepView::MarkHidden(n) => visibility_set(before, after, n, false),
        StepView::AddPending(n) => {
            &&& same_but_pending(before, after)
            &&& after.pending_spawns@ == before.pending_spawns@.insert(n)
        },
        StepView::RemovePending(n) => {
            &&& same_but_pending(before, after)
            &&& after.pending_spawns@ == before.pending_spawns@.remove(n)
        },
        StepView::Register(n, w) => registered(before, after, n, w),
    }
}

/// Carries out the state part of a step (see [`step_applied`]); the caller runs
/// niri actions and writes the state file.
pub fn apply_step(state: &mut DaemonState, step: &Step)
    ensures
        step_applied(*old(state), *final(state), step@),
{
    match step {
        Step::Action { .. } | Step::SaveState => {},
        Step::FocusTracked(w) => {
            state.previous_focused_window_id = state.focused_window_id;
            state.focused_window_id = Some(*w);
        },
        Step::MarkVisible(n) => state.mark_scratchpad_visible(n.as_str()),
        Step::MarkHidden(n) => state.mark_scratchpad_hidden(n.as_str()),
        Step::AddPending(n) => {
            let _ = state.pending_spawns.insert(n.clone());
        },
        Step::RemovePending(n) => {
            let _ = state.pending_spawns.remove(n.as_str());
        },
        Step::Register(n, w) => state.register_scratchpad_window(n.as_str(), *w),
    }
}

/// Showing scratchpad `name` with window `w` floats the window first, then gives it
/// the size that applies on the focused output (that output's override when it has
/// one, else the scratchpad's own), moves it to the focused output, focuses it, marks
/// the scratchpad visible and saves.
pub proof fn law_show_floats_sizes_and_focuses(s: DaemonState, name: Seq<char>, w: u64, c: ScratchpadConfig)
    ensures
        ({
            let p = show_steps(s, name, w, c);
            let id = decimal_digits(w as nat);
            let out = match s.focused_output {
                Some(o) => o@,
                None => Seq::<char>::empty(),
            };
            let size = if c.output_overrides@.contains_key(out) && c.output_overrides@[out].size is Some {
                c.output_overrides@[out].size
            } else {
                c.size
            };
            &&& p.len() >= 4
            &&& p[0] == act("move-window-to-floating"@, seq!["--id"@, id])
            &&& size matches Some(z) ==> p[1] == act("set-window-width"@, seq!["--id"@, id, z.width@])
                && p[2] == act("set-window-height"@, seq!["--id"@, id, z.height@])
            &&& s.focused_output matches Some(o) ==> p.contains(
                act("move-window-to-monitor"@, seq!["--id"@, id, o@]),
            )
            &&& p[p.len() - 3] == StepView::FocusTracked(w)
            &&& p[p.len() - 2] == StepView::MarkVisible(name)
            &&& p[p.len() - 1] == StepView::SaveState
        }),
{
    lemma_show_shape(s, name, w, c);
    lemma_configure_never_tiles(s, w, c);
    let p = show_steps(s, name, w, c);
    let conf = configure_steps(s, w, c);
    assert(p[0] == conf[0]);
    if resolved_size(c, focused_output_name(s)) is Some {
        assert(conf.len() >= 3);
        assert(p[1] == conf[1]);
        assert(p[2] == conf[2]);
    }
    if s.focused_output is Some {
        assert(p[conf.len() as int] == act(
            "move-window-to-monitor"@,
            seq!["--id"@, id_text(w), s.focused_output->0@],
        ));
    }
}

/// Toggling a configured scratchpad that has no live window spawns its whole command:
/// a `spawn` action whose arguments are `--` followed by every word of the command, in
/// order, and then the scratchpad awaits its window.
pub proof fn law_toggle_spawns_whole_command(s: DaemonState, name: Seq<char>)
    requires
        s.scratchpad_configs@.contains_key(name),
        s.scratchpad_configs@[name].command is Some,
        !(s.scratchpads@.contains_key(name) && (s.scratchpads@[name].window_id matches Some(w)
            && s.windows@.contains_key(w))),
    ensures
        ({
            let cmd = s.scratchpad_configs@[name].command->0@;
            &&& toggle_plan(s, name) matches Ok(steps)
            &&& steps.len() == 2
            &&& steps[0] matches StepView::Action { name: a, args }
            &&& a == "spawn"@
            &&& args.len() == cmd.len() + 1
            &&& args[0] == "--"@
            &&& forall|i: int| 0 <= i < cmd.len() ==> args[i + 1] == #[trigger] cmd[i]@
            &&& steps[1] == StepView::AddPending(name)
        }),
{
    let cmd = s.scratchpad_configs@[name].command->0@;
    let args = seq!["--"@] + strings_view(cmd);
    assert forall|i: int| 0 <= i < cmd.len() implies args[i + 1] == #[trigger] cmd[i]@ by {}
}

/// Toggling a scratchpad whose window exists never spawns: a focused floating window
/// is hidden (parked on the scratchpad workspace, marked hidden); a focused tiled one
/// gives the focus back to the previous window; an unfocused one is shown here
/// (marked visible) when it floats or is parked and is not on the focused workspace;
/// every unfocused window ends up focused. Steps name the window by the id that niri
/// reported for it.
pub proof fn law_toggle_existing_window(s: DaemonState, name: Seq<char>)
    requires
        s.scratchpad_configs@.contains_key(name),
        s.scratchpads@.contains_key(name),
        s.scratchpads@[name].window_id matches Some(w) && s.windows@.contains_key(w),
    ensures
        ({
            let w = s.scratchpads@[name].window_id->0;
            let win = s.windows@[w];
            let here = win.workspace_id is Some && focused_workspace_id(s) is Some
                && win.workspace_id == focused_workspace_id(s);
            let park = act(
                "move-window-to-workspace"@,
                seq!["--window-id"@, decimal_digits(win.id as nat), "--focus"@, "false"@, scratchpad_workspace_name()],
            );
            &&& toggle_plan(s, name) matches Ok(p)
            &&& !p.contains(StepView::AddPending(name))
            &&& p.contains(StepView::MarkHidden(name)) == (win.is_focused && win.is_floating)
            &&& (win.is_focused && win.is_floating) ==> p.contains(park)
            &&& p.contains(StepView::MarkVisible(name)) == (!win.is_focused && !here && (win.is_floating
                || s.parked(win)))
            &&& !win.is_focused ==> p.contains(StepView::FocusTracked(win.id))
            &&& (win.is_focused && !win.is_floating) ==> match s.previous_focused_window_id {
                Some(q) => p.contains(StepView::FocusTracked(q)),
                None => p.len() == 0,
            }
        }),
{
    let win = s.windows@[s.scratchpads@[name].window_id->0];
    let w = win.id;
    let c = s.scratchpad_configs@[name];
    let p = toggle_existing_steps(s, name, win, c);
    assert(toggle_plan(s, name) == Ok::<Seq<StepView>, Seq<char>>(p));
    if win.is_focused {
        if win.is_floating {
            assert(p == hide_steps(name, w));
            assert(p[1] == StepView::MarkHidden(name));
            assert(p[0] == park_steps(w)[0]);
            assert forall|k: int| 0 <= k < p.len() implies p[k] != StepView::MarkVisible(name)
                && p[k] != StepView::AddPending(name) by {
                if k == 0 {
                    assert(p[k] == park_steps(w)[0]);
                }
            }
        } else {
            assert(p == focus_previous_steps(s));
            match s.previous_focused_window_id {
                Some(q) => {
                    assert(p[1] == StepView::FocusTracked(q));
                    assert forall|k: int| 0 <= k < p.len() implies p[k] != StepView::MarkVisible(name)
                        && p[k] != StepView::MarkHidden(name) && p[k] != StepView::AddPending(name) by {}
                },
                None => {},
            }
        }
    } else {
        let here = win.workspace_id is Some && focused_workspace_id(s) is Some && win.workspace_id
            == focused_workspace_id(s);
        if here || !(win.is_floating || s.parked(win)) {
            assert(p == focus_steps(w));
            assert(p[1] == StepView::FocusTracked(w));
            assert forall|k: int| 0 <= k < p.len() implies p[k] != StepView::MarkVisible(name)
                && p[k] != StepView::MarkHidden(name) && p[k] != StepView::AddPending(name) by {}
        } else {
            assert(p == show_steps(s, name, w, c));
            lemma_show_shape(s, name, w, c);
            assert(p[p.len() - 2] == StepView::MarkVisible(name));
            assert(p[p.len() - 3] == StepView::FocusTracked(w));
            assert forall|k: int| 0 <= k < p.len() implies p[k] != StepView::MarkHidden(name)
                && p[k] != StepView::AddPending(name) by {
                if k < p.len() - 3 {
                    assert(p[k] is Action);
                }
            }
        }
    }
}

/// Smart toggle on a focused scratchpad window: a floating one is parked on the
/// scratchpad workspace and its scratchpad marked hidden; a tiled one gives the focus
/// back to the previous window. Nothing is shown either way.
pub proof fn law_smart_toggle_focused(s: DaemonState)
    requires
        s.focused_window_id matches Some(f) && s.owners().contains_key(f) && s.windows@.contains_key(f),
    ensures
        ({
            let f = s.focused_window_id->0;
            let plan = smart_toggle_plan(s);
            let park = act(
                "move-window-to-workspace"@,
                seq!["--window-id"@, decimal_digits(f as nat), "--focus"@, "false"@, scratchpad_workspace_name()],
            );
            &&& forall|k: int| 0 <= k < plan.len() ==> !(#[trigger] plan[k] is MarkVisible)
            &&& s.windows@[f].is_floating ==> plan.contains(park) && plan.contains(
                StepView::MarkHidden(s.owners()[f]),
            )
            &&& !s.windows@[f].is_floating ==> match s.previous_focused_window_id {
                Some(q) => plan.contains(StepView::FocusTracked(q)) && forall|k: int|
                    0 <= k < plan.len() ==> !(#[trigger] plan[k] is MarkHidden),
                None => plan.len() == 0,
            }
        }),
{
    let f = s.focused_window_id->0;
    let plan = smart_toggle_plan(s);
    if s.windows@[f].is_floating {
        assert(plan == hide_steps(s.owners()[f], f));
        assert(plan[0] == park_steps(f)[0]);
        assert(plan[1] == StepView::MarkHidden(s.owners()[f]));
        assert forall|k: int| 0 <= k < plan.len() implies !(#[trigger] plan[k] is MarkVisible) by {
            if k == 0 {
                assert(plan[k] == park_steps(f)[0]);
            }
        }
    } else {
        assert(plan == focus_previous_steps(s));
        if s.previous_focused_window_id is Some {
            assert(plan[1] == StepView::FocusTracked(s.previous_focused_window_id->0));
        }
    }
}

/// Smart toggle right after a visible scratchpad window lost the focus to a window of
/// no scratchpad treats it as still focused: a floating one is parked and its
/// scratchpad marked hidden; a tiled one gives the focus back to the previous window.
pub proof fn law_smart_toggle_just_unfocused(s: DaemonState)
    requires
        !(s.focused_window_id matches Some(f) && s.owners().contains_key(f) && s.windows@.contains_key(f)),
        s.previous_focused_window_id matches Some(q) && s.owners().contains_key(q)
            && s.scratchpads@.contains_key(s.owners()[q]) && s.scratchpads@[s.owners()[q]].visible
            && s.windows@.contains_key(q),
    ensures
        ({
            let q = s.previous_focused_window_id->0;
            let plan = smart_toggle_plan(s);
            let park = act(
                "move-window-to-workspace"@,
                seq!["--window-id"@, decimal_digits(q as nat), "--focus"@, "false"@, scratchpad_workspace_name()],
            );
            &&& forall|k: int| 0 <= k < plan.len() ==> !(#[trigger] plan[k] is MarkVisible)
            &&& s.windows@[q].is_floating ==> plan.contains(park) && plan.contains(
                StepView::MarkHidden(s.owners()[q]),
            )
            &&& !s.windows@[q].is_floating ==> plan.contains(StepView::FocusTracked(q)) && forall|k: int|
                0 <= k < plan.len() ==> !(#[trigger] plan[k] is MarkHidden)
        }),
{
    let q = s.previous_focused_window_id->0;
    let plan = smart_toggle_plan(s);
    if s.windows@[q].is_floating {
        assert(plan == hide_steps(s.owners()[q], q));
        assert(plan[0] == park_steps(q)[0]);
        assert(plan[1] == StepView::MarkHidden(s.owners()[q]));
        assert forall|k: int| 0 <= k < plan.len() implies !(#[trigger] plan[k] is MarkVisible) by {
            if k == 0 {
                assert(plan[k] == park_steps(q)[0]);
            }
        }
    } else {
        assert(plan == focus_previous_steps(s));
        assert(plan[1] == StepView::FocusTracked(q));
    }
}

/// `hide` parks the focused window on the scratchpad workspace, without following it,
/// exactly when it floats, and marks its scratchpad hidden exactly when it belongs to
/// one; otherwise it does nothing.
pub proof fn law_hide_parks_focused_floating(s: DaemonState)
    ensures
        ({
            let plan = hide_plan(s);
            let floating = s.focused_window_id matches Some(f) && s.windows@.contains_key(f)
                && s.windows@[f].is_floating;
            &&& !floating ==> plan.len() == 0
            &&& floating ==> {
                let f = s.focused_window_id->0;
                &&& plan.len() > 0
                &&& plan[0] == act(
                    "move-window-to-workspace"@,
                    seq!["--window-id"@, decimal_digits(f as nat), "--focus"@, "false"@, scratchpad_workspace_name()],
                )
                &&& forall|k: int| 0 <= k < plan.len() ==> !(#[trigger] plan[k] is MarkVisible)
                &&& s.owners().contains_key(f) ==> plan.contains(StepView::MarkHidden(s.owners()[f]))
                &&& !s.owners().contains_key(f) ==> plan.len() == 1
            }
        }),
{
    let plan = hide_plan(s);
    if s.focused_window_id matches Some(f) && s.windows@.contains_key(f) && s.windows@[f].is_floating {
        let f = s.focused_window_id->0;
        if s.owners().contains_key(f) {
            assert(plan == hide_steps(s.owners()[f], f));
            assert(plan[1] == StepView::MarkHidden(s.owners()[f]));
            assert(plan[0] == park_steps(f)[0]);
        } else {
            assert(plan == park_steps(f));
        }
    }
}

/// A new window is adopted by the first awaited scratchpad, in the order they were
/// spawned, that is configured and whose criteria the window meets: that scratchpad
/// stops awaiting, takes the window, is marked visible, and the window gets the focus.
/// With no such scratchpad nothing happens.
pub proof fn law_new_window_adopted(s: DaemonState, win: WindowInfo)
    ensures
        ({
            let pend = s.pending_spawns.elems();
            let plan = window_opened_plan(s, win);
            &&& (forall|j: int|
                0 <= j < pend.len() ==> !(s.scratchpad_configs@.contains_key(#[trigger] pend[j])
                    && window_matches(win, s.scratchpad_configs@[pend[j]]))) ==> plan.len() == 0
            &&& (exists|j: int|
                0 <= j < pend.len() && s.scratchpad_configs@.contains_key(#[trigger] pend[j])
                    && window_matches(win, s.scratchpad_configs@[pend[j]])) ==> exists|i: int|
                {
                    &&& 0 <= i < pend.len()
                    &&& s.scratchpad_configs@.contains_key(#[trigger] pend[i])
                    &&& window_matches(win, s.scratchpad_configs@[pend[i]])
                    &&& forall|j: int|
                        0 <= j < i ==> !(s.scratchpad_configs@.contains_key(#[trigger] pend[j])
                            && window_matches(win, s.scratchpad_configs@[pend[j]]))
                    &&& plan.len() > 3
                    &&& plan[0] == StepView::RemovePending(pend[i])
                    &&& plan[1] == StepView::Register(pend[i], win.id)
                    &&& plan[2] == StepView::MarkVisible(pend[i])
                    &&& plan.contains(StepView::FocusTracked(win.id))
                    &&& plan.last() == StepView::SaveState
                }
        }),
{
    let pend = s.pending_spawns.elems();
    let p = awaits(s, win);
    lemma_first_where(pend, p);
    match first_where(pend, p) {
        Some(i) => {
            let n = pend[i];
            let c = s.scratchpad_configs@[n];
            let plan = window_opened_plan(s, win);
            let head = seq![
                StepView::RemovePending(n),
                StepView::Register(n, win.id),
                StepView::MarkVisible(n),
            ];
            let conf = configure_steps(s, win.id, c);
            assert(plan == head + conf + focus_steps(win.id) + seq![StepView::SaveState]);
            assert(plan[(head.len() + conf.len() + 1) as int] == StepView::FocusTracked(win.id));
            assert forall|j: int| 0 <= j < i implies !(s.scratchpad_configs@.contains_key(#[trigger] pend[j])
                && window_matches(win, s.scratchpad_configs@[pend[j]])) by {
                assert(!p(pend[j]));
            }
        },
        None => {
            assert forall|j: int| 0 <= j < pend.len() implies !(s.scratchpad_configs@.contains_key(#[trigger] pend[j])
                && window_matches(win, s.scratchpad_configs@[pend[j]])) by {
                assert(!p(pend[j]));
            }
        },
    }
}

/// A scratchpad that smart toggle shows (marks visible) was hidden, has a window,
/// and no hidden scratchpad with a window was used more recently; its window is the
/// one that gets the focus.
pub proof fn law_smart_toggle_shows_latest_hidden(s: DaemonState, n: Seq<char>)
    requires
        s.scratchpads.wf(),
        smart_toggle_plan(s).contains(StepView::MarkVisible(n)),
    ensures
        s.scratchpads@.contains_key(n),
        s.scratchpads@[n].window_id is Some,
        !s.scratchpads@[n].visible,
        forall|m: Seq<char>|
            #![trigger s.scratchpads@[m]]
            s.scratchpads@.contains_key(m) && s.scratchpads@[m].window_id is Some
                && !s.scratchpads@[m].visible ==> s.scratchpads@[m].last_used
                <= s.scratchpads@[n].last_used,
        smart_toggle_plan(s).contains(StepView::FocusTracked(s.scratchpads@[n].window_id->0)),
{
    s.scratchpads.lemma_entries();
    let plan = smart_toggle_plan(s);
    let k = choose|k: int| 0 <= k < plan.len() && plan[k] == StepView::MarkVisible(n);
    let f = s.focused_window_id;
    let p = s.previous_focused_window_id;
    let first = f is Some && s.owners().contains_key(f->0) && s.windows@.contains_key(f->0);
    let second = p is Some && s.owners().contains_key(p->0) && s.scratchpads@.contains_key(
        s.owners()[p->0],
    ) && s.scratchpads@[s.owners()[p->0]].visible && s.windows@.contains_key(p->0);
    if first || second {
        let w = if first { f->0 } else { p->0 };
        if s.windows@[w].is_floating {
            assert(plan == hide_steps(s.owners()[w], w));
        } else {
            assert(plan == focus_previous_steps(s));
        }
        assert(false);
    }
    let i = latest_index(s, true)->0;
    let vals = s.scratchpads.val_seq();
    let name = s.scratchpads.key_seq()[i];
    assert(is_latest(vals, true, i));
    assert(s.scratchpads@.contains_key(name));
    let w = vals[i].window_id->0;
    let c = s.scratchpad_configs@[name];
    assert(plan == show_steps(s, name, w, c));
    lemma_show_shape(s, name, w, c);
    assert(k == plan.len() - 2);
    assert(s.scratchpads@[name] == vals[i]);
    assert forall|m: Seq<char>|
        #![trigger s.scratchpads@[m]]
        s.scratchpads@.contains_key(m) && s.scratchpads@[m].window_id is Some
            && !s.scratchpads@[m].visible implies s.scratchpads@[m].last_used
            <= s.scratchpads@[n].last_used by {
        let j = s.scratchpads.key_seq().index_of(m);
        assert(s.scratchpads@[s.scratchpads.key_seq()[j]] == vals[j]);
        assert(eligible(vals[j], true));
    }
    assert(plan[plan.len() - 3] == StepView::FocusTracked(w));
}

/// The steps that show scratchpad `name` with window `w`: niri actions, then the
/// focus of `w`, then `name` marked visible and the state saved.
proof fn lemma_show_shape(s: DaemonState, name: Seq<char>, w: u64, c: ScratchpadConfig)
    ensures
        ({
            let p = show_steps(s, name, w, c);
            &&& p.len() >= 4
            &&& forall|k: int| 0 <= k < p.len() - 3 ==> #[trigger] p[k] is Action
            &&& p[p.len() - 3] == StepView::FocusTracked(w)
            &&& p[p.len() - 2] == StepView::MarkVisible(name)
            &&& p[p.len() - 1] == StepView::SaveState
        }),
{
    lemma_configure_never_tiles(s, w, c);
    let to_monitor = match s.focused_output {
        Some(o) => seq![act("move-window-to-monitor"@, seq!["--id"@, id_text(w), o@])],
        None => Seq::<StepView>::empty(),
    };
    let p = show_steps(s, name, w, c);
    let cl = configure_steps(s, w, c).len();
    assert(cl >= 1);
    assert forall|k: int| 0 <= k < p.len() - 3 implies #[trigger] p[k] is Action by {
        if k < cl {
            assert(p[k] == configure_steps(s, w, c)[k]);
        } else if k < cl + to_monitor.len() {
            assert(p[k] == to_monitor[k - cl]);
        } else {
            assert(p[k] == focus_steps(w)[k - cl - to_monitor.len()]);
        }
    }
}

/// When neither the focused window nor a visible one that just lost the focus belongs
/// to a scratchpad, smart toggle does nothing without a hidden scratchpad that has a
/// window, and otherwise shows one of them: the most recently used, when it is
/// configured.
pub proof fn law_smart_toggle_without_focus(s: DaemonState)
    requires
        s.scratchpads.wf(),
        !(s.focused_window_id matches Some(f) && s.owners().contains_key(f) && s.windows@.contains_key(f)),
        !(s.previous_focused_window_id matches Some(p) && s.owners().contains_key(p)
            && s.scratchpads@.contains_key(s.owners()[p]) && s.scratchpads@[s.owners()[p]].visible
            && s.windows@.contains_key(p)),
    ensures
        (forall|m: Seq<char>|
            #![trigger s.scratchpads@[m]]
            s.scratchpads@.contains_key(m) ==> s.scratchpads@[m].window_id is None
                || s.scratchpads@[m].visible) ==> smart_toggle_plan(s) == Seq::<StepView>::empty(),
        (exists|m: Seq<char>|
            #![trigger s.scratchpads@[m]]
            s.scratchpads@.contains_key(m) && s.scratchpads@[m].window_id is Some
                && !s.scratchpads@[m].visible) ==> exists|n: Seq<char>|
            #![trigger s.scratchpads@[n]]
            {
                &&& s.scratchpads@.contains_key(n)
                &&& s.scratchpads@[n].window_id is Some
                &&& !s.scratchpads@[n].visible
                &&& forall|m: Seq<char>|
                    #![trigger s.scratchpads@[m]]
                    s.scratchpads@.contains_key(m) && s.scratchpads@[m].window_id is Some
                        && !s.scratchpads@[m].visible ==> s.scratchpads@[m].last_used
                        <= s.scratchpads@[n].last_used
                &&& smart_toggle_plan(s) == if s.scratchpad_configs@.contains_key(n) {
                    show_steps(s, n, s.scratchpads@[n].window_id->0, s.scratchpad_configs@[n])
                } else {
                    Seq::<StepView>::empty()
                }
            },
{
    s.scratchpads.lemma_entries();
    let vals = s.scratchpads.val_seq();
    let keys = s.scratchpads.key_seq();
    match lemma_latest_prefix(vals, true, vals.len() as int) {
        Some(b) => {
            assert(is_latest(vals, true, b));
            let i = latest_index(s, true)->0;
            assert(is_latest(vals, true, i));
            let n = keys[i];
            assert(s.scratchpads@.contains_key(n));
            assert(s.scratchpads@[n] == vals[i]);
            assert forall|m: Seq<char>|
                #![trigger s.scratchpads@[m]]
                s.scratchpads@.contains_key(m) && s.scratchpads@[m].window_id is Some
                    && !s.scratchpads@[m].visible implies s.scratchpads@[m].last_used
                    <= s.scratchpads@[n].last_used by {
                let j = keys.index_of(m);
                assert(s.scratchpads@[keys[j]] == vals[j]);
                assert(eligible(vals[j], true));
            }
            assert(s.scratchpads@.contains_key(n));
        },
        None => {
            assert(!exists|i: int| is_latest(vals, true, i));
            assert forall|m: Seq<char>|
                #![trigger s.scratchpads@[m]]
                s.scratchpads@.contains_key(m) implies s.scratchpads@[m].window_id is None
                    || s.scratchpads@[m].visible by {
                let j = keys.index_of(m);
                assert(s.scratchpads@[keys[j]] == vals[j]);
                assert(!eligible(vals[j], true));
            }
        },
    }
}

/// The most recently used eligible entry among the first `k`, if any is eligible.
proof fn lemma_latest_prefix(vals: Seq<crate::state::ScratchpadState>, hidden_only: bool, k: int) -> (b: Option<int>)
    requires
        0 <= k <= vals.len(),
    ensures
        match b {
            Some(b) => {
                &&& 0 <= b < k
                &&& eligible(vals[b], hidden_only)
                &&& forall|j: int|
                    0 <= j < k && eligible(#[trigger] vals[j], hidden_only) ==> vals[j].last_used
                        <= vals[b].last_used
                &&& forall|j: int|
                    b < j < k && eligible(#[trigger] vals[j], hidden_only) ==> vals[j].last_used
                        < vals[b].last_used
            },
            None => forall|j: int| 0 <= j < k ==> !eligible(#[trigger] vals[j], hidden_only),
        },
    decreases k,
{
    if k == 0 {
        None
    } else {
        let prev = lemma_latest_prefix(vals, hidden_only, k - 1);
        if eligible(vals[k - 1], hidden_only) {
            match prev {
                None => Some(k - 1),
                Some(b) => if vals[b].last_used <= vals[k - 1].last_used {
                    Some(k - 1)
                } else {
                    Some(b)
                },
            }
        } else {
            prev
        }
    }
}

/// `tile` tiles the resolved window exactly when it floats: a floating window gets
/// `move-window-to-tiling --id <window>`, any other nothing; an unresolved scratchpad
/// is the resolution's error.
pub proof fn law_tile_only_floating(s: DaemonState, name: Option<Seq<char>>)
    ensures
        match resolve_plan(s, name) {
            Ok((n, w)) => tile_plan(s, name) == Ok::<Seq<StepView>, Seq<char>>(
                if s.windows@.contains_key(w) && s.windows@[w].is_floating {
                    seq![
                        StepView::Action {
                            name: "move-window-to-tiling"@,
                            args: seq!["--id"@, decimal_digits(w as nat)],
                        },
                    ]
                } else {
                    Seq::<StepView>::empty()
                },
            ),
            Err(m) => tile_plan(s, name) == Err::<Seq<StepView>, Seq<char>>(m),
        },
{
}

/// `float` does nothing to a window that floats already; any other window is floated
/// (`move-window-to-floating --id <window>`) and never tiled.
pub proof fn law_float_only_tiled(s: DaemonState, name: Option<Seq<char>>)
    requires
        resolve_plan(s, name) is Ok,
    ensures
        ({
            let w = resolve_plan(s, name)->Ok_0.1;
            let floating = act("move-window-to-floating"@, seq!["--id"@, decimal_digits(w as nat)]);
            let tiling = act("move-window-to-tiling"@, seq!["--id"@, decimal_digits(w as nat)]);
            &&& float_plan(s, name) matches Ok(p)
            &&& (s.windows@.contains_key(w) && s.windows@[w].is_floating) ==> p.len() == 0
            &&& !(s.windows@.contains_key(w) && s.windows@[w].is_floating) ==> p.contains(floating)
            &&& !p.contains(tiling)
        }),
{
    let (n, w) = resolve_plan(s, name)->Ok_0;
    let c = s.scratchpad_configs@[n];
    let floating = act("move-window-to-floating"@, seq!["--id"@, decimal_digits(w as nat)]);
    let tiling = act("move-window-to-tiling"@, seq!["--id"@, decimal_digits(w as nat)]);
    reveal_strlit("move-window-to-floating");
    reveal_strlit("move-window-to-tiling");
    if !floats(s, w) {
        let b = bring_steps(s, n, w);
        let p = b + configure_steps(s, w, c);
        assert(p[b.len() as int] == floating);
        lemma_configure_never_tiles(s, w, c);
        lemma_bring_never_tiles(s, n, w);
        assert forall|k: int| 0 <= k < p.len() implies p[k] != tiling by {
            if k < b.len() {
                assert(p[k] == b[k]);
                assert(!tiles(b[k]));
            } else {
                assert(p[k] == configure_steps(s, w, c)[k - b.len()]);
                assert(!tiles(configure_steps(s, w, c)[k - b.len()]));
            }
        }
    }
}

/// `toggle-float` ends by tiling a floating window (`move-window-to-tiling --id
/// <window>`); a window that does not float is floated instead and never tiled.
pub proof fn law_toggle_float_flips(s: DaemonState, name: Option<Seq<char>>)
    requires
        resolve_plan(s, name) is Ok,
    ensures
        ({
            let w = resolve_plan(s, name)->Ok_0.1;
            let floating = act("move-window-to-floating"@, seq!["--id"@, decimal_digits(w as nat)]);
            let tiling = act("move-window-to-tiling"@, seq!["--id"@, decimal_digits(w as nat)]);
            &&& toggle_float_plan(s, name) matches Ok(p)
            &&& (s.windows@.contains_key(w) && s.windows@[w].is_floating) ==> p.len() > 0 && p.last()
                == tiling
            &&& !(s.windows@.contains_key(w) && s.windows@[w].is_floating) ==> p.contains(floating)
                && !p.contains(tiling)
        }),
{
    let (n, w) = resolve_plan(s, name)->Ok_0;
    let c = s.scratchpad_configs@[n];
    let floating = act("move-window-to-floating"@, seq!["--id"@, decimal_digits(w as nat)]);
    let tiling = act("move-window-to-tiling"@, seq!["--id"@, decimal_digits(w as nat)]);
    reveal_strlit("move-window-to-floating");
    reveal_strlit("move-window-to-tiling");
    let b = bring_steps(s, n, w);
    if floats(s, w) {
        let p = b + tile_steps(w);
        assert(p.last() == tiling);
    } else {
        let p = b + configure_steps(s, w, c);
        assert(p[b.len() as int] == floating);
        lemma_configure_never_tiles(s, w, c);
        lemma_bring_never_tiles(s, n, w);
        assert forall|k: int| 0 <= k < p.len() implies p[k] != tiling by {
            if k < b.len() {
                assert(p[k] == b[k]);
                assert(!tiles(b[k]));
            } else {
                assert(p[k] == configure_steps(s, w, c)[k - b.len()]);
                assert(!tiles(configure_steps(s, w, c)[k - b.len()]));
            }
        }
    }
}

/// A niri action that tiles a window.
spec fn tiles(st: StepView) -> bool {
    st matches StepView::Action { name: a, .. } && a == "move-window-to-tiling"@
}

/// The steps that configure a window are niri actions, and none of them tiles it.
proof fn lemma_configure_never_tiles(s: DaemonState, w: u64, c: ScratchpadConfig)
    ensures
        configure_steps(s, w, c).len() >= 1,
        forall|k: int| 0 <= k < configure_steps(s, w, c).len() ==> !tiles(#[trigger] configure_steps(s, w, c)[k])
            && configure_steps(s, w, c)[k] is Action,
{
    reveal_strlit("move-window-to-tiling");
    reveal_strlit("move-window-to-floating");
    reveal_strlit("set-window-width");
    reveal_strlit("set-window-height");
    reveal_strlit("move-floating-window");
    let id = id_text(w);
    let out_name = focused_output_name(s);
    let float = seq![act("move-window-to-floating"@, seq!["--id"@, id])];
    let size = match resolved_size(c, out_name) {
        Some(sz) => seq![
            act("set-window-width"@, seq!["--id"@, id, sz.width@]),
            act("set-window-height"@, seq!["--id"@, id, sz.height@]),
        ],
        None => Seq::<StepView>::empty(),
    };
    let pos = match resolved_position(c, out_name) {
        Some(p) => if s.outputs@.contains_key(out_name) {
            let out = s.outputs@[out_name];
            let ws = expected_window_size(c, out);
            let x = position_value(p.x@, out.width, ws.0);
            let y = position_value(p.y@, out.height, ws.1);
            seq![
                act(
                    "move-floating-window"@,
                    seq!["--id"@, id, "--x"@, signed_decimal(x as int), "--y"@, signed_decimal(y as int)],
                ),
            ]
        } else {
            Seq::<StepView>::empty()
        },
        None => Seq::<StepView>::empty(),
    };
    let all = configure_steps(s, w, c);
    assert(all == float + size + pos);
    assert("move-window-to-tiling"@.len() == 21);
    assert("move-window-to-floating"@.len() == 23);
    assert("set-window-width"@.len() == 16);
    assert("set-window-height"@.len() == 17);
    assert("move-floating-window"@.len() == 20);
    assert forall|k: int| 0 <= k < all.len() implies !tiles(#[trigger] all[k]) && all[k] is Action by {
        if k < 1 {
            assert(all[k] == float[k]);
        } else if k < 1 + size.len() {
            assert(all[k] == size[k - 1]);
        } else {
            assert(all[k] == pos[k - 1 - size.len()]);
        }
    }
}

/// The steps that bring a scratchpad here never tile its window.
proof fn lemma_bring_never_tiles(s: DaemonState, n: Seq<char>, w: u64)
    ensures
        forall|k: int| 0 <= k < bring_steps(s, n, w).len() ==> !tiles(#[trigger] bring_steps(s, n, w)[k]),
{
    reveal_strlit("move-window-to-tiling");
    reveal_strlit("move-window-to-monitor");
    reveal_strlit("focus-window");
    if !focused(s, w) {
        let c = s.scratchpad_configs@.index(n);
        lemma_configure_never_tiles(s, w, c);
        let to_monitor = match s.focused_output {
            Some(o) => seq![act("move-window-to-monitor"@, seq!["--id"@, id_text(w), o@])],
            None => Seq::<StepView>::empty(),
        };
        let plan = show_steps(s, n, w, c);
        let cl = configure_steps(s, w, c).len();
        assert("move-window-to-tiling"@.len() == 21);
        assert("move-window-to-monitor"@.len() == 22);
        assert("focus-window"@.len() == 12);
        assert forall|k: int| 0 <= k < plan.len() implies !tiles(#[trigger] plan[k]) by {
            if k < cl {
                assert(plan[k] == configure_steps(s, w, c)[k]);
            } else if k < cl + to_monitor.len() {
                assert(plan[k] == to_monitor[k - cl]);
            } else if k < cl + to_monitor.len() + 2 {
                assert(plan[k] == focus_steps(w)[k - cl - to_monitor.len()]);
            }
        }
    }
}

/// Every step keeps the scratchpad bookkeeping consistent, a registration provided
/// that its window belongs to no other scratchpad.
pub proof fn law_steps_keep_ownership(before: DaemonState, after: DaemonState, step: StepView)
    requires
        before.ownership_consistent(),
        step_applied(before, after, step),
        step matches StepView::Register(n, w) ==> (before.owners().contains_key(w) ==> before.owners()[w]
            == n),
    ensures
        after.ownership_consistent(),
{
    match step {
        StepView::MarkVisible(n) => law_visibility_keeps_ownership(before, after, n, true),
        StepView::MarkHidden(n) => law_visibility_keeps_ownership(before, after, n, false),
        StepView::Register(n, w) => law_register_keeps_ownership(before, after, n, w),
        _ => {},
    }
}

} // verus!
