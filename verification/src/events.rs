//! niri's events: reading them from JSON and applying them to the daemon state.
use vstd::prelude::*;
use std::collections::HashSet;
use crate::error::NiriToolsError;
use crate::seqs::lemma_first_where;
use crate::json::{
    deref_opt, json_get, key_is, opt_at, opt_bool, opt_get, opt_str, opt_u64, parse_json, read_json,
    serde_json_value, JsonValue,
};
use crate::state::{restamped, released_scratchpads, DaemonState};
use crate::strmap::StrMap;
use crate::text::{chars_of, trim_chars};
use crate::types::{
    EventView, NiriEvent, OutputInfo, OutputView, WindowInfo, WindowView, WorkspaceInfo,
    WorkspaceView,
};

verus! {

broadcast use vstd::std_specs::hash::group_hash_axioms;

/// A number field read as `as_u64().unwrap_or(0) as u32` (truncating).
pub open spec fn u32_or_zero(v: Option<JsonValue>) -> u32 {
    match opt_u64(v) {
        Some(n) => n as u32,
        None => 0,
    }
}

/// A string field, empty when missing.
pub open spec fn str_or_empty(v: Option<JsonValue>) -> Seq<char> {
    match opt_str(v) {
        Some(s) => s,
        None => Seq::empty(),
    }
}

/// A boolean field, false when missing.
pub open spec fn bool_or_false(v: Option<JsonValue>) -> bool {
    match opt_bool(v) {
        Some(b) => b,
        None => false,
    }
}

/// The window that a niri window object describes: `None` without a numeric `id`.
/// The size comes from `layout.window_size` when there is a `layout`, else from
/// `width` and `height`.
pub open spec fn window_from(data: JsonValue) -> Option<WindowView> {
    match opt_u64(json_get(data, "id"@)) {
        None => None,
        Some(id) => {
            let layout = json_get(data, "layout"@);
            let size = opt_get(layout, "window_size"@);
            Some(
                WindowView {
                    id,
                    app_id: str_or_empty(json_get(data, "app_id"@)),
                    title: str_or_empty(json_get(data, "title"@)),
                    workspace_id: opt_u64(json_get(data, "workspace_id"@)),
                    is_focused: bool_or_false(json_get(data, "is_focused"@)),
                    is_floating: bool_or_false(json_get(data, "is_floating"@)),
                    width: if layout is Some {
                        u32_or_zero(opt_at(size, 0))
                    } else {
                        u32_or_zero(json_get(data, "width"@))
                    },
                    height: if layout is Some {
                        u32_or_zero(opt_at(size, 1))
                    } else {
                        u32_or_zero(json_get(data, "height"@))
                    },
                },
            )
        },
    }
}

/// The windows that the elements of an array describe, skipping the others.
pub open spec fn windows_from(s: Seq<JsonValue>) -> Seq<WindowView>
    decreases s.len(),
{
    if s.len() == 0 {
        Seq::empty()
    } else {
        let prev = windows_from(s.drop_last());
        match window_from(s.last()) {
            Some(w) => prev.push(w),
            None => prev,
        }
    }
}

/// The workspace that a niri workspace object describes: `None` without a numeric
/// `id`.
pub open spec fn workspace_from(data: JsonValue) -> Option<WorkspaceView> {
    match opt_u64(json_get(data, "id"@)) {
        None => None,
        Some(id) => Some(
            WorkspaceView {
                id,
                idx: u32_or_zero(json_get(data, "idx"@)),
                output: str_or_empty(json_get(data, "output"@)),
                is_active: bool_or_false(json_get(data, "is_active"@)),
                name: opt_str(json_get(data, "name"@)),
            },
        ),
    }
}

/// The workspaces that the elements of an array describe, skipping the others.
pub open spec fn workspaces_from(s: Seq<JsonValue>) -> Seq<WorkspaceView>
    decreases s.len(),
{
    if s.len() == 0 {
        Seq::empty()
    } else {
        let prev = workspaces_from(s.drop_last());
        match workspace_from(s.last()) {
            Some(w) => prev.push(w),
            None => prev,
        }
    }
}

/// The output `name` that a niri output object describes: its logical size, 0 where
/// missing.
pub open spec fn output_from(name: Seq<char>, data: JsonValue) -> OutputView {
    let logical = json_get(data, "logical"@);
    OutputView {
        name,
        width: u32_or_zero(opt_get(logical, "width"@)),
        height: u32_or_zero(opt_get(logical, "height"@)),
    }
}

/// The outputs that the members of an object describe, keyed by member name.
pub open spec fn outputs_from(es: Seq<(String, JsonValue)>) -> Map<Seq<char>, OutputView>
    decreases es.len(),
{
    if es.len() == 0 {
        Map::empty()
    } else {
        outputs_from(es.drop_last()).insert(es.last().0@, output_from(es.last().0@, es.last().1))
    }
}

/// Member `key` of `data`, or `data` itself when it has none.
pub open spec fn member_or_self(data: JsonValue, key: Seq<char>) -> JsonValue {
    match json_get(data, key) {
        Some(v) => v,
        None => data,
    }
}

/// The event that one line of niri's event stream (as JSON) describes. The first of
/// the known event names that the object has decides; a malformed payload gives
/// `None`, as does anything else.
pub open spec fn event_from(json: JsonValue) -> Option<EventView> {
    if !(json is Object) {
        None
    } else if let Some(data) = json_get(json, "WindowOpenedOrChanged"@) {
        match window_from(member_or_self(data, "window"@)) {
            Some(w) => Some(EventView::WindowOpenedOrChanged(w)),
            None => None,
        }
    } else if let Some(data) = json_get(json, "WindowsChanged"@) {
        match member_or_self(data, "windows"@) {
            JsonValue::Array(a) => Some(EventView::WindowsChanged(windows_from(a@))),
            _ => None,
        }
    } else if let Some(data) = json_get(json, "WindowClosed"@) {
        match opt_u64(json_get(data, "id"@)) {
            Some(id) => Some(EventView::WindowClosed { id }),
            None => None,
        }
    } else if let Some(data) = json_get(json, "WindowFocusChanged"@) {
        Some(EventView::WindowFocusChanged { id: opt_u64(json_get(data, "id"@)) })
    } else if let Some(data) = json_get(json, "WorkspaceActivated"@) {
        match opt_u64(json_get(data, "id"@)) {
            Some(id) => Some(
                EventView::WorkspaceActivated {
                    id,
                    focused: bool_or_false(json_get(data, "focused"@)),
                },
            ),
            None => None,
        }
    } else if json_get(json, "WorkspacesChanged"@) is Some {
        Some(EventView::WorkspacesChanged)
    } else if let Some(data) = json_get(json, "OutputFocusChanged"@) {
        Some(EventView::OutputFocusChanged { output: opt_str(json_get(data, "output"@)) })
    } else if let Some(data) = json_get(json, "OutputsChanged"@) {
        match member_or_self(data, "outputs"@) {
            JsonValue::Object(es) => Some(EventView::OutputsChanged(outputs_from(es@))),
            _ => None,
        }
    } else {
        None
    }
}

fn u32_field(v: Option<&JsonValue>) -> (res: u32)
    ensures
        res == u32_or_zero(deref_opt(v)),
{
    match v {
        Some(x) => match x.as_u64() {
            Some(n) => n as u32,
            None => 0,
        },
        None => 0,
    }
}

fn str_field(v: Option<&JsonValue>) -> (res: String)
    ensures
        res@ == str_or_empty(deref_opt(v)),
{
    match v {
        Some(x) => match x.as_str() {
            Some(s) => s.to_owned(),
            None => String::new(),
        },
        None => String::new(),
    }
}

fn bool_field(v: Option<&JsonValue>) -> (res: bool)
    ensures
        res == bool_or_false(deref_opt(v)),
{
    match v {
        Some(x) => match x.as_bool() {
            Some(b) => b,
            None => false,
        },
        None => false,
    }
}

fn u64_field(v: Option<&JsonValue>) -> (res: Option<u64>)
    ensures
        res == opt_u64(deref_opt(v)),
{
    match v {
        Some(x) => x.as_u64(),
        None => None,
    }
}

fn get_in<'a>(v: Option<&'a JsonValue>, key: &str) -> (res: Option<&'a JsonValue>)
    ensures
        deref_opt(res) == opt_get(deref_opt(v), key@),
{
    match v {
        Some(x) => x.get(key),
        None => None,
    }
}

fn at_in<'a>(v: Option<&'a JsonValue>, i: usize) -> (res: Option<&'a JsonValue>)
    ensures
        deref_opt(res) == opt_at(deref_opt(v), i as int),
{
    match v {
        Some(x) => x.at(i),
        None => None,
    }
}

/// Reads a niri window object (see [`window_from`]).
pub fn parse_window_info(data: &JsonValue) -> (res: Option<WindowInfo>)
    ensures
        match res {
            Some(w) => window_from(*data) == Some(w@),
            None => window_from(*data) is None,
        },
{
    let id = match u64_field(data.get("id")) {
        Some(id) => id,
        None => return None,
    };
    let app_id = str_field(data.get("app_id"));
    let title = str_field(data.get("title"));
    let workspace_id = u64_field(data.get("workspace_id"));
    let is_focused = bool_field(data.get("is_focused"));
    let is_floating = bool_field(data.get("is_floating"));
    let layout = data.get("layout");
    let (width, height) = if layout.is_some() {
        let size = get_in(layout, "window_size");
        (u32_field(at_in(size, 0)), u32_field(at_in(size, 1)))
    } else {
        (u32_field(data.get("width")), u32_field(data.get("height")))
    };
    Some(WindowInfo { id, app_id, title, workspace_id, is_focused, is_floating, width, height })
}

/// Reads a niri workspace object (see [`workspace_from`]).
pub fn parse_workspace_info(data: &JsonValue) -> (res: Option<WorkspaceInfo>)
    ensures
        match res {
            Some(w) => workspace_from(*data) == Some(w@),
            None => workspace_from(*data) is None,
        },
{
    let id = match u64_field(data.get("id")) {
        Some(id) => id,
        None => return None,
    };
    let idx = u32_field(data.get("idx"));
    let output = str_field(data.get("output"));
    let is_active = bool_field(data.get("is_active"));
    let name = match data.get("name") {
        Some(v) => match v.as_str() {
            Some(s) => Some(s.to_owned()),
            None => None,
        },
        None => None,
    };
    Some(WorkspaceInfo { id, idx, output, is_active, name })
}

/// Reads a niri output object (see [`output_from`]).
pub fn parse_output_info(name: &str, data: &JsonValue) -> (res: OutputInfo)
    ensures
        res@ == output_from(name@, *data),
{
    let logical = data.get("logical");
    let width = u32_field(get_in(logical, "width"));
    let height = u32_field(get_in(logical, "height"));
    OutputInfo { name: name.to_owned(), width, height }
}

/// Reads the windows of an array, skipping elements that are not windows.
fn windows_of(a: &Vec<JsonValue>) -> (res: Vec<WindowInfo>)
    ensures
        res@.map_values(|w: WindowInfo| w@) == windows_from(a@),
{
    let mut out: Vec<WindowInfo> = Vec::new();
    let mut i: usize = 0;
    while i < a.len()
        invariant
            i <= a@.len(),
            out@.map_values(|w: WindowInfo| w@) == windows_from(a@.take(i as int)),
        decreases a@.len() - i,
    {
        assert(a@.take(i + 1).drop_last() =~= a@.take(i as int));
        assert(a@.take(i + 1).last() == a@[i as int]);
        match parse_window_info(&a[i]) {
            Some(w) => {
                out.push(w);
                assert(out@.map_values(|w: WindowInfo| w@) =~= windows_from(a@.take(i as int)).push(
                    w@,
                ));
            },
            None => {},
        }
        i = i + 1;
    }
    assert(a@.take(a@.len() as int) =~= a@);
    out
}

/// Reads the workspaces of an array, skipping elements that are not workspaces.
fn workspaces_of(a: &Vec<JsonValue>) -> (res: Vec<WorkspaceInfo>)
    ensures
        res@.map_values(|w: WorkspaceInfo| w@) == workspaces_from(a@),
{
    let mut out: Vec<WorkspaceInfo> = Vec::new();
    let mut i: usize = 0;
    while i < a.len()
        invariant
            i <= a@.len(),
            out@.map_values(|w: WorkspaceInfo| w@) == workspaces_from(a@.take(i as int)),
        decreases a@.len() - i,
    {
        assert(a@.take(i + 1).drop_last() =~= a@.take(i as int));
        assert(a@.take(i + 1).last() == a@[i as int]);
        match parse_workspace_info(&a[i]) {
            Some(w) => {
                out.push(w);
                assert(out@.map_values(|w: WorkspaceInfo| w@) =~= workspaces_from(
                    a@.take(i as int),
                ).push(w@));
            },
            None => {},
        }
        i = i + 1;
    }
    assert(a@.take(a@.len() as int) =~= a@);
    out
}

/// Reads the outputs of an object, keyed by member name.
fn outputs_of(es: &Vec<(String, JsonValue)>) -> (res: StrMap<OutputInfo>)
    ensures
        res@.map_values(|o: OutputInfo| o@) == outputs_from(es@),
{
    let mut out: StrMap<OutputInfo> = StrMap::new();
    let mut i: usize = 0;
    while i < es.len()
        invariant
            i <= es@.len(),
            out@.map_values(|o: OutputInfo| o@) == outputs_from(es@.take(i as int)),
        decreases es@.len() - i,
    {
        assert(es@.take(i + 1).drop_last() =~= es@.take(i as int));
        assert(es@.take(i + 1).last() == es@[i as int]);
        let (name, val) = &es[i];
        let o = parse_output_info(name.as_str(), val);
        out.insert(name.clone(), o);
        assert(out@.map_values(|o: OutputInfo| o@) =~= outputs_from(es@.take(i + 1)));
        i = i + 1;
    }
    assert(es@.take(es@.len() as int) =~= es@);
    out
}

/// The plain-value view of an optional event.
pub open spec fn event_view(e: Option<NiriEvent>) -> Option<EventView> {
    match e {
        Some(x) => Some(x@),
        None => None,
    }
}

fn member_or_self_of<'a>(data: &'a JsonValue, key: &str) -> (res: &'a JsonValue)
    ensures
        *res == member_or_self(*data, key@),
{
    match data.get(key) {
        Some(v) => v,
        None => data,
    }
}

/// Reads one event of niri's event stream (see [`event_from`]).
pub fn parse_niri_event(json: &JsonValue) -> (res: Option<NiriEvent>)
    ensures
        event_view(res) == event_from(*json),
{
    match json {
        JsonValue::Object(_) => {},
        _ => return None,
    }
    if let Some(data) = json.get("WindowOpenedOrChanged") {
        return match parse_window_info(member_or_self_of(data, "window")) {
            Some(w) => Some(NiriEvent::WindowOpenedOrChanged(w)),
            None => None,
        };
    }
    if let Some(data) = json.get("WindowsChanged") {
        return match member_or_self_of(data, "windows") {
            JsonValue::Array(a) => Some(NiriEvent::WindowsChanged(windows_of(a))),
            _ => None,
        };
    }
    if let Some(data) = json.get("WindowClosed") {
        return match u64_field(data.get("id")) {
            Some(id) => Some(NiriEvent::WindowClosed { id }),
            None => None,
        };
    }
    if let Some(data) = json.get("WindowFocusChanged") {
        return Some(NiriEvent::WindowFocusChanged { id: u64_field(data.get("id")) });
    }
    if let Some(data) = json.get("WorkspaceActivated") {
        return match u64_field(data.get("id")) {
            Some(id) => Some(
                NiriEvent::WorkspaceActivated { id, focused: bool_field(data.get("focused")) },
            ),
            None => None,
        };
    }
    if json.get("WorkspacesChanged").is_some() {
        return Some(NiriEvent::WorkspacesChanged);
    }
    if let Some(data) = json.get("OutputFocusChanged") {
        let output = match data.get("output") {
            Some(v) => match v.as_str() {
                Some(s) => Some(s.to_owned()),
                None => None,
            },
            None => None,
        };
        return Some(NiriEvent::OutputFocusChanged { output });
    }
    if let Some(data) = json.get("OutputsChanged") {
        return match member_or_self_of(data, "outputs") {
            JsonValue::Object(es) => Some(NiriEvent::OutputsChanged(outputs_of(es))),
            _ => None,
        };
    }
    None
}

proof fn lemma_push_to_set<A>(s: Seq<A>, a: A)
    ensures
        s.push(a).to_set() == s.to_set().insert(a),
{
    assert forall|x: A| s.push(a).to_set().contains(x) <==> s.to_set().insert(a).contains(x) by {
        if s.contains(x) {
            let j = s.index_of(x);
            assert(s.push(a)[j] == x);
        }
        if s.push(a).contains(x) && x != a {
            let j = s.push(a).index_of(x);
            assert(s[j] == x);
        }
        assert(s.push(a)[s.len() as int] == a);
    }
    assert(s.push(a).to_set() =~= s.to_set().insert(a));
}

/// What the event loop does after an event has been applied.
#[derive(Debug, PartialEq)]
pub enum EventAction {
    /// Nothing further.
    Nothing,
    /// A window appeared: it may be the window of a scratchpad being spawned.
    WindowOpened(WindowInfo),
    /// A full window list arrived: drop the ownership of windows not in it.
    Reconcile(HashSet<u64>),
    /// Scratchpad state changed: write the state file.
    SaveState,
    /// The workspace list changed: fetch it again.
    ReloadWorkspaces,
}

/// `w` with its focus flag set to `f`.
pub open spec fn with_focus(w: WindowInfo, f: bool) -> WindowInfo {
    WindowInfo { is_focused: f, ..w }
}

/// `ws` with its active flag set to `a`.
pub open spec fn with_active(ws: WorkspaceInfo, a: bool) -> WorkspaceInfo {
    WorkspaceInfo { is_active: a, ..ws }
}

/// `m` with the windows `ws` stored by id, in order.
pub open spec fn insert_windows(m: Map<u64, WindowInfo>, ws: Seq<WindowInfo>) -> Map<u64, WindowInfo>
    decreases ws.len(),
{
    if ws.len() == 0 {
        m
    } else {
        insert_windows(m, ws.drop_last()).insert(ws.last().id, ws.last())
    }
}

/// The id of the last focused window of `ws`, or `prev` when none is focused.
pub open spec fn last_focused(ws: Seq<WindowInfo>, prev: Option<u64>) -> Option<u64>
    decreases ws.len(),
{
    if ws.len() == 0 {
        prev
    } else if ws.last().is_focused {
        Some(ws.last().id)
    } else {
        last_focused(ws.drop_last(), prev)
    }
}

/// The scratchpad bookkeeping and the configuration are the same in `a` and `b`.
pub open spec fn same_scratchpad_part(a: DaemonState, b: DaemonState) -> bool {
    &&& a.scratchpads@ == b.scratchpads@
    &&& a.owners() == b.owners()
    &&& a.pending_spawns@ == b.pending_spawns@
    &&& a.scratchpad_configs@ == b.scratchpad_configs@
    &&& a.config_files@ == b.config_files@
    &&& a.watch_config == b.watch_config
}

/// Everything but the scratchpad states and the owner map is the same in `a` and `b`,
/// the windows aside.
pub open spec fn same_but_windows(a: DaemonState, b: DaemonState) -> bool {
    &&& a.workspaces@ == b.workspaces@
    &&& a.outputs@ == b.outputs@
    &&& a.focused_output == b.focused_output
    &&& a.pending_spawns@ == b.pending_spawns@
    &&& a.scratchpad_configs@ == b.scratchpad_configs@
    &&& a.config_files@ == b.config_files@
    &&& a.watch_config == b.watch_config
}

/// `after` is `before` with `event` applied, and `action` is what follows.
pub open spec fn event_applied(
    before: DaemonState,
    after: DaemonState,
    event: NiriEvent,
    action: EventAction,
) -> bool {
    match event {
        NiriEvent::WindowOpenedOrChanged(w) => {
            &&& after.windows@ == before.windows@.insert(w.id, w)
            &&& same_but_windows(before, after)
            &&& same_scratchpad_part(before, after)
            &&& after.focused_window_id == before.focused_window_id
            &&& after.previous_focused_window_id == before.previous_focused_window_id
            &&& action == (if before.windows@.contains_key(w.id) {
                EventAction::Nothing
            } else {
                EventAction::WindowOpened(w)
            })
        },
        NiriEvent::WindowsChanged(ws) => {
            &&& after.windows@ == insert_windows(before.windows@, ws@)
            &&& after.focused_window_id == last_focused(ws@, before.focused_window_id)
            &&& same_but_windows(before, after)
            &&& same_scratchpad_part(before, after)
            &&& after.previous_focused_window_id == before.previous_focused_window_id
            &&& action matches EventAction::Reconcile(ids) && ids@ == ws@.map_values(
                |w: WindowInfo| w.id,
            ).to_set()
        },
        NiriEvent::WindowClosed { id } => {
            &&& after.windows@ == before.windows@.remove(id)
            &&& same_but_windows(before, after)
            &&& after.focused_window_id == before.focused_window_id
            &&& after.previous_focused_window_id == before.previous_focused_window_id
            &&& after.owners() == before.owners().remove(id)
            &&& after.scratchpads@ == released_scratchpads(before, id)
            &&& action == (if before.owners().contains_key(id) {
                EventAction::SaveState
            } else {
                EventAction::Nothing
            })
        },
        NiriEvent::WindowFocusChanged { id } => {
            &&& after.windows@.dom() == before.windows@.dom()
            &&& forall|k: u64| #[trigger]
                after.windows@.contains_key(k) ==> after.windows@[k] == with_focus(
                    before.windows@[k],
                    id == Some(k),
                )
            &&& after.focused_window_id == id
            &&& after.previous_focused_window_id == (if before.focused_window_id != id
                && before.focused_window_id is Some {
                before.focused_window_id
            } else {
                before.previous_focused_window_id
            })
            &&& same_but_windows(before, after)
            &&& after.owners() == before.owners()
            &&& match id {
                Some(i) => restamped(before.scratchpads@, after.scratchpads@, before.owner_of(i)),
                None => after.scratchpads@ == before.scratchpads@,
            }
            &&& action == EventAction::Nothing
        },
        NiriEvent::WorkspaceActivated { id, focused } => {
            &&& after.windows@ == before.windows@
            &&& after.outputs@ == before.outputs@
            &&& after.focused_window_id == before.focused_window_id
            &&& after.previous_focused_window_id == before.previous_focused_window_id
            &&& same_scratchpad_part(before, after)
            &&& if before.workspaces@.contains_key(id) {
                let out = before.workspaces@[id].output;
                &&& after.workspaces@.dom() == before.workspaces@.dom()
                &&& forall|k: u64| #[trigger]
                    after.workspaces@.contains_key(k) ==> after.workspaces@[k] == (if before.workspaces@[k].output@
                        == out@ {
                        with_active(before.workspaces@[k], before.workspaces@[k].id == id)
                    } else {
                        before.workspaces@[k]
                    })
                &&& after.focused_output == (if focused {
                    Some(out)
                } else {
                    before.focused_output
                })
            } else {
                &&& after.workspaces@ == before.workspaces@
                &&& after.focused_output == before.focused_output
            }
            &&& action == EventAction::Nothing
        },
        NiriEvent::WorkspacesChanged => {
            &&& after == before
            &&& action == EventAction::ReloadWorkspaces
        },
        NiriEvent::OutputFocusChanged { output } => {
            &&& after.windows@ == before.windows@
            &&& after.workspaces@ == before.workspaces@
            &&& after.outputs@ == before.outputs@
            &&& after.focused_output == output
            &&& after.focused_window_id == before.focused_window_id
            &&& after.previous_focused_window_id == before.previous_focused_window_id
            &&& same_scratchpad_part(before, after)
            &&& action == EventAction::Nothing
        },
        NiriEvent::OutputsChanged(outputs) => {
            &&& after.windows@ == before.windows@
            &&& after.workspaces@ == before.workspaces@
            &&& after.outputs@ == outputs@
            &&& after.focused_output == before.focused_output
            &&& after.focused_window_id == before.focused_window_id
            &&& after.previous_focused_window_id == before.previous_focused_window_id
            &&& same_scratchpad_part(before, after)
            &&& action == EventAction::Nothing
        },
    }
}

fn apply_windows_changed(state: &mut DaemonState, ws: &Vec<WindowInfo>) -> (ids: HashSet<u64>)
    ensures
        final(state).windows@ == insert_windows(old(state).windows@, ws@),
        final(state).focused_window_id == last_focused(ws@, old(state).focused_window_id),
        same_but_windows(*old(state), *final(state)),
        same_scratchpad_part(*old(state), *final(state)),
        final(state).previous_focused_window_id == old(state).previous_focused_window_id,
        ids@ == ws@.map_values(|w: WindowInfo| w.id).to_set(),
{
    let mut ids: HashSet<u64> = HashSet::new();
    let mut i: usize = 0;
    while i < ws.len()
        invariant
            i <= ws@.len(),
            state.windows@ == insert_windows(old(state).windows@, ws@.take(i as int)),
            state.focused_window_id == last_focused(ws@.take(i as int), old(state).focused_window_id),
            same_but_windows(*old(state), *state),
            same_scratchpad_part(*old(state), *state),
            state.previous_focused_window_id == old(state).previous_focused_window_id,
            ids@ == ws@.take(i as int).map_values(|w: WindowInfo| w.id).to_set(),
        decreases ws@.len() - i,
    {
        let w = &ws[i];
        assert(ws@.take(i + 1).drop_last() =~= ws@.take(i as int));
        assert(ws@.take(i + 1).last() == ws@[i as int]);
        ids.insert(w.id);
        state.windows.insert(w.id, w.duplicate());
        if w.is_focused {
            state.focused_window_id = Some(w.id);
        }
        assert(ws@.take(i + 1).map_values(|w: WindowInfo| w.id) =~= ws@.take(i as int).map_values(
            |w: WindowInfo| w.id,
        ).push(w.id));
        proof {
            lemma_push_to_set(ws@.take(i as int).map_values(|w: WindowInfo| w.id), w.id);
        }
        i = i + 1;
    }
    assert(ws@.take(ws@.len() as int) =~= ws@);
    ids
}

fn apply_focus(state: &mut DaemonState, id: Option<u64>)
    ensures
        final(state).windows@.dom() == old(state).windows@.dom(),
        forall|k: u64| #[trigger]
            final(state).windows@.contains_key(k) ==> final(state).windows@[k] == with_focus(
                old(state).windows@[k],
                id == Some(k),
            ),
        final(state).focused_window_id == old(state).focused_window_id,
        final(state).previous_focused_window_id == old(state).previous_focused_window_id,
        same_but_windows(*old(state), *final(state)),
        same_scratchpad_part(*old(state), *final(state)),
{
    proof {
        use_type_invariant(&state.windows);
        state.windows.lemma_entries();
    }
    let ghost ks = state.windows.key_seq();
    let ghost vs = state.windows.val_seq();
    let n = state.windows.len();
    let mut i: usize = 0;
    while i < n
        invariant
            n == ks.len(),
            n == vs.len(),
            i <= n,
            ks == old(state).windows.key_seq(),
            vs == old(state).windows.val_seq(),
            state.windows.key_seq() == ks,
            state.windows.val_seq().len() == n,
            forall|j: int|
                0 <= j < i ==> #[trigger] state.windows.val_seq()[j] == with_focus(
                    vs[j],
                    id == Some(ks[j]),
                ),
            forall|j: int| i <= j < n ==> #[trigger] state.windows.val_seq()[j] == vs[j],
            state.focused_window_id == old(state).focused_window_id,
            state.previous_focused_window_id == old(state).previous_focused_window_id,
            same_but_windows(*old(state), *state),
            same_scratchpad_part(*old(state), *state),
        decreases n - i,
    {
        let k = state.windows.key_at(i);
        let mut w = state.windows.value_at(i).duplicate();
        w.is_focused = match id {
            Some(x) => x == k,
            None => false,
        };
        state.windows.set_value_at(i, w);
        i = i + 1;
    }
    proof {
        use_type_invariant(&state.windows);
        state.windows.lemma_entries();
        old(state).windows.lemma_entries();
        assert forall|k: u64| #[trigger]
            state.windows@.contains_key(k) implies state.windows@[k] == with_focus(
                old(state).windows@[k],
                id == Some(k),
            ) by {
            let j = ks.index_of(k);
            assert(ks[j] == k);
            assert(state.windows@.contains_key(state.windows.key_seq()[j]));
            assert(old(state).windows@.contains_key(old(state).windows.key_seq()[j]));
        }
        assert(state.windows@.dom() =~= old(state).windows@.dom()) by {
            assert forall|k: u64| old(state).windows@.contains_key(k) implies #[trigger] state.windows@.contains_key(k) by {
                let j = ks.index_of(k);
                assert(ks[j] == k);
            }
        }
    }
}

fn apply_workspace_activated(state: &mut DaemonState, id: u64, focused: bool)
    ensures
        final(state).windows@ == old(state).windows@,
        final(state).outputs@ == old(state).outputs@,
        final(state).focused_window_id == old(state).focused_window_id,
        final(state).previous_focused_window_id == old(state).previous_focused_window_id,
        same_scratchpad_part(*old(state), *final(state)),
        if old(state).workspaces@.contains_key(id) {
            let out = old(state).workspaces@[id].output;
            &&& final(state).workspaces@.dom() == old(state).workspaces@.dom()
            &&& forall|k: u64| #[trigger]
                final(state).workspaces@.contains_key(k) ==> final(state).workspaces@[k] == (if old(
                    state,
                ).workspaces@[k].output@ == out@ {
                    with_active(old(state).workspaces@[k], old(state).workspaces@[k].id == id)
                } else {
                    old(state).workspaces@[k]
                })
            &&& final(state).focused_output == (if focused {
                Some(out)
            } else {
                old(state).focused_output
            })
        } else {
            &&& final(state).workspaces@ == old(state).workspaces@
            &&& final(state).focused_output == old(state).focused_output
        },
{
    let output = match state.workspaces.get(&id) {
        Some(ws) => ws.output.clone(),
        None => return,
    };
    proof {
        use_type_invariant(&state.workspaces);
        state.workspaces.lemma_entries();
    }
    let ghost ks = state.workspaces.key_seq();
    let ghost vs = state.workspaces.val_seq();
    let ghost out = output;
    let n = state.workspaces.len();
    let mut i: usize = 0;
    while i < n
        invariant
            n == ks.len(),
            n == vs.len(),
            i <= n,
            out == output,
            ks == old(state).workspaces.key_seq(),
            vs == old(state).workspaces.val_seq(),
            state.workspaces.key_seq() == ks,
            state.workspaces.val_seq().len() == n,
            forall|j: int|
                0 <= j < i ==> #[trigger] state.workspaces.val_seq()[j] == (if vs[j].output@ == out@ {
                    with_active(vs[j], vs[j].id == id)
                } else {
                    vs[j]
                }),
            forall|j: int| i <= j < n ==> #[trigger] state.workspaces.val_seq()[j] == vs[j],
            state.windows@ == old(state).windows@,
            state.outputs@ == old(state).outputs@,
            state.focused_output == old(state).focused_output,
            state.focused_window_id == old(state).focused_window_id,
            state.previous_focused_window_id == old(state).previous_focused_window_id,
            same_scratchpad_part(*old(state), *state),
        decreases n - i,
    {
        let ws = state.workspaces.value_at(i);
        if crate::text::str_eq(ws.output.as_str(), output.as_str()) {
            let mut nw = ws.duplicate();
            nw.is_active = nw.id == id;
            state.workspaces.set_value_at(i, nw);
        }
        i = i + 1;
    }
    if focused {
        state.focused_output = Some(output);
    }
    proof {
        use_type_invariant(&state.workspaces);
        state.workspaces.lemma_entries();
        old(state).workspaces.lemma_entries();
        assert forall|k: u64| #[trigger]
            state.workspaces@.contains_key(k) implies state.workspaces@[k] == (if old(state).workspaces@[k].output@
                == out@ {
                with_active(old(state).workspaces@[k], old(state).workspaces@[k].id == id)
            } else {
                old(state).workspaces@[k]
            }) by {
            let j = ks.index_of(k);
            assert(ks[j] == k);
            assert(state.workspaces@.contains_key(state.workspaces.key_seq()[j]));
            assert(old(state).workspaces@.contains_key(old(state).workspaces.key_seq()[j]));
        }
        assert(state.workspaces@.dom() =~= old(state).workspaces@.dom()) by {
            assert forall|k: u64| old(state).workspaces@.contains_key(k) implies #[trigger] state.workspaces@.contains_key(k) by {
                let j = ks.index_of(k);
                assert(ks[j] == k);
            }
        }
    }
}

fn copy_outputs(m: &StrMap<OutputInfo>) -> (res: StrMap<OutputInfo>)
    ensures
        res@ == m@,
{
    proof {
        use_type_invariant(m);
        m.lemma_entries();
    }
    let mut out: StrMap<OutputInfo> = StrMap::new();
    let n = m.len();
    let mut i: usize = 0;
    while i < n
        invariant
            n == m.key_seq().len(),
            i <= n,
            forall|k: Seq<char>| #[trigger]
                out@.contains_key(k) <==> m.key_seq().take(i as int).contains(k),
            forall|k: Seq<char>| #[trigger] out@.contains_key(k) ==> out@[k] == m@[k],
        decreases n - i,
    {
        proof {
            use_type_invariant(m);
            m.lemma_entries();
        }
        let k = m.key_at(i).clone();
        let v = m.value_at(i).duplicate();
        assert(m@.contains_key(m.key_seq()[i as int]));
        assert(m@[m.key_seq()[i as int]] == m.val_seq()[i as int]);
        out.insert(k, v);
        proof {
            let t0 = m.key_seq().take(i as int);
            let t1 = m.key_seq().take(i + 1);
            assert(t1 =~= t0.push(m.key_seq()[i as int]));
            assert forall|x: Seq<char>| #[trigger] out@.contains_key(x) <==> t1.contains(x) by {
                if t0.contains(x) {
                    let j = t0.index_of(x);
                    assert(t1[j] == x);
                }
                if t1.contains(x) && x != m.key_seq()[i as int] {
                    let j = t1.index_of(x);
                    assert(t0[j] == x);
                }
                assert(t1[i as int] == m.key_seq()[i as int]);
            }
        }
        i = i + 1;
    }
    proof {
        assert(m.key_seq().take(n as int) =~= m.key_seq());
        assert(out@ =~= m@);
    }
    out
}

/// Applies an event to the daemon state and says what follows (see
/// [`event_applied`]).
pub fn apply_event(state: &mut DaemonState, event: &NiriEvent) -> (action: EventAction)
    ensures
        event_applied(*old(state), *final(state), *event, action),
{
    match event {
        NiriEvent::WindowOpenedOrChanged(window) => {
            let is_new = !state.windows.contains_key(&window.id);
            state.windows.insert(window.id, window.duplicate());
            if is_new {
                EventAction::WindowOpened(window.duplicate())
            } else {
                EventAction::Nothing
            }
        },
        NiriEvent::WindowsChanged(windows) => {
            let ids = apply_windows_changed(state, windows);
            EventAction::Reconcile(ids)
        },
        NiriEvent::WindowClosed { id } => {
            let _ = state.windows.remove(id);
            let was_scratchpad = state.window_to_scratchpad.contains_key(id);
            state.unregister_scratchpad_window(*id);
            if was_scratchpad {
                EventAction::SaveState
            } else {
                EventAction::Nothing
            }
        },
        NiriEvent::WindowFocusChanged { id } => {
            apply_focus(state, *id);
            let old_focus = state.focused_window_id;
            match id {
                Some(i) => {
                    state.focused_window_id = Some(*i);
                    state.update_scratchpad_recency(*i);
                },
                None => {
                    state.focused_window_id = None;
                },
            }
            if old_focus != state.focused_window_id {
                if let Some(o) = old_focus {
                    state.previous_focused_window_id = Some(o);
                }
            }
            EventAction::Nothing
        },
        NiriEvent::WorkspaceActivated { id, focused } => {
            apply_workspace_activated(state, *id, *focused);
            EventAction::Nothing
        },
        NiriEvent::WorkspacesChanged => EventAction::ReloadWorkspaces,
        NiriEvent::OutputFocusChanged { output } => {
            state.focused_output = match output {
                Some(o) => Some(o.clone()),
                None => None,
            };
            EventAction::Nothing
        },
        NiriEvent::OutputsChanged(outputs) => {
            state.outputs = copy_outputs(outputs);
            EventAction::Nothing
        },
    }
}

/// One line of niri's event stream: a blank line is skipped (`None`), text that is
/// not JSON is a serialization error, and JSON that is no known event is skipped.
pub fn event_from_line(line: &str) -> (res: Option<Result<NiriEvent, NiriToolsError>>)
    ensures
        crate::text::trim_spec(line@).len() == 0 ==> res is None,
        crate::text::trim_spec(line@).len() > 0 ==> match serde_json_value(line@) {
            None => res matches Some(Err(NiriToolsError::Serialization(_))),
            Some(v) => match event_from(v) {
                None => res is None,
                Some(e) => res matches Some(Ok(x)) && x@ == e,
            },
        },
{
    let cs = chars_of(line);
    let t = trim_chars(&cs);
    if t.len() == 0 {
        return None;
    }
    match read_json(line) {
        Ok(v) => match parse_niri_event(&v) {
            Some(e) => Some(Ok(e)),
            None => None,
        },
        Err(msg) => Some(Err(NiriToolsError::Serialization(msg))),
    }
}

/// The windows of a `niri msg -j windows` reply: an array of window objects, of which
/// the readable ones are kept.
pub fn windows_from_reply(text: &str) -> (res: Result<Vec<WindowInfo>, NiriToolsError>)
    ensures
        match serde_json_value(text@) {
            None => res matches Err(NiriToolsError::Serialization(_)),
            Some(JsonValue::Array(a)) => res matches Ok(ws) && ws@.map_values(|w: WindowInfo| w@)
                == windows_from(a@),
            Some(_) => res matches Err(NiriToolsError::NiriCommand(m)) && m@
                == "expected array from niri msg windows"@,
        },
{
    match read_json(text) {
        Ok(JsonValue::Array(a)) => Ok(windows_of(&a)),
        Ok(_) => Err(NiriToolsError::NiriCommand("expected array from niri msg windows".to_owned())),
        Err(msg) => Err(NiriToolsError::Serialization(msg)),
    }
}

/// The workspaces of a `niri msg -j workspaces` reply: an array of workspace objects,
/// of which the readable ones are kept.
pub fn workspaces_from_reply(text: &str) -> (res: Result<Vec<WorkspaceInfo>, NiriToolsError>)
    ensures
        match serde_json_value(text@) {
            None => res matches Err(NiriToolsError::Serialization(_)),
            Some(JsonValue::Array(a)) => res matches Ok(ws) && ws@.map_values(
                |w: WorkspaceInfo| w@,
            ) == workspaces_from(a@),
            Some(_) => res matches Err(NiriToolsError::NiriCommand(m)) && m@
                == "expected array from niri msg workspaces"@,
        },
{
    match read_json(text) {
        Ok(JsonValue::Array(a)) => Ok(workspaces_of(&a)),
        Ok(_) => Err(
            NiriToolsError::NiriCommand("expected array from niri msg workspaces".to_owned()),
        ),
        Err(msg) => Err(NiriToolsError::Serialization(msg)),
    }
}

/// The outputs of a `niri msg -j outputs` reply: an object of output objects keyed by
/// output name.
pub fn outputs_from_reply(text: &str) -> (res: Result<StrMap<OutputInfo>, NiriToolsError>)
    ensures
        match serde_json_value(text@) {
            None => res matches Err(NiriToolsError::Serialization(_)),
            Some(JsonValue::Object(es)) => res matches Ok(m) && m@.map_values(
                |o: OutputInfo| o@,
            ) == outputs_from(es@),
            Some(_) => res matches Err(NiriToolsError::NiriCommand(m)) && m@
                == "expected object from niri msg outputs"@,
        },
{
    match read_json(text) {
        Ok(JsonValue::Object(es)) => Ok(outputs_of(&es)),
        Ok(_) => Err(NiriToolsError::NiriCommand("expected object from niri msg outputs".to_owned())),
        Err(msg) => Err(NiriToolsError::Serialization(msg)),
    }
}

/// The focused output's name from a `niri msg -j focused-output` reply.
pub fn focused_output_from_reply(text: &str) -> (res: Result<String, NiriToolsError>)
    ensures
        match serde_json_value(text@) {
            None => res matches Err(NiriToolsError::Serialization(_)),
            Some(v) => match opt_str(json_get(v, "name"@)) {
                Some(n) => res matches Ok(s) && s@ == n,
                None => res matches Err(NiriToolsError::NiriCommand(m)) && m@
                    == "missing 'name' field in focused-output response"@,
            },
        },
{
    match read_json(text) {
        Ok(v) => match v.get("name") {
            Some(n) => match n.as_str() {
                Some(s) => Ok(s.to_owned()),
                None => Err(
                    NiriToolsError::NiriCommand(
                        "missing 'name' field in focused-output response".to_owned(),
                    ),
                ),
            },
            None => Err(
                NiriToolsError::NiriCommand(
                    "missing 'name' field in focused-output response".to_owned(),
                ),
            ),
        },
        Err(msg) => Err(NiriToolsError::Serialization(msg)),
    }
}

/// Every niri event keeps the scratchpad bookkeeping consistent: each registered
/// window's scratchpad names it as its window, and each scratchpad's window is
/// registered to it.
pub proof fn law_events_keep_ownership(
    before: DaemonState,
    after: DaemonState,
    event: NiriEvent,
    action: EventAction,
)
    requires
        before.ownership_consistent(),
        event_applied(before, after, event, action),
    ensures
        after.ownership_consistent(),
{
    match event {
        NiriEvent::WindowClosed { id } => {
            assert forall|x: u64| #[trigger] after.owners().contains_key(x) implies after.scratchpads@.contains_key(
                after.owners()[x],
            ) && after.scratchpads@[after.owners()[x]].window_id == Some(x) by {
                let n = before.owners()[x];
                assert(before.scratchpads@[n].window_id == Some(x));
                if before.owners().contains_key(id) {
                    let m = before.owners()[id];
                    assert(before.scratchpads@[m].window_id == Some(id));
                }
            }
            assert forall|n: Seq<char>| #[trigger]
                after.scratchpads@.contains_key(n) && after.scratchpads@[n].window_id is Some
                    implies after.owners().contains_key(after.scratchpads@[n].window_id->0)
                    && after.owners()[after.scratchpads@[n].window_id->0] == n by {
                let x = before.scratchpads@[n].window_id->0;
                assert(before.owners()[x] == n);
            }
        },
        NiriEvent::WindowFocusChanged { id } => {
            assert forall|x: u64| #[trigger] after.owners().contains_key(x) implies after.scratchpads@.contains_key(
                after.owners()[x],
            ) && after.scratchpads@[after.owners()[x]].window_id == Some(x) by {
                let n = before.owners()[x];
                assert(before.scratchpads@.contains_key(n));
                assert(after.scratchpads@[n].window_id == before.scratchpads@[n].window_id);
            }
            assert forall|n: Seq<char>| #[trigger]
                after.scratchpads@.contains_key(n) && after.scratchpads@[n].window_id is Some
                    implies after.owners().contains_key(after.scratchpads@[n].window_id->0)
                    && after.owners()[after.scratchpads@[n].window_id->0] == n by {
                assert(before.scratchpads@.contains_key(n));
                assert(after.scratchpads@[n].window_id == before.scratchpads@[n].window_id);
            }
        },
        _ => {},
    }
}

/// A window object's fields are read as niri gives them: the numeric `id`; `app_id`
/// and `title` as strings, empty when missing; a numeric `workspace_id`; `is_focused`
/// and `is_floating` each true exactly when the member is the boolean `true`; the size
/// from `layout.window_size` when there is a `layout`. An object without a numeric
/// `id` is no window.
pub proof fn law_window_fields(data: JsonValue)
    ensures
        (window_from(data) is Some) == (json_get(data, "id"@) matches Some(JsonValue::UInt(_))),
        window_from(data) matches Some(w) ==> {
            &&& json_get(data, "id"@) == Some(JsonValue::UInt(w.id))
            &&& w.is_floating == (json_get(data, "is_floating"@) == Some(JsonValue::Bool(true)))
            &&& w.is_focused == (json_get(data, "is_focused"@) == Some(JsonValue::Bool(true)))
            &&& match json_get(data, "workspace_id"@) {
                Some(JsonValue::UInt(n)) => w.workspace_id == Some(n),
                _ => w.workspace_id is None,
            }
            &&& match json_get(data, "app_id"@) {
                Some(JsonValue::Str(t)) => w.app_id == t@,
                _ => w.app_id == Seq::<char>::empty(),
            }
            &&& match json_get(data, "title"@) {
                Some(JsonValue::Str(t)) => w.title == t@,
                _ => w.title == Seq::<char>::empty(),
            }
            &&& json_get(data, "layout"@) matches Some(l) ==> match json_get(l, "window_size"@) {
                Some(JsonValue::Array(a)) => {
                    &&& a@.len() > 0 ==> (a@[0] matches JsonValue::UInt(x) ==> w.width == x as u32)
                    &&& a@.len() > 1 ==> (a@[1] matches JsonValue::UInt(y) ==> w.height == y as u32)
                },
                _ => w.width == 0 && w.height == 0,
            }
        },
{
}

/// A workspace object's fields are read as niri gives them: the numeric `id`, `idx`
/// (0 when missing), `output` (empty when missing), `is_active` true exactly when the
/// member is the boolean `true`, and the optional `name`. An object without a numeric
/// `id` is no workspace.
pub proof fn law_workspace_fields(data: JsonValue)
    ensures
        (workspace_from(data) is Some) == (json_get(data, "id"@) matches Some(JsonValue::UInt(_))),
        workspace_from(data) matches Some(ws) ==> {
            &&& json_get(data, "id"@) == Some(JsonValue::UInt(ws.id))
            &&& ws.is_active == (json_get(data, "is_active"@) == Some(JsonValue::Bool(true)))
            &&& match json_get(data, "idx"@) {
                Some(JsonValue::UInt(n)) => ws.idx == n as u32,
                _ => ws.idx == 0,
            }
            &&& match json_get(data, "output"@) {
                Some(JsonValue::Str(t)) => ws.output == t@,
                _ => ws.output == Seq::<char>::empty(),
            }
            &&& match json_get(data, "name"@) {
                Some(JsonValue::Str(t)) => ws.name == Some(t@),
                _ => ws.name is None,
            }
        },
{
}

/// A focus change makes the named window the one focused window (no window is focused
/// when it names none), keeps the set of windows, and remembers the window that had
/// the focus before, when it was another one, as the previous one.
pub proof fn law_focus_change(before: DaemonState, after: DaemonState, id: Option<u64>, action: EventAction)
    requires
        event_applied(before, after, NiriEvent::WindowFocusChanged { id }, action),
    ensures
        after.focused_window_id == id,
        after.windows@.dom() == before.windows@.dom(),
        forall|k: u64| #[trigger]
            after.windows@.contains_key(k) ==> (after.windows@[k].is_focused <==> id == Some(k)),
        (before.focused_window_id is Some && before.focused_window_id != id)
            ==> after.previous_focused_window_id == before.focused_window_id,
{
}

/// A closed window is forgotten: niri's window list and the owner map lose it, no
/// scratchpad keeps it as its window, and a scratchpad that owned it is left hidden and
/// without a window, and the state is saved.
pub proof fn law_window_closed_forgotten(before: DaemonState, after: DaemonState, id: u64, action: EventAction)
    requires
        before.ownership_consistent(),
        event_applied(before, after, NiriEvent::WindowClosed { id }, action),
    ensures
        !after.windows@.contains_key(id),
        !after.owners().contains_key(id),
        forall|n: Seq<char>| #[trigger]
            after.scratchpads@.contains_key(n) ==> after.scratchpads@[n].window_id != Some(id),
        before.owners().contains_key(id) ==> {
            let n = before.owners()[id];
            &&& after.scratchpads@.contains_key(n)
            &&& after.scratchpads@[n].window_id is None
            &&& !after.scratchpads@[n].visible
            &&& action == EventAction::SaveState
        },
{
    assert forall|n: Seq<char>| #[trigger]
        after.scratchpads@.contains_key(n) implies after.scratchpads@[n].window_id != Some(id) by {
        if !(before.owners().contains_key(id) && before.owners()[id] == n) {
            assert(after.scratchpads@[n] == before.scratchpads@[n]);
            if before.scratchpads@[n].window_id == Some(id) {
                assert(before.owners().contains_key(id));
            }
        }
    }
}

/// The one member of a one-member object is found under its key, and nothing else.
proof fn lemma_single_member(json: JsonValue, key: Seq<char>)
    requires
        json matches JsonValue::Object(es) && es@.len() == 1,
    ensures
        ({
            let es = json->Object_0@;
            json_get(json, key) == if es[0].0@ == key {
                Some(es[0].1)
            } else {
                None::<JsonValue>
            }
        }),
{
    lemma_first_where(json->Object_0@, key_is(key));
}

/// The event names of niri's stream are distinct.
proof fn lemma_event_names_differ()
    ensures
        "WindowClosed"@ != "WindowOpenedOrChanged"@,
        "WindowClosed"@ != "WindowsChanged"@,
        "WindowFocusChanged"@ != "WindowOpenedOrChanged"@,
        "WindowFocusChanged"@ != "WindowsChanged"@,
        "WindowFocusChanged"@ != "WindowClosed"@,
        "WorkspaceActivated"@ != "WindowOpenedOrChanged"@,
        "WorkspaceActivated"@ != "WindowsChanged"@,
        "WorkspaceActivated"@ != "WindowClosed"@,
        "WorkspaceActivated"@ != "WindowFocusChanged"@,
        "OutputFocusChanged"@ != "WindowOpenedOrChanged"@,
        "OutputFocusChanged"@ != "WindowsChanged"@,
        "OutputFocusChanged"@ != "WindowClosed"@,
        "OutputFocusChanged"@ != "WindowFocusChanged"@,
        "OutputFocusChanged"@ != "WorkspaceActivated"@,
        "OutputFocusChanged"@ != "WorkspacesChanged"@,
{
    reveal_strlit("WindowOpenedOrChanged");
    reveal_strlit("WindowsChanged");
    reveal_strlit("WindowClosed");
    reveal_strlit("WindowFocusChanged");
    reveal_strlit("WorkspaceActivated");
    reveal_strlit("WorkspacesChanged");
    reveal_strlit("OutputFocusChanged");
    assert("WindowOpenedOrChanged"@.len() == 21);
    assert("WindowsChanged"@.len() == 14);
    assert("WindowClosed"@.len() == 12);
    assert("WindowFocusChanged"@.len() == 18);
    assert("WorkspaceActivated"@.len() == 18);
    assert("WorkspacesChanged"@.len() == 17);
    assert("OutputFocusChanged"@.len() == 18);
    assert("WindowFocusChanged"@[1] != "WorkspaceActivated"@[1]);
    assert("WindowFocusChanged"@[0] != "OutputFocusChanged"@[0]);
    assert("WorkspaceActivated"@[0] != "OutputFocusChanged"@[0]);
}

/// A line that carries one event reads as that event, its payload field by field:
/// `WindowClosed` with the numeric `id` (no event without one); `WindowFocusChanged`
/// with the numeric `id`, or none; `WorkspaceActivated` with the numeric `id` (no event
/// without one) and `focused` true exactly when it is the boolean `true`;
/// `OutputFocusChanged` with the `output` string, or none.
pub proof fn law_single_event(json: JsonValue)
    requires
        json matches JsonValue::Object(es) && es@.len() == 1,
    ensures
        ({
            let k = json->Object_0@[0].0@;
            let data = json->Object_0@[0].1;
            let ev = event_from(json);
            let id = match json_get(data, "id"@) {
                Some(JsonValue::UInt(n)) => Some(n),
                _ => None::<u64>,
            };
            &&& k == "WindowClosed"@ ==> ev == match id {
                Some(n) => Some(EventView::WindowClosed { id: n }),
                None => None::<EventView>,
            }
            &&& k == "WindowFocusChanged"@ ==> ev == Some(EventView::WindowFocusChanged { id })
            &&& k == "WorkspaceActivated"@ ==> ev == match id {
                Some(n) => Some(
                    EventView::WorkspaceActivated {
                        id: n,
                        focused: json_get(data, "focused"@) == Some(JsonValue::Bool(true)),
                    },
                ),
                None => None::<EventView>,
            }
            &&& k == "OutputFocusChanged"@ ==> ev == Some(
                EventView::OutputFocusChanged {
                    output: match json_get(data, "output"@) {
                        Some(JsonValue::Str(t)) => Some(t@),
                        _ => None::<Seq<char>>,
                    },
                },
            )
        }),
{
    lemma_event_names_differ();
    lemma_single_member(json, "WindowOpenedOrChanged"@);
    lemma_single_member(json, "WindowsChanged"@);
    lemma_single_member(json, "WindowClosed"@);
    lemma_single_member(json, "WindowFocusChanged"@);
    lemma_single_member(json, "WorkspaceActivated"@);
    lemma_single_member(json, "WorkspacesChanged"@);
    lemma_single_member(json, "OutputFocusChanged"@);
}

} // verus!
