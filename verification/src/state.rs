//! The daemon's picture of niri and of its scratchpads.
use vstd::prelude::*;
use std::collections::HashSet;
use crate::config::ScratchpadConfig;
use crate::idmap::IdMap;
use crate::seqs::{first_where, lemma_first_where_at, lemma_first_where_none};
use crate::strmap::{StrMap, StrSet};
use crate::numbers::{decimal_digits, fmt_u64, lemma_u64_text_roundtrip, parse_u64, std_parse_u64};
use crate::text::{chars_of, str_eq};
use crate::types::{OutputInfo, WindowInfo, WorkspaceInfo};

verus! {

broadcast use vstd::std_specs::hash::group_hash_axioms;

/// Name of the workspace where hidden scratchpad windows are parked.
pub const SCRATCHPAD_WORKSPACE: &'static str = "\u{f0ab7}";

/// The characters of [`SCRATCHPAD_WORKSPACE`].
pub open spec fn scratchpad_workspace_name() -> Seq<char> {
    seq!['\u{f0ab7}']
}

/// What the daemon knows of one scratchpad.
#[derive(Debug, Clone, Copy, PartialEq, Eq, Structural)]
pub struct ScratchpadState {
    /// The window that belongs to it, once one was adopted or spawned.
    pub window_id: Option<u64>,
    /// Shown on a regular workspace (as opposed to parked).
    pub visible: bool,
    /// When it was last used, in microseconds since the Unix epoch.
    pub last_used: u64,
}

impl Default for ScratchpadState {
    fn default() -> (res: Self)
        ensures
            res.window_id is None,
            !res.visible,
            res.last_used == 0,
    {
        ScratchpadState { window_id: None, visible: false, last_used: 0 }
    }
}

/// The daemon's state: niri's windows, workspaces and outputs as last reported, and
/// which windows belong to which scratchpads.
pub struct DaemonState {
    pub windows: IdMap<WindowInfo>,
    pub workspaces: IdMap<WorkspaceInfo>,
    pub outputs: StrMap<OutputInfo>,
    pub focused_output: Option<String>,
    pub focused_window_id: Option<u64>,
    pub previous_focused_window_id: Option<u64>,
    pub scratchpads: StrMap<ScratchpadState>,
    /// Scratchpads whose command was spawned and whose window has not appeared yet.
    pub pending_spawns: StrSet,
    pub window_to_scratchpad: IdMap<String>,
    pub scratchpad_configs: StrMap<ScratchpadConfig>,
    pub config_files: StrSet,
    pub watch_config: bool,
}

impl Default for DaemonState {
    fn default() -> (res: Self)
        ensures
            res.windows@ == Map::<u64, WindowInfo>::empty(),
            res.workspaces@ == Map::<u64, WorkspaceInfo>::empty(),
            res.outputs@ == Map::<Seq<char>, OutputInfo>::empty(),
            res.focused_output is None,
            res.focused_window_id is None,
            res.previous_focused_window_id is None,
            res.scratchpads@ == Map::<Seq<char>, ScratchpadState>::empty(),
            res.pending_spawns@ == Set::<Seq<char>>::empty(),
            res.owners() == Map::<u64, Seq<char>>::empty(),
            res.scratchpad_configs@ == Map::<Seq<char>, ScratchpadConfig>::empty(),
            res.config_files@ == Set::<Seq<char>>::empty(),
            !res.watch_config,
    {
        let res = DaemonState {
            windows: IdMap::new(),
            workspaces: IdMap::new(),
            outputs: StrMap::new(),
            focused_output: None,
            focused_window_id: None,
            previous_focused_window_id: None,
            scratchpads: StrMap::new(),
            pending_spawns: StrSet::new(),
            window_to_scratchpad: IdMap::new(),
            scratchpad_configs: StrMap::new(),
            config_files: StrSet::new(),
            watch_config: false,
        };
        assert(res.owners() =~= Map::<u64, Seq<char>>::empty());
        res
    }
}

/// Microseconds since the Unix epoch by `std::time::SystemTime::now` (0 for a clock
/// set before the epoch). Nothing is promised of the value: it is the clock's.
#[verifier::external_body]
fn now_timestamp() -> (res: u64) {
    std::time::SystemTime::now().duration_since(std::time::UNIX_EPOCH).unwrap_or_default().as_micros()
        as u64
}

/// Active workspaces on output `output`.
pub open spec fn active_on(output: Seq<char>) -> spec_fn(WorkspaceInfo) -> bool {
    |ws: WorkspaceInfo| ws.output@ == output && ws.is_active
}

/// Scratchpads that have a window, and (with `hidden_only`) are parked.
pub open spec fn eligible(sp: ScratchpadState, hidden_only: bool) -> bool {
    sp.window_id is Some && (hidden_only ==> !sp.visible)
}

/// `i` is the entry that `Iterator::max_by` on `last_used` picks among the eligible
/// entries of `vals`: eligible, no eligible entry more recent, and every later
/// eligible entry strictly older (on ties the last one wins).
pub open spec fn is_latest(vals: Seq<ScratchpadState>, hidden_only: bool, i: int) -> bool {
    &&& 0 <= i < vals.len()
    &&& eligible(vals[i], hidden_only)
    &&& forall|j: int|
        0 <= j < vals.len() && eligible(#[trigger] vals[j], hidden_only) ==> vals[j].last_used
            <= vals[i].last_used
    &&& forall|j: int|
        i < j < vals.len() && eligible(#[trigger] vals[j], hidden_only) ==> vals[j].last_used
            < vals[i].last_used
}

/// What the state file holds: the niri session it was written in, the state of each
/// scratchpad, and the owner of each window, keyed by the window id in decimal.
pub struct PersistedState {
    pub niri_session: String,
    pub scratchpads: Vec<(String, ScratchpadState)>,
    pub window_to_scratchpad: Vec<(String, String)>,
}

/// `m` with the scratchpad entries `es` stored in order (a later entry wins).
pub open spec fn apply_scratchpad_entries(
    m: Map<Seq<char>, ScratchpadState>,
    es: Seq<(String, ScratchpadState)>,
) -> Map<Seq<char>, ScratchpadState>
    decreases es.len(),
{
    if es.len() == 0 {
        m
    } else {
        apply_scratchpad_entries(m, es.drop_last()).insert(es.last().0@, es.last().1)
    }
}

/// `m` with the ownership entries `es` stored in order; an entry whose key does not
/// read as a `u64` (see [`std_parse_u64`]) is skipped.
pub open spec fn apply_owner_entries(m: Map<u64, Seq<char>>, es: Seq<(String, String)>) -> Map<
    u64,
    Seq<char>,
>
    decreases es.len(),
{
    if es.len() == 0 {
        m
    } else {
        let m1 = apply_owner_entries(m, es.drop_last());
        match std_parse_u64(es.last().0@) {
            Some(w) => m1.insert(w, es.last().1@),
            None => m1,
        }
    }
}

/// `p` is what [`DaemonState::to_persisted`] writes for `s` in session `session`:
/// every scratchpad in entry order, and every owned window with its id in decimal.
pub open spec fn persisted_from(s: DaemonState, session: Seq<char>, p: PersistedState) -> bool {
    &&& p.niri_session@ == session
    &&& p.scratchpads@.len() == s.scratchpads.key_seq().len()
    &&& forall|i: int|
        0 <= i < p.scratchpads@.len() ==> (#[trigger] p.scratchpads@[i]).0@
            == s.scratchpads.key_seq()[i] && p.scratchpads@[i].1 == s.scratchpads.val_seq()[i]
    &&& p.window_to_scratchpad@.len() == s.window_to_scratchpad.key_seq().len()
    &&& forall|i: int|
        0 <= i < p.window_to_scratchpad@.len() ==> (#[trigger] p.window_to_scratchpad@[i]).0@
            == decimal_digits(s.window_to_scratchpad.key_seq()[i] as nat)
            && p.window_to_scratchpad@[i].1@ == s.owners()[s.window_to_scratchpad.key_seq()[i]]
}

/// `after` is `before` restored from `p` when `p` belongs to session `current`
/// (`loaded`), and `before` itself otherwise.
pub open spec fn restored(
    before: DaemonState,
    after: DaemonState,
    p: PersistedState,
    current: Seq<char>,
    loaded: bool,
) -> bool {
    &&& loaded == (p.niri_session@ == current)
    &&& after.same_niri_view(&before)
    &&& loaded ==> after.scratchpads@ == apply_scratchpad_entries(before.scratchpads@, p.scratchpads@)
    &&& loaded ==> after.owners() == apply_owner_entries(before.owners(), p.window_to_scratchpad@)
    &&& !loaded ==> after.scratchpads@ == before.scratchpads@ && after.owners() == before.owners()
}

impl DaemonState {
    /// Which scratchpad each registered window belongs to.
    pub open spec fn owners(&self) -> Map<u64, Seq<char>> {
        self.window_to_scratchpad@.map_values(|s: String| s@)
    }

    /// The window's workspace is known and is the scratchpad workspace.
    pub open spec fn parked(&self, window: WindowInfo) -> bool {
        match window.workspace_id {
            Some(id) => self.workspaces@.contains_key(id) && match self.workspaces@[id].name {
                Some(n) => n@ == scratchpad_workspace_name(),
                None => false,
            },
            None => false,
        }
    }

    /// The scratchpad that owns window `w`.
    pub open spec fn owner_of(&self, w: u64) -> Option<Seq<char>> {
        if self.owners().contains_key(w) {
            Some(self.owners()[w])
        } else {
            None
        }
    }

    /// Everything but the scratchpad bookkeeping (`scratchpads`,
    /// `window_to_scratchpad`) is the same in `self` and `other`.
    pub open spec fn same_niri_view(&self, other: &DaemonState) -> bool {
        &&& self.windows@ == other.windows@
        &&& self.workspaces@ == other.workspaces@
        &&& self.outputs@ == other.outputs@
        &&& self.focused_output == other.focused_output
        &&& self.focused_window_id == other.focused_window_id
        &&& self.previous_focused_window_id == other.previous_focused_window_id
        &&& self.pending_spawns@ == other.pending_spawns@
        &&& self.scratchpad_configs@ == other.scratchpad_configs@
        &&& self.config_files@ == other.config_files@
        &&& self.watch_config == other.watch_config
    }

    /// The two directions of scratchpad ownership agree: a window mapped to a
    /// scratchpad is that scratchpad's window, and a scratchpad's window is mapped back
    /// to it.
    pub open spec fn ownership_consistent(&self) -> bool {
        &&& forall|w: u64| #[trigger]
            self.owners().contains_key(w) ==> self.scratchpads@.contains_key(self.owners()[w])
                && self.scratchpads@[self.owners()[w]].window_id == Some(w)
        &&& forall|n: Seq<char>| #[trigger]
            self.scratchpads@.contains_key(n) && self.scratchpads@[n].window_id is Some
                ==> self.owners().contains_key(self.scratchpads@[n].window_id->0)
                && self.owners()[self.scratchpads@[n].window_id->0] == n
    }

    /// The owner map once scratchpad `name` lets go of its current window.
    pub open spec fn owners_without_window_of(&self, name: Seq<char>) -> Map<u64, Seq<char>> {
        if self.scratchpads@.contains_key(name) && self.scratchpads@[name].window_id is Some {
            self.owners().remove(self.scratchpads@[name].window_id->0)
        } else {
            self.owners()
        }
    }

    /// The active workspace of the given output: the first in entry order, when
    /// several claim to be active.
    pub fn get_active_workspace_for_output(&self, output: &str) -> (res: Option<&WorkspaceInfo>)
        ensures
            match first_where(self.workspaces.val_seq(), active_on(output@)) {
                Some(i) => res == Some(&self.workspaces.val_seq()[i]),
                None => res is None,
            },
    {
        proof {
            use_type_invariant(&self.workspaces);
            self.workspaces.lemma_entries();
        }
        let n = self.workspaces.len();
        let mut i: usize = 0;
        while i < n
            invariant
                n == self.workspaces.key_seq().len(),
                n == self.workspaces.val_seq().len(),
                i <= n,
                forall|j: int| 0 <= j < i ==> !active_on(output@)(#[trigger] self.workspaces.val_seq()[j]),
            decreases n - i,
        {
            let ws = self.workspaces.value_at(i);
            if ws.is_active && str_eq(ws.output.as_str(), output) {
                proof {
                    lemma_first_where_at(self.workspaces.val_seq(), active_on(output@), i as int);
                }
                return Some(ws);
            }
            i = i + 1;
        }
        proof {
            lemma_first_where_none(self.workspaces.val_seq(), active_on(output@));
        }
        None
    }

    /// The active workspace of the focused output.
    pub fn get_focused_workspace(&self) -> (res: Option<&WorkspaceInfo>)
        ensures
            match self.focused_output {
                None => res is None,
                Some(o) => match first_where(self.workspaces.val_seq(), active_on(o@)) {
                    Some(i) => res == Some(&self.workspaces.val_seq()[i]),
                    None => res is None,
                },
            },
    {
        match &self.focused_output {
            None => None,
            Some(o) => self.get_active_workspace_for_output(o.as_str()),
        }
    }

    /// Whether the window sits on the scratchpad workspace.
    pub fn is_on_scratchpad_workspace(&self, window: &WindowInfo) -> (res: bool)
        ensures
            res == self.parked(*window),
    {
        let ws_id = match window.workspace_id {
            Some(id) => id,
            None => return false,
        };
        let ws = match self.workspaces.get(&ws_id) {
            Some(ws) => ws,
            None => return false,
        };
        match &ws.name {
            Some(n) => {
                let cs = chars_of(n.as_str());
                let r = cs.len() == 1 && cs[0] == '\u{f0ab7}';
                proof {
                    if r {
                        assert(cs@ =~= scratchpad_workspace_name());
                    }
                }
                r
            },
            None => false,
        }
    }

    /// The scratchpad that owns a window.
    pub fn get_scratchpad_for_window(&self, window_id: u64) -> (res: Option<&str>)
        ensures
            match res {
                Some(n) => self.owners().contains_key(window_id) && n@ == self.owners()[window_id],
                None => !self.owners().contains_key(window_id),
            },
    {
        match self.window_to_scratchpad.get(&window_id) {
            Some(s) => Some(s.as_str()),
            None => None,
        }
    }

    /// Makes `window_id` the window of scratchpad `name` (creating its state when
    /// needed) and stamps it as just used. A window it owned before is released.
    pub fn register_scratchpad_window(&mut self, name: &str, window_id: u64)
        ensures
            registered(*old(self), *final(self), name@, window_id),
    {
        let old_sp: Option<ScratchpadState> = match self.scratchpads.get(name) {
            Some(sp) => Some(*sp),
            None => None,
        };
        if let Some(sp) = old_sp {
            if let Some(old_id) = sp.window_id {
                let _ = self.window_to_scratchpad.remove(&old_id);
            }
        }
        let visible = match old_sp {
            Some(sp) => sp.visible,
            None => false,
        };
        let now = now_timestamp();
        let new_sp = ScratchpadState { window_id: Some(window_id), visible, last_used: now };
        self.scratchpads.insert(name.to_owned(), new_sp);
        self.window_to_scratchpad.insert(window_id, name.to_owned());
        assert(self.owners() =~= old(self).owners_without_window_of(name@).insert(window_id, name@));
    }

    /// Stops tracking a window: it loses its owner, and the owner (when it has a
    /// state) has no window and is not visible.
    pub fn unregister_scratchpad_window(&mut self, window_id: u64)
        ensures
            unregistered(*old(self), *final(self), window_id),
    {
        let removed = self.window_to_scratchpad.remove(&window_id);
        assert(self.owners() =~= old(self).owners().remove(window_id));
        if let Some(name) = removed {
            let cur: Option<ScratchpadState> = match self.scratchpads.get(name.as_str()) {
                Some(sp) => Some(*sp),
                None => None,
            };
            if let Some(sp) = cur {
                let new_sp = ScratchpadState {
                    window_id: None,
                    visible: false,
                    last_used: sp.last_used,
                };
                self.scratchpads.insert(name, new_sp);
            }
        }
    }

    /// Sets the visibility of scratchpad `name`, when it has a state, and stamps it
    /// as just used.
    fn set_visibility(&mut self, name: &str, visible: bool)
        ensures
            visibility_set(*old(self), *final(self), name@, visible),
    {
        let cur: Option<ScratchpadState> = match self.scratchpads.get(name) {
            Some(sp) => Some(*sp),
            None => None,
        };
        if let Some(sp) = cur {
            let now = now_timestamp();
            let new_sp = ScratchpadState { window_id: sp.window_id, visible, last_used: now };
            self.scratchpads.insert(name.to_owned(), new_sp);
        }
    }

    /// Marks a scratchpad visible and stamps it as just used.
    pub fn mark_scratchpad_visible(&mut self, name: &str)
        ensures
            visibility_set(*old(self), *final(self), name@, true),
    {
        self.set_visibility(name, true)
    }

    /// Marks a scratchpad hidden and stamps it as just used.
    pub fn mark_scratchpad_hidden(&mut self, name: &str)
        ensures
            visibility_set(*old(self), *final(self), name@, false),
    {
        self.set_visibility(name, false)
    }

    /// Stamps the scratchpad that owns `window_id` as just used; does nothing for
    /// other windows. The stamp is the clock's reading (see
    /// [`DaemonState::stamp_scratchpad_for_window`]), of which nothing is promised.
    pub fn update_scratchpad_recency(&mut self, window_id: u64)
        ensures
            final(self).same_niri_view(&*old(self)),
            final(self).owners() == old(self).owners(),
            restamped(old(self).scratchpads@, final(self).scratchpads@, old(self).owner_of(window_id)),
    {
        let now = now_timestamp();
        self.stamp_scratchpad_for_window(window_id, now);
        assert(self.scratchpads@.dom() =~= old(self).scratchpads@.dom());
    }

    /// Sets the `last_used` of the scratchpad that owns `window_id` to `now`; does
    /// nothing for other windows.
    pub fn stamp_scratchpad_for_window(&mut self, window_id: u64, now: u64)
        ensures
            final(self).same_niri_view(&*old(self)),
            final(self).owners() == old(self).owners(),
            final(self).scratchpads@ == stamped(old(self).scratchpads@, old(self).owner_of(window_id), now),
    {
        let owner: Option<String> = match self.window_to_scratchpad.get(&window_id) {
            Some(s) => Some(s.clone()),
            None => None,
        };
        if let Some(name) = owner {
            assert(old(self).owner_of(window_id) == Some(name@));
            let cur: Option<ScratchpadState> = match self.scratchpads.get(name.as_str()) {
                Some(sp) => Some(*sp),
                None => None,
            };
            if let Some(sp) = cur {
                let new_sp = ScratchpadState {
                    window_id: sp.window_id,
                    visible: sp.visible,
                    last_used: now,
                };
                self.scratchpads.insert(name, new_sp);
            }
        }
    }

    /// Index of the most recently used eligible scratchpad (see [`is_latest`]).
    pub fn latest_entry(&self, hidden_only: bool) -> (res: Option<usize>)
        ensures
            match res {
                Some(i) => is_latest(self.scratchpads.val_seq(), hidden_only, i as int),
                None => forall|j: int|
                    0 <= j < self.scratchpads.val_seq().len() ==> !eligible(
                        #[trigger] self.scratchpads.val_seq()[j],
                        hidden_only,
                    ),
            },
            res matches Some(i) ==> i < self.scratchpads.key_seq().len(),
    {
        proof {
            use_type_invariant(&self.scratchpads);
            self.scratchpads.lemma_entries();
        }
        let ghost vals = self.scratchpads.val_seq();
        let n = self.scratchpads.len();
        let mut best: Option<usize> = None;
        let mut i: usize = 0;
        while i < n
            invariant
                vals == self.scratchpads.val_seq(),
                n == vals.len(),
                n == self.scratchpads.key_seq().len(),
                i <= n,
                match best {
                    Some(b) => {
                        &&& b < i
                        &&& eligible(vals[b as int], hidden_only)
                        &&& forall|j: int|
                            0 <= j < i && eligible(#[trigger] vals[j], hidden_only)
                                ==> vals[j].last_used <= vals[b as int].last_used
                        &&& forall|j: int|
                            b < j < i && eligible(#[trigger] vals[j], hidden_only)
                                ==> vals[j].last_used < vals[b as int].last_used
                    },
                    None => forall|j: int| 0 <= j < i ==> !eligible(#[trigger] vals[j], hidden_only),
                },
            decreases n - i,
        {
            let sp = self.scratchpads.value_at(i);
            if sp.window_id.is_some() && (!hidden_only || !sp.visible) {
                match best {
                    None => {
                        best = Some(i);
                    },
                    Some(b) => {
                        let cur = self.scratchpads.value_at(b);
                        if cur.last_used <= sp.last_used {
                            best = Some(i);
                        }
                    },
                }
            }
            i = i + 1;
        }
        best
    }

    /// The most recently used scratchpad that has a window and is hidden (see
    /// [`is_latest`]).
    pub fn get_most_recent_hidden_scratchpad(&self) -> (res: Option<&str>)
        ensures
            match res {
                Some(n) => exists|i: int|
                    is_latest(self.scratchpads.val_seq(), true, i) && #[trigger] self.scratchpads.key_seq()[i]
                        == n@,
                None => forall|j: int|
                    0 <= j < self.scratchpads.val_seq().len() ==> !eligible(
                        #[trigger] self.scratchpads.val_seq()[j],
                        true,
                    ),
            },
    {
        match self.latest_entry(true) {
            Some(i) => {
                let k = self.scratchpads.key_at(i);
                assert(self.scratchpads.key_seq()[i as int] == k@);
                Some(k.as_str())
            },
            None => None,
        }
    }

    /// Drops the ownership of windows that are not in `window_ids` (see
    /// [`DaemonState::unregister_scratchpad_window`]).
    pub fn reconcile_with_windows(&mut self, window_ids: &HashSet<u64>)
        ensures
            reconciled(*old(self), *final(self), window_ids@),
    {
        proof {
            use_type_invariant(&self.window_to_scratchpad);
            self.window_to_scratchpad.lemma_entries();
        }
        let ghost keep = window_ids@;
        let ghost owners0 = old(self).owners();
        let n = self.window_to_scratchpad.len();
        let mut ks: Vec<u64> = Vec::new();
        let mut i: usize = 0;
        while i < n
            invariant
                n == self.window_to_scratchpad.key_seq().len(),
                i <= n,
                ks@ == self.window_to_scratchpad.key_seq().take(i as int),
            decreases n - i,
        {
            ks.push(self.window_to_scratchpad.key_at(i));
            assert(ks@ =~= self.window_to_scratchpad.key_seq().take(i + 1));
            i = i + 1;
        }
        assert(ks@ =~= self.window_to_scratchpad.key_seq());
        let mut k: usize = 0;
        while k < n
            invariant
                n == ks@.len(),
                k <= n,
                keep == window_ids@,
                owners0 == old(self).owners(),
                ks@.no_duplicates(),
                forall|j: int| 0 <= j < n ==> owners0.contains_key(#[trigger] ks@[j]),
                self.same_niri_view(&*old(self)),
                forall|x: u64| #[trigger]
                    self.owners().contains_key(x) <==> (owners0.contains_key(x) && !(ks@.take(
                        k as int,
                    ).contains(x) && !keep.contains(x))),
                forall|x: u64| #[trigger]
                    self.owners().contains_key(x) ==> self.owners()[x] == owners0[x],
                self.scratchpads@.dom() == old(self).scratchpads@.dom(),
                forall|nm: Seq<char>| #[trigger]
                    self.scratchpads@.contains_key(nm) ==> self.scratchpads@[nm] == (if releases(
                        owners0,
                        ks@.take(k as int),
                        keep,
                        nm,
                    ) {
                        (ScratchpadState {
                            window_id: None,
                            visible: false,
                            last_used: old(self).scratchpads@[nm].last_used,
                        })
                    } else {
                        old(self).scratchpads@[nm]
                    }),
            decreases n - k,
        {
            let w = ks[k];
            let ghost before = *self;
            let ghost t0 = ks@.take(k as int);
            let ghost t1 = ks@.take(k + 1);
            assert(t1 =~= t0.push(w));
            if !window_ids.contains(&w) {
                proof {
                    assert(!t0.contains(w)) by {
                        if t0.contains(w) {
                            let j = t0.index_of(w);
                            assert(ks@[j] == ks@[k as int]);
                        }
                    }
                    assert(before.owners().contains_key(w));
                }
                self.unregister_scratchpad_window(w);
                proof {
                    let nw = owners0[w];
                    assert forall|nm: Seq<char>| #[trigger]
                        self.scratchpads@.contains_key(nm) implies self.scratchpads@[nm] == (if releases(
                            owners0,
                            t1,
                            keep,
                            nm,
                        ) {
                            (ScratchpadState {
                                window_id: None,
                                visible: false,
                                last_used: old(self).scratchpads@[nm].last_used,
                            })
                        } else {
                            old(self).scratchpads@[nm]
                        }) by {
                        if nm == nw {
                            assert(t1[k as int] == w);
                            assert(releases(owners0, t1, keep, nm));
                        } else {
                            if releases(owners0, t1, keep, nm) {
                                let j = choose|j: int|
                                    0 <= j < t1.len() && !keep.contains(t1[j]) && owners0.contains_key(t1[j])
                                        && #[trigger] owners0[t1[j]] == nm;
                                assert(j < k);
                                assert(t0[j] == t1[j]);
                                assert(releases(owners0, t0, keep, nm));
                            }
                            if releases(owners0, t0, keep, nm) {
                                let j = choose|j: int|
                                    0 <= j < t0.len() && !keep.contains(t0[j]) && owners0.contains_key(t0[j])
                                        && #[trigger] owners0[t0[j]] == nm;
                                assert(t0[j] == t1[j]);
                                assert(releases(owners0, t1, keep, nm));
                            }
                        }
                    }
                    assert forall|x: u64| #[trigger]
                        self.owners().contains_key(x) <==> (owners0.contains_key(x) && !(t1.contains(x)
                            && !keep.contains(x))) by {
                        if t1.contains(x) && x != w {
                            let j = t1.index_of(x);
                            assert(t0[j] == x);
                        }
                        if t0.contains(x) {
                            let j = t0.index_of(x);
                            assert(t1[j] == x);
                        }
                        assert(t1[k as int] == w);
                    }
                }
            } else {
                proof {
                    assert forall|nm: Seq<char>|
                        releases(owners0, t1, keep, nm) == releases(owners0, t0, keep, nm) by {
                        if releases(owners0, t1, keep, nm) {
                            let j = choose|j: int|
                                0 <= j < t1.len() && !keep.contains(t1[j]) && owners0.contains_key(t1[j])
                                    && #[trigger] owners0[t1[j]] == nm;
                            assert(j < k);
                            assert(t0[j] == t1[j]);
                        }
                        if releases(owners0, t0, keep, nm) {
                            let j = choose|j: int|
                                0 <= j < t0.len() && !keep.contains(t0[j]) && owners0.contains_key(t0[j])
                                    && #[trigger] owners0[t0[j]] == nm;
                            assert(t0[j] == t1[j]);
                        }
                    }
                    assert forall|x: u64| #[trigger]
                        self.owners().contains_key(x) <==> (owners0.contains_key(x) && !(t1.contains(x)
                            && !keep.contains(x))) by {
                        if t1.contains(x) && x != w {
                            let j = t1.index_of(x);
                            assert(t0[j] == x);
                        }
                        if t0.contains(x) {
                            let j = t0.index_of(x);
                            assert(t1[j] == x);
                        }
                        assert(t1[k as int] == w);
                    }
                }
            }
            k = k + 1;
        }
        proof {
            assert(ks@.take(n as int) =~= ks@);
            assert(self.owners() =~= owners0.restrict(keep)) by {
                assert forall|x: u64| owners0.contains_key(x) && keep.contains(x) implies #[trigger] self.owners().contains_key(x) by {}
                assert forall|x: u64| #[trigger] self.owners().contains_key(x) implies keep.contains(x) by {
                    if !keep.contains(x) {
                        let j = old(self).window_to_scratchpad.key_seq().index_of(x);
                        assert(ks@[j] == x);
                    }
                }
            }
            assert forall|nm: Seq<char>|
                releases(owners0, ks@, keep, nm) == (exists|w: u64|
                    #[trigger] owners0.contains_key(w) && !keep.contains(w) && owners0[w] == nm) by {
                if exists|w: u64| #[trigger] owners0.contains_key(w) && !keep.contains(w) && owners0[w] == nm {
                    let w = choose|w: u64| #[trigger] owners0.contains_key(w) && !keep.contains(w) && owners0[w] == nm;
                    let j = old(self).window_to_scratchpad.key_seq().index_of(w);
                    assert(ks@[j] == w);
                }
                if releases(owners0, ks@, keep, nm) {
                    let j = choose|j: int|
                        0 <= j < ks@.len() && !keep.contains(ks@[j]) && owners0.contains_key(ks@[j])
                            && #[trigger] owners0[ks@[j]] == nm;
                    assert(owners0.contains_key(ks@[j]));
                }
            }
        }
    }

    /// The state file's contents for this state in session `session`.
    pub fn to_persisted(&self, session: &str) -> (res: PersistedState)
        ensures
            persisted_from(*self, session@, res),
    {
        proof {
            use_type_invariant(&self.scratchpads);
            use_type_invariant(&self.window_to_scratchpad);
            self.scratchpads.lemma_entries();
            self.window_to_scratchpad.lemma_entries();
        }
        let mut sps: Vec<(String, ScratchpadState)> = Vec::new();
        let n = self.scratchpads.len();
        let mut i: usize = 0;
        while i < n
            invariant
                n == self.scratchpads.key_seq().len(),
                n == self.scratchpads.val_seq().len(),
                i <= n,
                sps@.len() == i,
                forall|j: int|
                    0 <= j < i ==> (#[trigger] sps@[j]).0@ == self.scratchpads.key_seq()[j]
                        && sps@[j].1 == self.scratchpads.val_seq()[j],
            decreases n - i,
        {
            let k = self.scratchpads.key_at(i).clone();
            let v = *self.scratchpads.value_at(i);
            sps.push((k, v));
            i = i + 1;
        }
        let mut owners: Vec<(String, String)> = Vec::new();
        let m = self.window_to_scratchpad.len();
        let mut j: usize = 0;
        while j < m
            invariant
                m == self.window_to_scratchpad.key_seq().len(),
                m == self.window_to_scratchpad.val_seq().len(),
                j <= m,
                owners@.len() == j,
                forall|x: int|
                    0 <= x < j ==> (#[trigger] owners@[x]).0@ == decimal_digits(
                        self.window_to_scratchpad.key_seq()[x] as nat,
                    ) && owners@[x].1@ == self.owners()[self.window_to_scratchpad.key_seq()[x]],
            decreases m - j,
        {
            proof {
                use_type_invariant(&self.window_to_scratchpad);
                self.window_to_scratchpad.lemma_entries();
            }
            let w = self.window_to_scratchpad.key_at(j);
            let name = self.window_to_scratchpad.value_at(j).clone();
            assert(self.window_to_scratchpad@.contains_key(self.window_to_scratchpad.key_seq()[j as int]));
            assert(self.owners()[w] == self.window_to_scratchpad@[w]@);
            owners.push((fmt_u64(w), name));
            j = j + 1;
        }
        PersistedState {
            niri_session: session.to_owned(),
            scratchpads: sps,
            window_to_scratchpad: owners,
        }
    }

    /// Restores scratchpad state from a state file's contents, when they belong to the
    /// current niri session; returns whether they did.
    pub fn restore(&mut self, p: &PersistedState, current_session: &str) -> (res: bool)
        ensures
            restored(*old(self), *final(self), *p, current_session@, res),
    {
        if !str_eq(p.niri_session.as_str(), current_session) {
            return false;
        }
        let n = p.scratchpads.len();
        let mut i: usize = 0;
        while i < n
            invariant
                n == p.scratchpads@.len(),
                i <= n,
                self.same_niri_view(&*old(self)),
                self.owners() == old(self).owners(),
                self.scratchpads@ == apply_scratchpad_entries(
                    old(self).scratchpads@,
                    p.scratchpads@.take(i as int),
                ),
            decreases n - i,
        {
            let (k, v) = &p.scratchpads[i];
            self.scratchpads.insert(k.clone(), *v);
            assert(p.scratchpads@.take(i + 1).drop_last() =~= p.scratchpads@.take(i as int));
            i = i + 1;
        }
        assert(p.scratchpads@.take(n as int) =~= p.scratchpads@);
        let m = p.window_to_scratchpad.len();
        let mut j: usize = 0;
        while j < m
            invariant
                m == p.window_to_scratchpad@.len(),
                j <= m,
                self.same_niri_view(&*old(self)),
                self.scratchpads@ == apply_scratchpad_entries(old(self).scratchpads@, p.scratchpads@),
                self.owners() == apply_owner_entries(
                    old(self).owners(),
                    p.window_to_scratchpad@.take(j as int),
                ),
            decreases m - j,
        {
            let (k, name) = &p.window_to_scratchpad[j];
            let cs = chars_of(k.as_str());
            assert(p.window_to_scratchpad@.take(j + 1).drop_last() =~= p.window_to_scratchpad@.take(
                j as int,
            ));
            match parse_u64(&cs) {
                Some(w) => {
                    self.window_to_scratchpad.insert(w, name.clone());
                    assert(self.owners() =~= apply_owner_entries(
                        old(self).owners(),
                        p.window_to_scratchpad@.take(j + 1),
                    ));
                },
                None => {},
            }
            j = j + 1;
        }
        assert(p.window_to_scratchpad@.take(m as int) =~= p.window_to_scratchpad@);
        true
    }
}

/// `after` is `before` once window `w` became the window of scratchpad `name`
/// (created when missing, visibility kept, `last_used` freshly stamped) and the
/// window `name` had before was released.
pub open spec fn registered(before: DaemonState, after: DaemonState, name: Seq<char>, w: u64) -> bool {
    &&& after.same_niri_view(&before)
    &&& after.scratchpads@ == before.scratchpads@.insert(
        name,
        (ScratchpadState {
            window_id: Some(w),
            visible: before.scratchpads@.contains_key(name) && before.scratchpads@[name].visible,
            last_used: after.scratchpads@[name].last_used,
        }),
    )
    &&& after.owners() == before.owners_without_window_of(name).insert(w, name)
}

/// `after` is `before` once window `w` lost its owner, and the owner (when it has a
/// state) has no window and is not visible.
pub open spec fn unregistered(before: DaemonState, after: DaemonState, w: u64) -> bool {
    &&& after.same_niri_view(&before)
    &&& after.owners() == before.owners().remove(w)
    &&& after.scratchpads@ == released_scratchpads(before, w)
}

/// The scratchpad states once window `w` is unregistered: its owner (when it has a
/// state) has no window and is not visible.
pub open spec fn released_scratchpads(before: DaemonState, w: u64) -> Map<Seq<char>, ScratchpadState> {
    if before.owners().contains_key(w) && before.scratchpads@.contains_key(before.owners()[w]) {
        let n = before.owners()[w];
        before.scratchpads@.insert(
            n,
            (ScratchpadState {
                window_id: None,
                visible: false,
                last_used: before.scratchpads@[n].last_used,
            }),
        )
    } else {
        before.scratchpads@
    }
}

/// `m` with the `last_used` of scratchpad `owner` (when it has a state) set to `now`.
pub open spec fn stamped(
    m: Map<Seq<char>, ScratchpadState>,
    owner: Option<Seq<char>>,
    now: u64,
) -> Map<Seq<char>, ScratchpadState> {
    match owner {
        Some(n) => if m.contains_key(n) {
            m.insert(n, ScratchpadState { window_id: m[n].window_id, visible: m[n].visible, last_used: now })
        } else {
            m
        },
        None => m,
    }
}

/// `after` differs from `before` at most in the `last_used` of scratchpad `owner`.
pub open spec fn restamped(
    before: Map<Seq<char>, ScratchpadState>,
    after: Map<Seq<char>, ScratchpadState>,
    owner: Option<Seq<char>>,
) -> bool {
    &&& after.dom() == before.dom()
    &&& forall|n: Seq<char>| #[trigger]
        after.contains_key(n) ==> after[n].window_id == before[n].window_id && after[n].visible
            == before[n].visible && (owner != Some(n) ==> after[n] == before[n])
}


/// `after` is `before` with scratchpad `name` (when it has a state) set to the given
/// visibility and freshly stamped.
pub open spec fn visibility_set(before: DaemonState, after: DaemonState, name: Seq<char>, visible: bool) -> bool {
    &&& after.same_niri_view(&before)
    &&& after.owners() == before.owners()
    &&& after.scratchpads@ == (if before.scratchpads@.contains_key(name) {
        before.scratchpads@.insert(
            name,
            (ScratchpadState {
                window_id: before.scratchpads@[name].window_id,
                visible,
                last_used: after.scratchpads@[name].last_used,
            }),
        )
    } else {
        before.scratchpads@
    })
}

/// `after` is `before` once every window outside `keep` was unregistered.
pub open spec fn reconciled(before: DaemonState, after: DaemonState, keep: Set<u64>) -> bool {
    &&& after.same_niri_view(&before)
    &&& after.owners() == before.owners().restrict(keep)
    &&& after.scratchpads@.dom() == before.scratchpads@.dom()
    &&& forall|n: Seq<char>| #[trigger]
        after.scratchpads@.contains_key(n) ==> after.scratchpads@[n] == (if exists|w: u64|
            #[trigger] before.owners().contains_key(w) && !keep.contains(w) && before.owners()[w] == n {
            (ScratchpadState {
                window_id: None,
                visible: false,
                last_used: before.scratchpads@[n].last_used,
            })
        } else {
            before.scratchpads@[n]
        })
}

/// Some window of `ws` outside `keep` belongs to scratchpad `n` by `owners`.
pub open spec fn releases(owners: Map<u64, Seq<char>>, ws: Seq<u64>, keep: Set<u64>, n: Seq<char>) -> bool {
    exists|j: int|
        0 <= j < ws.len() && !keep.contains(ws[j]) && owners.contains_key(ws[j]) && #[trigger] owners[ws[j]]
            == n
}

/// Registering a window that no other scratchpad owns keeps ownership consistent;
/// afterwards the window belongs to `name` and `name` has that window.
pub proof fn law_register_keeps_ownership(
    before: DaemonState,
    after: DaemonState,
    name: Seq<char>,
    w: u64,
)
    requires
        before.ownership_consistent(),
        before.owners().contains_key(w) ==> before.owners()[w] == name,
        registered(before, after, name, w),
    ensures
        after.ownership_consistent(),
        after.owners().contains_key(w) && after.owners()[w] == name,
        after.scratchpads@[name].window_id == Some(w),
{
    assert forall|x: u64| #[trigger] after.owners().contains_key(x) implies after.scratchpads@.contains_key(
        after.owners()[x],
    ) && after.scratchpads@[after.owners()[x]].window_id == Some(x) by {
        if x != w {
            let n = before.owners()[x];
            assert(before.scratchpads@[n].window_id == Some(x));
            if n == name {
                assert(before.owners_without_window_of(name) == before.owners().remove(x));
            }
        }
    }
    assert forall|n: Seq<char>| #[trigger]
        after.scratchpads@.contains_key(n) && after.scratchpads@[n].window_id is Some
            implies after.owners().contains_key(after.scratchpads@[n].window_id->0)
            && after.owners()[after.scratchpads@[n].window_id->0] == n by {
        if n != name {
            let x = before.scratchpads@[n].window_id->0;
            assert(before.owners()[x] == n);
            if before.scratchpads@.contains_key(name) && before.scratchpads@[name].window_id is Some {
                let o = before.scratchpads@[name].window_id->0;
                assert(before.owners()[o] == name);
            }
        }
    }
}

/// Unregistering a window keeps ownership consistent.
pub proof fn law_unregister_keeps_ownership(before: DaemonState, after: DaemonState, w: u64)
    requires
        before.ownership_consistent(),
        unregistered(before, after, w),
    ensures
        after.ownership_consistent(),
        !after.owners().contains_key(w),
{
    assert forall|x: u64| #[trigger] after.owners().contains_key(x) implies after.scratchpads@.contains_key(
        after.owners()[x],
    ) && after.scratchpads@[after.owners()[x]].window_id == Some(x) by {
        let n = before.owners()[x];
        assert(before.scratchpads@[n].window_id == Some(x));
        if before.owners().contains_key(w) {
            let m = before.owners()[w];
            assert(before.scratchpads@[m].window_id == Some(w));
        }
    }
    assert forall|n: Seq<char>| #[trigger]
        after.scratchpads@.contains_key(n) && after.scratchpads@[n].window_id is Some
            implies after.owners().contains_key(after.scratchpads@[n].window_id->0)
            && after.owners()[after.scratchpads@[n].window_id->0] == n by {
        let x = before.scratchpads@[n].window_id->0;
        assert(before.owners()[x] == n);
    }
}

/// Changing a scratchpad's visibility keeps ownership consistent.
pub proof fn law_visibility_keeps_ownership(
    before: DaemonState,
    after: DaemonState,
    name: Seq<char>,
    visible: bool,
)
    requires
        before.ownership_consistent(),
        visibility_set(before, after, name, visible),
    ensures
        after.ownership_consistent(),
{
    assert forall|x: u64| #[trigger] after.owners().contains_key(x) implies after.scratchpads@.contains_key(
        after.owners()[x],
    ) && after.scratchpads@[after.owners()[x]].window_id == Some(x) by {
        let n = before.owners()[x];
        assert(before.scratchpads@[n].window_id == Some(x));
    }
    assert forall|n: Seq<char>| #[trigger]
        after.scratchpads@.contains_key(n) && after.scratchpads@[n].window_id is Some
            implies after.owners().contains_key(after.scratchpads@[n].window_id->0)
            && after.owners()[after.scratchpads@[n].window_id->0] == n by {
        let x = before.scratchpads@[n].window_id->0;
        assert(before.owners()[x] == n);
    }
}

/// Reconciling with the live windows keeps ownership consistent, and afterwards every
/// owned window is live.
pub proof fn law_reconcile_keeps_ownership(before: DaemonState, after: DaemonState, keep: Set<u64>)
    requires
        before.ownership_consistent(),
        reconciled(before, after, keep),
    ensures
        after.ownership_consistent(),
        forall|x: u64| #[trigger] after.owners().contains_key(x) ==> keep.contains(x),
{
    assert forall|x: u64| #[trigger] after.owners().contains_key(x) implies after.scratchpads@.contains_key(
        after.owners()[x],
    ) && after.scratchpads@[after.owners()[x]].window_id == Some(x) by {
        let n = before.owners()[x];
        assert(before.scratchpads@[n].window_id == Some(x));
        if exists|v: u64| #[trigger] before.owners().contains_key(v) && !keep.contains(v) && before.owners()[v] == n {
            let v = choose|v: u64| #[trigger] before.owners().contains_key(v) && !keep.contains(v) && before.owners()[v] == n;
            assert(before.scratchpads@[n].window_id == Some(v));
        }
    }
    assert forall|n: Seq<char>| #[trigger]
        after.scratchpads@.contains_key(n) && after.scratchpads@[n].window_id is Some
            implies after.owners().contains_key(after.scratchpads@[n].window_id->0)
            && after.owners()[after.scratchpads@[n].window_id->0] == n by {
        let x = before.scratchpads@[n].window_id->0;
        assert(before.owners()[x] == n);
        if !keep.contains(x) {
            assert(before.owners().contains_key(x) && !keep.contains(x) && before.owners()[x] == n);
        }
    }
}

/// Unregistering the window just registered for `name` undoes the ownership: the
/// window has no owner and `name` has no window and is not visible.
pub proof fn law_unregister_undoes_register(
    s0: DaemonState,
    s1: DaemonState,
    s2: DaemonState,
    name: Seq<char>,
    w: u64,
)
    requires
        registered(s0, s1, name, w),
        unregistered(s1, s2, w),
    ensures
        !s2.owners().contains_key(w),
        s2.owners() == s0.owners_without_window_of(name).remove(w),
        s2.scratchpads@.contains_key(name),
        s2.scratchpads@[name].window_id is None,
        !s2.scratchpads@[name].visible,
{
    assert(s2.owners() =~= s0.owners_without_window_of(name).remove(w));
}

proof fn lemma_apply_scratchpad_prefix(
    es: Seq<(String, ScratchpadState)>,
    ks: Seq<Seq<char>>,
    vs: Seq<ScratchpadState>,
    i: int,
)
    requires
        es.len() == ks.len(),
        es.len() == vs.len(),
        forall|j: int| 0 <= j < es.len() ==> (#[trigger] es[j]).0@ == ks[j] && es[j].1 == vs[j],
        ks.no_duplicates(),
        0 <= i <= es.len(),
    ensures
        forall|k: Seq<char>|
            #[trigger] apply_scratchpad_entries(Map::empty(), es.take(i)).contains_key(k)
                <==> ks.take(i).contains(k),
        forall|j: int|
            0 <= j < i ==> #[trigger] apply_scratchpad_entries(Map::empty(), es.take(i))[ks[j]]
                == vs[j],
    decreases i,
{
    if i > 0 {
        lemma_apply_scratchpad_prefix(es, ks, vs, i - 1);
        assert(es.take(i).drop_last() =~= es.take(i - 1));
        assert(es.take(i).last() == es[i - 1]);
        let prev = apply_scratchpad_entries(Map::empty(), es.take(i - 1));
        assert forall|k: Seq<char>|
            #[trigger] apply_scratchpad_entries(Map::empty(), es.take(i)).contains_key(k)
                <==> ks.take(i).contains(k) by {
            if ks.take(i).contains(k) && k != ks[i - 1] {
                let j = ks.take(i).index_of(k);
                assert(ks.take(i - 1)[j] == k);
            }
            if ks.take(i - 1).contains(k) {
                let j = ks.take(i - 1).index_of(k);
                assert(ks.take(i)[j] == k);
            }
            assert(ks.take(i)[i - 1] == ks[i - 1]);
        }
        assert forall|j: int|
            0 <= j < i implies #[trigger] apply_scratchpad_entries(Map::empty(), es.take(i))[ks[j]]
                == vs[j] by {
            if j < i - 1 {
                assert(ks[j] != ks[i - 1]);
            }
        }
    }
}

proof fn lemma_apply_owner_prefix(
    es: Seq<(String, String)>,
    ws: Seq<u64>,
    names: Seq<Seq<char>>,
    i: int,
)
    requires
        es.len() == ws.len(),
        es.len() == names.len(),
        forall|j: int|
            0 <= j < es.len() ==> (#[trigger] es[j]).0@ == decimal_digits(ws[j] as nat) && es[j].1@
                == names[j],
        ws.no_duplicates(),
        0 <= i <= es.len(),
    ensures
        forall|w: u64|
            #[trigger] apply_owner_entries(Map::empty(), es.take(i)).contains_key(w)
                <==> ws.take(i).contains(w),
        forall|j: int|
            0 <= j < i ==> #[trigger] apply_owner_entries(Map::empty(), es.take(i))[ws[j]]
                == names[j],
    decreases i,
{
    if i > 0 {
        lemma_apply_owner_prefix(es, ws, names, i - 1);
        assert(es.take(i).drop_last() =~= es.take(i - 1));
        assert(es.take(i).last() == es[i - 1]);
        lemma_u64_text_roundtrip(ws[i - 1]);
        assert(std_parse_u64(es[i - 1].0@) == Some(ws[i - 1]));
        assert(std_parse_u64(es.take(i).last().0@) == Some(ws[i - 1]));
        assert(es.take(i).last().1@ == names[i - 1]);
        assert(apply_owner_entries(Map::empty(), es.take(i)) == apply_owner_entries(
            Map::empty(),
            es.take(i - 1),
        ).insert(ws[i - 1], names[i - 1]));
        assert forall|w: u64|
            #[trigger] apply_owner_entries(Map::empty(), es.take(i)).contains_key(w)
                <==> ws.take(i).contains(w) by {
            if ws.take(i).contains(w) && w != ws[i - 1] {
                let j = ws.take(i).index_of(w);
                assert(ws.take(i - 1)[j] == w);
            }
            if ws.take(i - 1).contains(w) {
                let j = ws.take(i - 1).index_of(w);
                assert(ws.take(i)[j] == w);
            }
            assert(ws.take(i)[i - 1] == ws[i - 1]);
        }
        assert forall|j: int|
            0 <= j < i implies #[trigger] apply_owner_entries(Map::empty(), es.take(i))[ws[j]]
                == names[j] by {
            if j < i - 1 {
                assert(ws[j] != ws[i - 1]);
            }
        }
    }
}

/// Writing the state file and reading it back in the same niri session, into a state
/// without scratchpads, gives back every scratchpad's state and every window's owner.
pub proof fn law_state_file_roundtrip(
    s: DaemonState,
    session: Seq<char>,
    p: PersistedState,
    fresh: DaemonState,
    loaded: DaemonState,
    ok: bool,
)
    requires
        s.scratchpads.wf(),
        s.window_to_scratchpad.wf(),
        persisted_from(s, session, p),
        fresh.scratchpads@ == Map::<Seq<char>, ScratchpadState>::empty(),
        fresh.owners() == Map::<u64, Seq<char>>::empty(),
        restored(fresh, loaded, p, session, ok),
    ensures
        ok,
        loaded.scratchpads@ == s.scratchpads@,
        loaded.owners() == s.owners(),
{
    s.scratchpads.lemma_entries();
    s.window_to_scratchpad.lemma_entries();
    let ks = s.scratchpads.key_seq();
    let vs = s.scratchpads.val_seq();
    lemma_apply_scratchpad_prefix(p.scratchpads@, ks, vs, ks.len() as int);
    assert(p.scratchpads@.take(ks.len() as int) =~= p.scratchpads@);
    assert(ks.take(ks.len() as int) =~= ks);
    assert(loaded.scratchpads@ =~= s.scratchpads@) by {
        assert forall|k: Seq<char>| #[trigger] s.scratchpads@.contains_key(k) implies loaded.scratchpads@[k]
            == s.scratchpads@[k] by {
            let j = ks.index_of(k);
            assert(ks[j] == k);
        }
    }
    let ws = s.window_to_scratchpad.key_seq();
    let names = ws.map_values(|w: u64| s.owners()[w]);
    lemma_apply_owner_prefix(p.window_to_scratchpad@, ws, names, ws.len() as int);
    assert(p.window_to_scratchpad@.take(ws.len() as int) =~= p.window_to_scratchpad@);
    assert(ws.take(ws.len() as int) =~= ws);
    assert(loaded.owners() =~= s.owners()) by {
        assert forall|w: u64| #[trigger] s.owners().contains_key(w) implies loaded.owners()[w]
            == s.owners()[w] by {
            let j = ws.index_of(w);
            assert(ws[j] == w);
        }
        assert forall|w: u64| #[trigger] loaded.owners().contains_key(w) implies s.owners().contains_key(w) by {
            let j = ws.index_of(w);
            assert(ws[j] == w);
        }
    }
}

} // verus!
