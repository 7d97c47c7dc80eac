//! The scratchpad picker: a fuzzy-filtered list of scratchpads driven by the
//! keyboard.
use vstd::prelude::*;
use fuzzy_matcher::FuzzyMatcher;
use crate::config::opt_chars;
use crate::protocol::Command;
use crate::seqs::{first_where, lemma_first_where_at, lemma_first_where_none};
use crate::text::{chars_of, join, str_eq, string_of};

verus! {

/// How a scratchpad stands, as the picker shows it.
#[derive(Debug, Clone, Copy, PartialEq, Eq, Structural)]
pub enum PickerEntryState {
    Visible,
    Floating,
    Hidden,
    Unspawned,
}

/// One scratchpad in the picker.
#[derive(Debug, Clone, PartialEq, Eq)]
pub struct PickerEntry {
    pub name: String,
    /// Shortcut key (with the Super or Meta modifier).
    pub key: Option<String>,
    /// Name shown in place of `name`.
    pub desc: Option<String>,
    pub state: PickerEntryState,
}

/// The picker's state.
pub struct PickerState {
    pub entries: Vec<PickerEntry>,
    pub search_buffer: String,
    /// Position in `filtered_indices` of the highlighted row.
    pub selected_index: usize,
    /// Indices into `entries` of the rows shown, best match first.
    pub filtered_indices: Vec<usize>,
    /// Keycode whose release closes the picker, once a closing key was pressed.
    pub exit_on_key_release: Option<u32>,
}

/// The text an entry is shown and matched by: its description, else its name.
pub open spec fn display_name(e: PickerEntry) -> Seq<char> {
    match e.desc {
        Some(d) => d@,
        None => e.name@,
    }
}

/// What `fuzzy_matcher::skim::SkimMatcherV2::default().fuzzy_match(choice, pattern)`
/// gives: a score when every character of the pattern occurs in order in the choice.
pub uninterp spec fn skim_score(choice: Seq<char>, pattern: Seq<char>) -> Option<i64>;

/// Scores `choice` against `pattern` with `SkimMatcherV2::default().fuzzy_match`.
/// The contract only names the outcome (see [`skim_score`]).
#[verifier::external_body]
fn fuzzy_score(choice: &str, pattern: &str) -> (res: Option<i64>)
    ensures
        res == skim_score(choice@, pattern@),
{
    fuzzy_matcher::skim::SkimMatcherV2::default().fuzzy_match(choice, pattern)
}

/// The score of entry `i` against `search`.
pub open spec fn entry_score(entries: Seq<PickerEntry>, search: Seq<char>, i: int) -> Option<i64> {
    skim_score(display_name(entries[i]), search)
}

/// Row `i` goes before row `j`: a higher score, or the same score and an earlier
/// entry.
pub open spec fn ranks_before(si: i64, i: usize, sj: i64, j: usize) -> bool {
    si > sj || (si == sj && i < j)
}

/// `f` lists the rows for `search`: every entry when it is empty; else exactly the
/// entries that match it, best score first, ties in entry order.
pub open spec fn ranked(entries: Seq<PickerEntry>, search: Seq<char>, f: Seq<usize>) -> bool {
    if search.len() == 0 {
        f == Seq::new(entries.len(), |i: int| i as usize)
    } else {
        &&& f.no_duplicates()
        &&& forall|a: int|
            0 <= a < f.len() ==> (#[trigger] f[a]) < entries.len() && entry_score(
                entries,
                search,
                f[a] as int,
            ) is Some
        &&& forall|i: int|
            0 <= i < entries.len() && (#[trigger] entry_score(entries, search, i)) is Some
                ==> f.contains(i as usize)
        &&& forall|a: int, b: int|
            0 <= a < b < f.len() ==> ranks_before(
                entry_score(entries, search, f[a] as int)->0,
                #[trigger] f[a],
                entry_score(entries, search, f[b] as int)->0,
                #[trigger] f[b],
            )
    }
}

/// The selection kept within `len` rows (0 when there are none).
pub open spec fn clamp(sel: usize, len: nat) -> usize {
    if len == 0 {
        0
    } else if sel >= len {
        (len - 1) as usize
    } else {
        sel
    }
}

/// `after` shows the rows for its search (see [`ranked`]) with the selection of
/// `before` clamped to them; entries, search and pending exit are those of `before`
/// except for the search, which is `search`.
pub open spec fn refiltered(before: PickerState, after: PickerState, search: Seq<char>) -> bool {
    &&& after.entries@ == before.entries@
    &&& after.search_buffer@ == search
    &&& after.exit_on_key_release == before.exit_on_key_release
    &&& ranked(after.entries@, search, after.filtered_indices@)
    &&& after.selected_index == clamp(before.selected_index, after.filtered_indices@.len())
}

proof fn lemma_insert_sorted(out: Seq<(usize, i64)>, p: int, x: (usize, i64))
    requires
        0 <= p <= out.len(),
        forall|a: int, b: int|
            0 <= a < b < out.len() ==> ranks_before(#[trigger] out[a].1, out[a].0, #[trigger] out[b].1, out[b].0),
        forall|a: int| 0 <= a < out.len() ==> (#[trigger] out[a]).0 < x.0,
        forall|a: int| 0 <= a < p ==> (#[trigger] out[a]).1 >= x.1,
        p < out.len() ==> out[p].1 < x.1,
    ensures
        forall|a: int, b: int|
            0 <= a < b < out.insert(p, x).len() ==> ranks_before(
                #[trigger] out.insert(p, x)[a].1,
                out.insert(p, x)[a].0,
                #[trigger] out.insert(p, x)[b].1,
                out.insert(p, x)[b].0,
            ),
{
    let r = out.insert(p, x);
    assert forall|a: int, b: int| 0 <= a < b < r.len() implies ranks_before(
        #[trigger] r[a].1,
        r[a].0,
        #[trigger] r[b].1,
        r[b].0,
    ) by {
        if b < p {
            assert(r[a] == out[a] && r[b] == out[b]);
        } else if b == p {
            assert(r[a] == out[a]);
        } else if a < p {
            assert(r[a] == out[a] && r[b] == out[b - 1]);
            assert(out[p].1 <= out[p].1);
            if b - 1 > p {
                assert(ranks_before(out[p].1, out[p].0, out[b - 1].1, out[b - 1].0));
            }
        } else if a == p {
            assert(r[b] == out[b - 1]);
            if b - 1 > p {
                assert(ranks_before(out[p].1, out[p].0, out[b - 1].1, out[b - 1].0));
            }
        } else {
            assert(r[a] == out[a - 1] && r[b] == out[b - 1]);
        }
    }
}

impl PickerState {
    /// An empty picker.
    pub fn new() -> (res: Self)
        ensures
            res.entries@.len() == 0,
            res.search_buffer@.len() == 0,
            res.selected_index == 0,
            res.filtered_indices@.len() == 0,
            res.exit_on_key_release is None,
    {
        PickerState {
            entries: Vec::new(),
            search_buffer: String::new(),
            selected_index: 0,
            filtered_indices: Vec::new(),
            exit_on_key_release: None,
        }
    }

    /// Replaces the entries, clears the search and selects the first row.
    pub fn set_entries(&mut self, entries: Vec<PickerEntry>)
        ensures
            final(self).entries@ == entries@,
            final(self).search_buffer@.len() == 0,
            final(self).selected_index == 0,
            final(self).filtered_indices@ == Seq::new(entries@.len(), |i: int| i as usize),
            final(self).exit_on_key_release == old(self).exit_on_key_release,
    {
        self.entries = entries;
        self.search_buffer = String::new();
        self.selected_index = 0;
        self.update_filtered();
    }

    /// Recomputes the rows for the current search (see [`refiltered`]).
    pub fn update_filtered(&mut self)
        ensures
            refiltered(*old(self), *final(self), old(self).search_buffer@),
    {
        let n = self.entries.len();
        let ghost entries = self.entries@;
        let ghost search = self.search_buffer@;
        let search_chars = chars_of(self.search_buffer.as_str());
        if search_chars.len() == 0 {
            let mut f: Vec<usize> = Vec::new();
            let mut i: usize = 0;
            while i < n
                invariant
                    i <= n,
                    n == entries.len(),
                    f@ == Seq::new(i as nat, |k: int| k as usize),
                decreases n - i,
            {
                f.push(i);
                assert(f@ =~= Seq::new((i + 1) as nat, |k: int| k as usize));
                i = i + 1;
            }
            self.filtered_indices = f;
        } else {
            let mut scored: Vec<(usize, i64)> = Vec::new();
            let mut i: usize = 0;
            while i < n
                invariant
                    i <= n,
                    n == entries.len(),
                    entries == self.entries@,
                    search == self.search_buffer@,
                    forall|a: int|
                        0 <= a < scored@.len() ==> (#[trigger] scored@[a]).0 < i && entry_score(
                            entries,
                            search,
                            scored@[a].0 as int,
                        ) == Some(scored@[a].1),
                    forall|k: int|
                        0 <= k < i && (#[trigger] entry_score(entries, search, k)) is Some
                            ==> exists|a: int| 0 <= a < scored@.len() && scored@[a].0 == k,
                    forall|a: int, b: int|
                        0 <= a < b < scored@.len() ==> (#[trigger] scored@[a]).0 != (#[trigger] scored@[b]).0,
                    forall|a: int, b: int|
                        0 <= a < b < scored@.len() ==> ranks_before(
                            #[trigger] scored@[a].1,
                            scored@[a].0,
                            #[trigger] scored@[b].1,
                            scored@[b].0,
                        ),
                decreases n - i,
            {
                let e = &self.entries[i];
                let shown: &str = match &e.desc {
                    Some(d) => d.as_str(),
                    None => e.name.as_str(),
                };
                assert(shown@ == display_name(entries[i as int]));
                match fuzzy_score(shown, self.search_buffer.as_str()) {
                    Some(sc) => {
                        let mut p: usize = 0;
                        while p < scored.len() && scored[p].1 >= sc
                            invariant
                                p <= scored@.len(),
                                forall|a: int| 0 <= a < p ==> (#[trigger] scored@[a]).1 >= sc,
                            decreases scored@.len() - p,
                        {
                            p = p + 1;
                        }
                        let ghost before = scored@;
                        proof {
                            lemma_insert_sorted(before, p as int, (i, sc));
                        }
                        scored.insert(p, (i, sc));
                        proof {
                            assert(scored@ == before.insert(p as int, (i, sc)));
                            assert forall|k: int|
                                0 <= k < i + 1 && (#[trigger] entry_score(entries, search, k)) is Some
                                implies exists|a: int| 0 <= a < scored@.len() && scored@[a].0 == k by {
                                if k == i {
                                    assert(scored@[p as int].0 == k);
                                } else {
                                    let a = choose|a: int| 0 <= a < before.len() && before[a].0 == k;
                                    if a < p {
                                        assert(scored@[a].0 == k);
                                    } else {
                                        assert(scored@[a + 1].0 == k);
                                    }
                                }
                            }
                            assert forall|a: int, b: int|
                                0 <= a < b < scored@.len() implies (#[trigger] scored@[a]).0 != (#[trigger] scored@[b]).0 by {
                                if a != p && b != p {
                                    let a0 = if a < p { a } else { a - 1 };
                                    let b0 = if b < p { b } else { b - 1 };
                                    assert(scored@[a] == before[a0] && scored@[b] == before[b0]);
                                } else if a == p {
                                    assert(scored@[b] == before[b - 1]);
                                } else {
                                    assert(scored@[a] == before[a]);
                                }
                            }
                            assert forall|a: int|
                                0 <= a < scored@.len() implies (#[trigger] scored@[a]).0 < i + 1 && entry_score(
                                    entries,
                                    search,
                                    scored@[a].0 as int,
                                ) == Some(scored@[a].1) by {
                                if a < p {
                                    assert(scored@[a] == before[a]);
                                } else if a > p {
                                    assert(scored@[a] == before[a - 1]);
                                }
                            }
                        }
                    },
                    None => {},
                }
                i = i + 1;
            }
            let mut f: Vec<usize> = Vec::new();
            let mut j: usize = 0;
            while j < scored.len()
                invariant
                    j <= scored@.len(),
                    f@.len() == j,
                    forall|a: int| 0 <= a < j ==> #[trigger] f@[a] == scored@[a].0,
                decreases scored@.len() - j,
            {
                f.push(scored[j].0);
                j = j + 1;
            }
            proof {
                assert forall|k: int|
                    0 <= k < entries.len() && (#[trigger] entry_score(entries, search, k)) is Some
                    implies f@.contains(k as usize) by {
                    let a = choose|a: int| 0 <= a < scored@.len() && scored@[a].0 == k;
                    assert(f@[a] == k as usize);
                }
                assert forall|a: int, b: int| 0 <= a < b < f@.len() implies ranks_before(
                    entry_score(entries, search, f@[a] as int)->0,
                    #[trigger] f@[a],
                    entry_score(entries, search, f@[b] as int)->0,
                    #[trigger] f@[b],
                ) by {
                    assert(ranks_before(scored@[a].1, scored@[a].0, scored@[b].1, scored@[b].0));
                }
                assert forall|a: int, b: int| 0 <= a < f@.len() && 0 <= b < f@.len() && a != b implies f@[a] != f@[b] by {
                    if a < b {
                        assert(scored@[a].0 != scored@[b].0);
                    } else {
                        assert(scored@[b].0 != scored@[a].0);
                    }
                }
            }
            self.filtered_indices = f;
        }
        let len = self.filtered_indices.len();
        if len == 0 {
            self.selected_index = 0;
        } else if self.selected_index >= len {
            self.selected_index = len - 1;
        }
    }

    /// The entry of the highlighted row.
    pub fn selected_entry(&self) -> (res: Option<&PickerEntry>)
        ensures
            match res {
                Some(e) => self.selected_index < self.filtered_indices@.len()
                    && self.filtered_indices@[self.selected_index as int] < self.entries@.len()
                    && *e == self.entries@[self.filtered_indices@[self.selected_index as int] as int],
                None => !(self.selected_index < self.filtered_indices@.len()
                    && self.filtered_indices@[self.selected_index as int] < self.entries@.len()),
            },
    {
        if self.selected_index < self.filtered_indices.len() {
            let idx = self.filtered_indices[self.selected_index];
            if idx < self.entries.len() {
                return Some(&self.entries[idx]);
            }
        }
        None
    }
}

/// A key press in the picker.
#[derive(Debug, Clone, PartialEq, Eq)]
pub struct KeyPress {
    /// The key's name as GDK gives it (`Escape`, `Return`, `a`, ...).
    pub name: String,
    pub keycode: u32,
    pub ctrl: bool,
    /// Super or Meta is held.
    pub logo: bool,
    /// The character the key types, if any.
    pub ch: Option<char>,
}

/// What follows a key press.
#[derive(Debug, PartialEq)]
pub struct KeyOutcome {
    /// A command for the daemon.
    pub send: Option<Command>,
    /// The list must be drawn again.
    pub rebuild: bool,
}

/// ASCII lowercase of a character; other characters unchanged.
pub open spec fn ascii_lower(c: char) -> char {
    if 'A' <= c && c <= 'Z' {
        ((c as u8) + 32) as char
    } else {
        c
    }
}

/// `str::eq_ignore_ascii_case`.
pub open spec fn same_ignoring_ascii_case(a: Seq<char>, b: Seq<char>) -> bool {
    a.len() == b.len() && forall|i: int| 0 <= i < a.len() ==> ascii_lower(#[trigger] a[i]) == ascii_lower(b[i])
}

fn lower(c: char) -> (res: char)
    ensures
        res == ascii_lower(c),
{
    if 'A' <= c && c <= 'Z' {
        ((c as u8) + 32) as char
    } else {
        c
    }
}

/// Whether two strings are equal ignoring ASCII case (`str::eq_ignore_ascii_case`).
pub fn eq_ignore_case(a: &str, b: &str) -> (res: bool)
    ensures
        res == same_ignoring_ascii_case(a@, b@),
{
    let x = chars_of(a);
    let y = chars_of(b);
    if x.len() != y.len() {
        return false;
    }
    let mut i: usize = 0;
    while i < x.len()
        invariant
            x@ == a@,
            y@ == b@,
            x@.len() == y@.len(),
            i <= x@.len(),
            forall|j: int| 0 <= j < i ==> ascii_lower(#[trigger] x@[j]) == ascii_lower(y@[j]),
        decreases x@.len() - i,
    {
        if lower(x[i]) != lower(y[i]) {
            return false;
        }
        i = i + 1;
    }
    true
}

/// Entries whose shortcut is the key `name`, ignoring ASCII case.
pub open spec fn has_shortcut(name: Seq<char>) -> spec_fn(PickerEntry) -> bool {
    |e: PickerEntry| e.key matches Some(k) && same_ignoring_ascii_case(k@, name)
}

/// Whether Unicode counts `c` as alphanumeric (`char::is_alphanumeric`).
pub uninterp spec fn unicode_alphanumeric(c: char) -> bool;

/// `char::is_alphanumeric`; the contract only names the outcome (see
/// [`unicode_alphanumeric`]).
#[verifier::external_body]
fn is_alphanumeric(c: char) -> (res: bool)
    ensures
        res == unicode_alphanumeric(c),
{
    c.is_alphanumeric()
}

/// The entry of the highlighted row.
pub open spec fn selected_spec(s: PickerState) -> Option<PickerEntry> {
    if s.selected_index < s.filtered_indices@.len() && s.filtered_indices@[s.selected_index as int]
        < s.entries@.len() {
        Some(s.entries@[s.filtered_indices@[s.selected_index as int] as int])
    } else {
        None
    }
}

/// `t` is `s`, with the pending exit set to `exit`.
pub open spec fn same_picker(s: PickerState, t: PickerState, exit: Option<u32>) -> bool {
    &&& t.entries@ == s.entries@
    &&& t.search_buffer@ == s.search_buffer@
    &&& t.selected_index == s.selected_index
    &&& t.filtered_indices@ == s.filtered_indices@
    &&& t.exit_on_key_release == exit
}

/// A request to toggle scratchpad `name`.
pub open spec fn toggles(send: Option<Command>, name: Seq<char>) -> bool {
    send matches Some(Command::Toggle { name: Some(n) }) && n@ == name
}

/// A key that types into the search: alphanumeric, space, `-` or `_`.
pub open spec fn types_search(c: char) -> bool {
    unicode_alphanumeric(c) || c == ' ' || c == '-' || c == '_'
}

/// What a key press does. While a closing key waits for its release nothing happens.
/// Escape clears the search, or closes when it is empty; Ctrl+[ and Ctrl+g close;
/// Super/Meta with a shortcut key toggles that scratchpad and closes; Return toggles
/// the highlighted one and closes; Tab toggles it and stays; Up, Ctrl+k, Ctrl+p and
/// Down, Ctrl+j, Ctrl+n move the highlight; BackSpace and typed characters edit the
/// search. Closing happens when the key is released.
pub open spec fn key_handled(s: PickerState, t: PickerState, k: KeyPress, out: KeyOutcome) -> bool {
    let n = k.name@;
    if s.exit_on_key_release is Some {
        same_picker(s, t, s.exit_on_key_release) && out.send is None && !out.rebuild
    } else if n == "Escape"@ {
        out.send is None && if s.search_buffer@.len() > 0 {
            refiltered(s, t, Seq::empty()) && out.rebuild
        } else {
            same_picker(s, t, Some(k.keycode)) && !out.rebuild
        }
    } else if k.ctrl && (n == "bracketleft"@ || n == "g"@) {
        same_picker(s, t, Some(k.keycode)) && out.send is None && !out.rebuild
    } else if k.logo {
        !out.rebuild && match first_where(s.entries@, has_shortcut(n)) {
            Some(i) => same_picker(s, t, Some(k.keycode)) && toggles(out.send, s.entries@[i].name@),
            None => same_picker(s, t, None) && out.send is None,
        }
    } else if n == "Return"@ || n == "KP_Enter"@ {
        !out.rebuild && match selected_spec(s) {
            Some(e) => same_picker(s, t, Some(k.keycode)) && toggles(out.send, e.name@),
            None => same_picker(s, t, None) && out.send is None,
        }
    } else if n == "Up"@ || (k.ctrl && (n == "k"@ || n == "p"@)) {
        &&& out.send is None && out.rebuild
        &&& t.entries@ == s.entries@ && t.search_buffer@ == s.search_buffer@
        &&& t.filtered_indices@ == s.filtered_indices@ && t.exit_on_key_release is None
        &&& t.selected_index == (if s.selected_index > 0 {
            (s.selected_index - 1) as usize
        } else {
            s.selected_index
        })
    } else if n == "Down"@ || (k.ctrl && (n == "j"@ || n == "n"@)) {
        &&& out.send is None && out.rebuild
        &&& t.entries@ == s.entries@ && t.search_buffer@ == s.search_buffer@
        &&& t.filtered_indices@ == s.filtered_indices@ && t.exit_on_key_release is None
        &&& t.selected_index == (if s.selected_index + 1 < s.filtered_indices@.len() {
            (s.selected_index + 1) as usize
        } else {
            s.selected_index
        })
    } else if n == "Tab"@ {
        same_picker(s, t, None) && !out.rebuild && match selected_spec(s) {
            Some(e) => toggles(out.send, e.name@),
            None => out.send is None,
        }
    } else if n == "BackSpace"@ {
        out.send is None && out.rebuild && refiltered(
            s,
            t,
            if s.search_buffer@.len() > 0 {
                s.search_buffer@.drop_last()
            } else {
                s.search_buffer@
            },
        )
    } else if k.ch matches Some(c) && types_search(c) {
        out.send is None && out.rebuild && refiltered(s, t, s.search_buffer@.push(k.ch->0))
    } else {
        same_picker(s, t, None) && out.send is None && !out.rebuild
    }
}

fn toggle_command(name: &String) -> (res: Option<Command>)
    ensures
        toggles(res, name@),
{
    Some(Command::Toggle { name: Some(name.clone()) })
}

impl PickerState {
    fn set_search(&mut self, cs: Vec<char>)
        ensures
            refiltered(*old(self), *final(self), cs@),
    {
        self.search_buffer = string_of(&cs);
        self.update_filtered();
    }

    /// Handles a key press (see [`key_handled`]).
    pub fn handle_key(&mut self, key: &KeyPress) -> (res: KeyOutcome)
        ensures
            key_handled(*old(self), *final(self), *key, res),
    {
        let nothing = KeyOutcome { send: None, rebuild: false };
        if self.exit_on_key_release.is_some() {
            return nothing;
        }
        let n = key.name.as_str();
        if str_eq(n, "Escape") {
            let cs = chars_of(self.search_buffer.as_str());
            if cs.len() > 0 {
                self.set_search(Vec::new());
                return KeyOutcome { send: None, rebuild: true };
            } else {
                self.exit_on_key_release = Some(key.keycode);
                return nothing;
            }
        }
        if key.ctrl && (str_eq(n, "bracketleft") || str_eq(n, "g")) {
            self.exit_on_key_release = Some(key.keycode);
            return nothing;
        }
        if key.logo {
            let mut i: usize = 0;
            while i < self.entries.len()
                invariant
                    i <= self.entries@.len(),
                    forall|j: int| 0 <= j < i ==> !has_shortcut(n@)(#[trigger] self.entries@[j]),
                    same_picker(*old(self), *self, None),
                    old(self).exit_on_key_release is None,
                    n@ == key.name@,
                    n@ != "Escape"@,
                    !(key.ctrl && (n@ == "bracketleft"@ || n@ == "g"@)),
                    key.logo,
                    nothing == (KeyOutcome { send: None, rebuild: false }),
                decreases self.entries@.len() - i,
            {
                let hit = match &self.entries[i].key {
                    Some(k) => eq_ignore_case(k.as_str(), n),
                    None => false,
                };
                if hit {
                    proof {
                        assert(has_shortcut(n@)(self.entries@[i as int]));
                        lemma_first_where_at(self.entries@, has_shortcut(n@), i as int);
                    }
                    let send = toggle_command(&self.entries[i].name);
                    self.exit_on_key_release = Some(key.keycode);
                    return KeyOutcome { send, rebuild: false };
                }
                i = i + 1;
            }
            proof {
                lemma_first_where_none(self.entries@, has_shortcut(n@));
            }
            return nothing;
        }
        if str_eq(n, "Return") || str_eq(n, "KP_Enter") {
            return match self.selected_entry() {
                Some(e) => {
                    let send = toggle_command(&e.name);
                    self.exit_on_key_release = Some(key.keycode);
                    KeyOutcome { send, rebuild: false }
                },
                None => nothing,
            };
        }
        if str_eq(n, "Up") || (key.ctrl && (str_eq(n, "k") || str_eq(n, "p"))) {
            if self.selected_index > 0 {
                self.selected_index = self.selected_index - 1;
            }
            return KeyOutcome { send: None, rebuild: true };
        }
        if str_eq(n, "Down") || (key.ctrl && (str_eq(n, "j") || str_eq(n, "n"))) {
            if self.selected_index < self.filtered_indices.len() && self.selected_index + 1
                < self.filtered_indices.len() {
                self.selected_index = self.selected_index + 1;
            }
            return KeyOutcome { send: None, rebuild: true };
        }
        if str_eq(n, "Tab") {
            return match self.selected_entry() {
                Some(e) => KeyOutcome { send: toggle_command(&e.name), rebuild: false },
                None => nothing,
            };
        }
        if str_eq(n, "BackSpace") {
            let mut cs = chars_of(self.search_buffer.as_str());
            if cs.len() > 0 {
                let _ = cs.pop();
            }
            self.set_search(cs);
            return KeyOutcome { send: None, rebuild: true };
        }
        if let Some(c) = key.ch {
            if is_alphanumeric(c) || c == ' ' || c == '-' || c == '_' {
                let mut cs = chars_of(self.search_buffer.as_str());
                cs.push(c);
                self.set_search(cs);
                return KeyOutcome { send: None, rebuild: true };
            }
        }
        nothing
    }

    /// A key release: when it is the closing key, the picker closes (returns true).
    pub fn key_released(&mut self, keycode: u32) -> (res: bool)
        ensures
            res == (old(self).exit_on_key_release == Some(keycode)),
            same_picker(
                *old(self),
                *final(self),
                if res {
                    None
                } else {
                    old(self).exit_on_key_release
                },
            ),
    {
        if self.exit_on_key_release == Some(keycode) {
            self.exit_on_key_release = None;
            true
        } else {
            false
        }
    }
}

/// One row of the picker as drawn.
#[derive(Debug, PartialEq, Eq)]
pub struct PickerRow {
    /// The state mark at the left.
    pub indicator: String,
    /// The style class of the mark, if it has one.
    pub indicator_class: Option<String>,
    /// The shortcut key, or a space.
    pub key: String,
    /// The entry's description, else its name.
    pub name: String,
    pub selected: bool,
}

/// The picker as drawn.
#[derive(Debug, PartialEq, Eq)]
pub struct PickerDisplay {
    /// `/` followed by the search.
    pub search_text: String,
    pub search_empty: bool,
    pub rows: Vec<PickerRow>,
    /// Nothing matches although there are entries.
    pub no_matches: bool,
}

pub open spec fn indicator_of(st: PickerEntryState) -> Seq<char> {
    match st {
        PickerEntryState::Visible => "\u{25cf}"@,
        PickerEntryState::Floating => "\u{25c6}"@,
        PickerEntryState::Hidden => "\u{25cb}"@,
        PickerEntryState::Unspawned => " "@,
    }
}

pub open spec fn indicator_class_of(st: PickerEntryState) -> Option<Seq<char>> {
    match st {
        PickerEntryState::Visible => Some("state-visible"@),
        PickerEntryState::Floating => Some("state-floating"@),
        PickerEntryState::Hidden => None,
        PickerEntryState::Unspawned => Some("state-unspawned"@),
    }
}

/// Row `r` draws entry `e`, highlighted when `selected`.
pub open spec fn row_shows(r: PickerRow, e: PickerEntry, selected: bool) -> bool {
    &&& r.indicator@ == indicator_of(e.state)
    &&& opt_chars(r.indicator_class) == indicator_class_of(e.state)
    &&& r.key@ == (match e.key {
        Some(k) => k@,
        None => " "@,
    })
    &&& r.name@ == display_name(e)
    &&& r.selected == selected
}

fn row_of(e: &PickerEntry, selected: bool) -> (res: PickerRow)
    ensures
        row_shows(res, *e, selected),
{
    let (indicator, class): (&str, Option<&str>) = match e.state {
        PickerEntryState::Visible => ("\u{25cf}", Some("state-visible")),
        PickerEntryState::Floating => ("\u{25c6}", Some("state-floating")),
        PickerEntryState::Hidden => ("\u{25cb}", None),
        PickerEntryState::Unspawned => (" ", Some("state-unspawned")),
    };
    let key = match &e.key {
        Some(k) => k.clone(),
        None => " ".to_owned(),
    };
    let name = match &e.desc {
        Some(d) => d.clone(),
        None => e.name.clone(),
    };
    let indicator_class = match class {
        Some(c) => Some(c.to_owned()),
        None => None,
    };
    PickerRow { indicator: indicator.to_owned(), indicator_class, key, name, selected }
}

/// What the picker shows: the search line, one row per listed entry (the
/// highlighted one marked), and whether to say that nothing matches.
pub fn picker_display(s: &PickerState) -> (res: PickerDisplay)
    requires
        forall|a: int| 0 <= a < s.filtered_indices@.len() ==> (#[trigger] s.filtered_indices@[a]) < s.entries@.len(),
    ensures
        res.search_text@ == "/"@ + s.search_buffer@,
        res.search_empty == (s.search_buffer@.len() == 0),
        res.rows@.len() == s.filtered_indices@.len(),
        forall|a: int|
            0 <= a < res.rows@.len() ==> row_shows(
                #[trigger] res.rows@[a],
                s.entries@[s.filtered_indices@[a] as int],
                a == s.selected_index,
            ),
        res.no_matches == (s.filtered_indices@.len() == 0 && s.entries@.len() > 0),
{
    let search_text = join("/", s.search_buffer.as_str());
    let search_empty = chars_of(s.search_buffer.as_str()).len() == 0;
    let mut rows: Vec<PickerRow> = Vec::new();
    let mut a: usize = 0;
    while a < s.filtered_indices.len()
        invariant
            a <= s.filtered_indices@.len(),
            rows@.len() == a,
            forall|b: int| 0 <= b < s.filtered_indices@.len() ==> (#[trigger] s.filtered_indices@[b]) < s.entries@.len(),
            forall|b: int|
                0 <= b < a ==> row_shows(
                    #[trigger] rows@[b],
                    s.entries@[s.filtered_indices@[b] as int],
                    b == s.selected_index,
                ),
        decreases s.filtered_indices@.len() - a,
    {
        let idx = s.filtered_indices[a];
        rows.push(row_of(&s.entries[idx], a == s.selected_index));
        a = a + 1;
    }
    let no_matches = s.filtered_indices.len() == 0 && s.entries.len() > 0;
    PickerDisplay { search_text, search_empty, rows, no_matches }
}

/// The key names that the picker tells apart are distinct.
proof fn lemma_key_names_differ()
    ensures
        "Tab"@ != "Escape"@,
        "Tab"@ != "bracketleft"@,
        "Tab"@ != "g"@,
        "Tab"@ != "Return"@,
        "Tab"@ != "KP_Enter"@,
        "Tab"@ != "Up"@,
        "Tab"@ != "k"@,
        "Tab"@ != "p"@,
        "Tab"@ != "Down"@,
        "Tab"@ != "j"@,
        "Tab"@ != "n"@,
        "Return"@ != "Escape"@,
        "Return"@ != "bracketleft"@,
        "Return"@ != "g"@,
        "KP_Enter"@ != "Escape"@,
        "KP_Enter"@ != "bracketleft"@,
        "KP_Enter"@ != "g"@,
{
    reveal_strlit("Tab");
    reveal_strlit("Escape");
    reveal_strlit("bracketleft");
    reveal_strlit("g");
    reveal_strlit("Return");
    reveal_strlit("KP_Enter");
    reveal_strlit("Up");
    reveal_strlit("k");
    reveal_strlit("p");
    reveal_strlit("Down");
    reveal_strlit("j");
    reveal_strlit("n");
    assert("Tab"@.len() == 3);
    assert("Escape"@.len() == 6);
    assert("bracketleft"@.len() == 11);
    assert("g"@.len() == 1);
    assert("Return"@.len() == 6);
    assert("KP_Enter"@.len() == 8);
    assert("Up"@.len() == 2);
    assert("k"@.len() == 1);
    assert("p"@.len() == 1);
    assert("Down"@.len() == 4);
    assert("j"@.len() == 1);
    assert("n"@.len() == 1);
    assert("Return"@[0] != "Escape"@[0]);
}

/// Tab toggles the highlighted scratchpad and keeps the picker open: with no closing
/// key waiting for its release and Super not held, Tab sends a toggle request naming
/// the highlighted row's scratchpad (nothing when no row is highlighted), sets no
/// closing key, and leaves the rows, the search and the highlight as they were.
pub proof fn law_tab_toggles_highlighted(s: PickerState, t: PickerState, k: KeyPress, out: KeyOutcome)
    requires
        key_handled(s, t, k, out),
        s.exit_on_key_release is None,
        k.name@ == "Tab"@,
        !k.logo,
    ensures
        if s.selected_index < s.filtered_indices@.len() && s.filtered_indices@[s.selected_index as int]
            < s.entries@.len() {
            out.send matches Some(Command::Toggle { name: Some(n) }) && n@ == s.entries@[s.filtered_indices@[s.selected_index as int] as int].name@
        } else {
            out.send is None
        },
        t.exit_on_key_release is None,
        t.entries@ == s.entries@,
        t.search_buffer@ == s.search_buffer@,
        t.selected_index == s.selected_index,
        t.filtered_indices@ == s.filtered_indices@,
        !out.rebuild,
{
    lemma_key_names_differ();
}

/// Return (or keypad Enter) toggles the highlighted scratchpad and closes the picker
/// once the key is released: with no closing key waiting and Super not held, it sends
/// a toggle request naming the highlighted row's scratchpad and makes this key the
/// closing key; with no row highlighted it does nothing.
pub proof fn law_return_toggles_and_closes(s: PickerState, t: PickerState, k: KeyPress, out: KeyOutcome)
    requires
        key_handled(s, t, k, out),
        s.exit_on_key_release is None,
        k.name@ == "Return"@ || k.name@ == "KP_Enter"@,
        !k.logo,
    ensures
        if s.selected_index < s.filtered_indices@.len() && s.filtered_indices@[s.selected_index as int]
            < s.entries@.len() {
            &&& out.send matches Some(Command::Toggle { name: Some(n) }) && n@ == s.entries@[s.filtered_indices@[s.selected_index as int] as int].name@
            &&& t.exit_on_key_release == Some(k.keycode)
        } else {
            out.send is None && t.exit_on_key_release is None
        },
        t.entries@ == s.entries@,
        t.search_buffer@ == s.search_buffer@,
        t.selected_index == s.selected_index,
        !out.rebuild,
{
    lemma_key_names_differ();
}

/// Escape first clears the search, showing every entry again in entry order, and
/// only then closes: with an empty search it makes this key the closing key. It never
/// toggles anything.
pub proof fn law_escape_clears_then_closes(s: PickerState, t: PickerState, k: KeyPress, out: KeyOutcome)
    requires
        key_handled(s, t, k, out),
        s.exit_on_key_release is None,
        k.name@ == "Escape"@,
    ensures
        out.send is None,
        t.entries@ == s.entries@,
        s.search_buffer@.len() > 0 ==> {
            &&& t.search_buffer@.len() == 0
            &&& t.filtered_indices@.len() == s.entries@.len()
            &&& forall|a: int| 0 <= a < t.filtered_indices@.len() ==> #[trigger] t.filtered_indices@[a] == a as usize
            &&& t.exit_on_key_release is None
        },
        s.search_buffer@.len() == 0 ==> t.exit_on_key_release == Some(k.keycode),
{
    if s.search_buffer@.len() > 0 {
        assert(t.search_buffer@.len() == 0);
        assert(t.filtered_indices@ == Seq::new(t.entries@.len(), |i: int| i as usize));
    }
}

/// Up and Down move the highlight one row within the list and never past its ends;
/// the rows and the search stay as they were and nothing is toggled.
pub proof fn law_arrows_move_within_list(s: PickerState, t: PickerState, k: KeyPress, out: KeyOutcome)
    requires
        key_handled(s, t, k, out),
        s.exit_on_key_release is None,
        k.name@ == "Up"@ || k.name@ == "Down"@,
        !k.logo,
    ensures
        out.send is None,
        t.filtered_indices@ == s.filtered_indices@,
        t.search_buffer@ == s.search_buffer@,
        s.selected_index < s.filtered_indices@.len() ==> t.selected_index < s.filtered_indices@.len(),
        k.name@ == "Up"@ ==> t.selected_index == if s.selected_index > 0 {
            s.selected_index - 1
        } else {
            0
        },
        k.name@ == "Down"@ ==> t.selected_index == if s.selected_index + 1 < s.filtered_indices@.len() {
            (s.selected_index + 1) as usize
        } else {
            s.selected_index
        },
{
    reveal_strlit("Up");
    reveal_strlit("Down");
    reveal_strlit("Escape");
    reveal_strlit("bracketleft");
    reveal_strlit("g");
    reveal_strlit("Return");
    reveal_strlit("KP_Enter");
    assert("Up"@.len() == 2);
    assert("Down"@.len() == 4);
    assert("Escape"@.len() == 6);
    assert("bracketleft"@.len() == 11);
    assert("g"@.len() == 1);
    assert("Return"@.len() == 6);
    assert("KP_Enter"@.len() == 8);
    reveal_strlit("k");
    reveal_strlit("p");
    assert("k"@.len() == 1);
    assert("p"@.len() == 1);
}

} // verus!
