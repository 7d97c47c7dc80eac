//! The mode stack of the mode overlay.
use vstd::prelude::*;
use crate::config::{BindConfig, BindOption, ModeConfig};
use crate::seqs::{first_where, lemma_first_where, lemma_first_where_at, lemma_first_where_none};
use crate::strmap::StrMap;
use crate::text::{chars_of, str_eq, string_of, sub_chars};

verus! {

/// Whether `b` lists `key` as an alias.
pub open spec fn has_alias(b: BindConfig, key: Seq<char>) -> bool {
    exists|j: int|
        0 <= j < b.options@.len() && (#[trigger] b.options@[j] matches BindOption::Alias(a)
            && a@ == key)
}

/// Binds whose key is `key`.
pub open spec fn keyed(key: Seq<char>) -> spec_fn(BindConfig) -> bool {
    |b: BindConfig| b.key@ == key
}

/// Binds with alias `key`.
pub open spec fn aliased(key: Seq<char>) -> spec_fn(BindConfig) -> bool {
    |b: BindConfig| has_alias(b, key)
}

/// The bind that a key selects among `binds`: the first bind with that key, else the
/// first bind with that alias.
pub open spec fn bind_index(binds: Seq<BindConfig>, key: Seq<char>) -> Option<int> {
    match first_where(binds, keyed(key)) {
        Some(i) => Some(i),
        None => first_where(binds, aliased(key)),
    }
}

/// Whether `s` begins with `tok`.
pub open spec fn starts_with(s: Seq<char>, tok: Seq<char>) -> bool {
    s.len() >= tok.len() && s.take(tok.len() as int) == tok
}

/// Is a `+`.
pub open spec fn is_plus() -> spec_fn(char) -> bool {
    |c: char| c == '+'
}

/// A key name with the Super modifier removed: a key name is modifiers, each ended
/// by `+`, then the key. The modifiers `Super`, `Mod` and `Mod4` are dropped; the
/// others (`Ctrl`, `Shift`, `Alt`, ...) are kept in place, and so is the key.
pub open spec fn strip_super(k: Seq<char>) -> Seq<char>
    decreases k.len(),
{
    if starts_with(k, "Super+"@) && k.len() > 6 {
        strip_super(k.skip(6))
    } else if starts_with(k, "Mod4+"@) && k.len() > 5 {
        strip_super(k.skip(5))
    } else if starts_with(k, "Mod+"@) && k.len() > 4 {
        strip_super(k.skip(4))
    } else if k.len() == 0 {
        k
    } else {
        proof {
            lemma_first_where(k.drop_first(), is_plus());
        }
        match first_where(k.drop_first(), is_plus()) {
            Some(r) => if r + 2 < k.len() {
                k.take(r + 2) + strip_super(k.skip(r + 2))
            } else {
                k
            },
            None => k,
        }
    }
}

/// Whether the `len` characters of `k` from `i` are `tok`.
fn token_at(k: &[char], i: usize, tok: &[char]) -> (res: bool)
    requires
        i <= k@.len(),
    ensures
        res == starts_with(k@.skip(i as int), tok@),
{
    if k.len() - i < tok.len() {
        return false;
    }
    let mut j: usize = 0;
    while j < tok.len()
        invariant
            i + tok@.len() <= k@.len(),
            i + tok.len() <= k.len(),
            j <= tok@.len(),
            forall|a: int| 0 <= a < j ==> k@[i + a] == tok@[a],
        decreases tok@.len() - j,
    {
        if k[i + j] != tok[j] {
            assert(k@.skip(i as int).take(tok@.len() as int)[j as int] != tok@[j as int]);
            return false;
        }
        j = j + 1;
    }
    assert(k@.skip(i as int).take(tok@.len() as int) =~= tok@);
    true
}

/// The key name with Super removed (see [`strip_super`]).
pub fn strip_super_key(key: &str) -> (res: String)
    ensures
        res@ == strip_super(key@),
{
    let k = chars_of(key);
    let n = k.len();
    let super_tok = chars_of("Super+");
    let mod4_tok = chars_of("Mod4+");
    let mod_tok = chars_of("Mod+");
    proof {
        reveal_strlit("Super+");
        reveal_strlit("Mod4+");
        reveal_strlit("Mod+");
    }
    let mut out: Vec<char> = Vec::new();
    let mut i: usize = 0;
    assert(k@.skip(0) =~= k@);
    while i < n
        invariant
            n == k@.len(),
            i <= n,
            super_tok@ == "Super+"@,
            mod4_tok@ == "Mod4+"@,
            mod_tok@ == "Mod+"@,
            "Super+"@.len() == 6,
            "Mod4+"@.len() == 5,
            "Mod+"@.len() == 4,
            strip_super(k@) == out@ + strip_super(k@.skip(i as int)),
        decreases n - i,
    {
        let ghost rest = k@.skip(i as int);
        if token_at(&k, i, &super_tok) && n - i > 6 {
            assert(rest.skip(6) =~= k@.skip(i + 6));
            i = i + 6;
        } else if token_at(&k, i, &mod4_tok) && n - i > 5 {
            assert(rest.skip(5) =~= k@.skip(i + 5));
            i = i + 5;
        } else if token_at(&k, i, &mod_tok) && n - i > 4 {
            assert(rest.skip(4) =~= k@.skip(i + 4));
            i = i + 4;
        } else {
            // Find the next `+` after the first character of this part.
            let mut j: usize = i + 1;
            while j < n && k[j] != '+'
                invariant
                    n == k@.len(),
                    i < n,
                    i + 1 <= j <= n,
                    rest == k@.skip(i as int),
                    forall|b: int| i + 1 <= b < j ==> k@[b] != '+',
                decreases n - j,
            {
                j = j + 1;
            }
            proof {
                assert(rest.drop_first() =~= k@.skip(i + 1));
                if j < n {
                    assert forall|b: int| 0 <= b < j - i - 1 implies !is_plus()(
                        #[trigger] rest.drop_first()[b],
                    ) by {
                        assert(rest.drop_first()[b] == k@[i + 1 + b]);
                    }
                    assert(rest.drop_first()[j - i - 1] == k@[j as int]);
                    lemma_first_where_at(rest.drop_first(), is_plus(), j - i - 1);
                } else {
                    assert forall|b: int| 0 <= b < rest.drop_first().len() implies !is_plus()(
                        #[trigger] rest.drop_first()[b],
                    ) by {
                        assert(rest.drop_first()[b] == k@[i + 1 + b]);
                    }
                    lemma_first_where_none(rest.drop_first(), is_plus());
                }
            }
            if j < n && j + 1 < n {
                let part = sub_chars(&k, i, j + 1);
                let mut part = part;
                assert(part@ =~= rest.take(j - i + 1));
                assert(rest.skip(j - i + 1) =~= k@.skip(j + 1));
                let ghost before = out@;
                out.append(&mut part);
                assert(out@ =~= before + rest.take(j - i + 1));
                i = j + 1;
            } else {
                let mut tail = sub_chars(&k, i, n);
                assert(tail@ =~= rest);
                out.append(&mut tail);
                assert(k@.skip(n as int) =~= Seq::<char>::empty());
                assert(strip_super(k@.skip(n as int)) == Seq::<char>::empty());
                i = n;
            }
        }
    }
    assert(k@.skip(n as int) =~= Seq::<char>::empty());
    string_of(&out)
}

/// Super does not count in a key name: `Super+`, `Mod+` or `Mod4+` in front of a key
/// name leaves the stripped name as it is without it.
pub proof fn law_super_ignored(k: Seq<char>)
    requires
        k.len() > 0,
    ensures
        strip_super("Super+"@ + k) == strip_super(k),
        strip_super("Mod+"@ + k) == strip_super(k),
        strip_super("Mod4+"@ + k) == strip_super(k),
{
    reveal_strlit("Super+");
    reveal_strlit("Mod4+");
    reveal_strlit("Mod+");
    assert(("Super+"@ + k).take(6) =~= "Super+"@);
    assert(("Super+"@ + k).skip(6) =~= k);
    assert(("Mod4+"@ + k).take(5) =~= "Mod4+"@);
    assert(("Mod4+"@ + k).skip(5) =~= k);
    assert(("Mod+"@ + k).take(4) =~= "Mod+"@);
    assert(("Mod+"@ + k).skip(4) =~= k);
    let m = "Mod+"@ + k;
    let m4 = "Mod4+"@ + k;
    if starts_with(m, "Super+"@) {
        assert(m.take(6)[0] == "Super+"@[0]);
    }
    if starts_with(m, "Mod4+"@) {
        assert(m.take(5)[3] == "Mod4+"@[3]);
    }
    if starts_with(m4, "Super+"@) {
        assert(m4.take(6)[0] == "Super+"@[0]);
    }
}

/// A key looked up with Super, Mod or Mod4 held selects the same bind as the key
/// without it.
pub proof fn law_lookup_ignores_super(s: ModeState, k: Seq<char>)
    requires
        k.len() > 0,
    ensures
        s.bind_for("Super+"@ + k) == s.bind_for(k),
        s.bind_for("Mod+"@ + k) == s.bind_for(k),
        s.bind_for("Mod4+"@ + k) == s.bind_for(k),
{
    law_super_ignored(k);
}

/// Stack of entered modes over the mode definitions.
///
/// A `switch-mode` bind pushes its target; Backspace pops; Escape or closing
/// clears the stack.
pub struct ModeState {
    mode_stack: Vec<String>,
    modes: StrMap<ModeConfig>,
}

impl ModeState {
    /// Names of the entered modes, innermost last.
    pub closed spec fn stack(&self) -> Seq<Seq<char>> {
        self.mode_stack@.map_values(|s: String| s@)
    }

    /// The mode definitions.
    pub closed spec fn modes(&self) -> Map<Seq<char>, ModeConfig> {
        self.modes@
    }

    /// The innermost mode, when the stack is not empty and it is defined.
    pub open spec fn current_spec(&self) -> Option<ModeConfig> {
        if self.stack().len() > 0 && self.modes().contains_key(self.stack().last()) {
            Some(self.modes()[self.stack().last()])
        } else {
            None
        }
    }

    pub fn new(modes: StrMap<ModeConfig>) -> (res: Self)
        ensures
            res.stack() == Seq::<Seq<char>>::empty(),
            res.modes() == modes@,
    {
        let res = ModeState { mode_stack: Vec::new(), modes };
        assert(res.stack() =~= Seq::<Seq<char>>::empty());
        res
    }

    /// Replaces the mode definitions (on a config reload); the stack stays.
    pub fn update_modes(&mut self, modes: StrMap<ModeConfig>)
        ensures
            final(self).stack() == old(self).stack(),
            final(self).modes() == modes@,
    {
        self.modes = modes;
    }

    /// The innermost mode's definition.
    pub fn current_mode(&self) -> (res: Option<&ModeConfig>)
        ensures
            match res {
                Some(m) => self.current_spec() == Some(*m),
                None => self.current_spec() is None,
            },
    {
        let n = self.mode_stack.len();
        if n == 0 {
            return None;
        }
        self.modes.get(self.mode_stack[n - 1].as_str())
    }

    /// Enters mode `name` when it is defined; returns whether it is.
    pub fn push_mode(&mut self, name: &str) -> (res: bool)
        ensures
            res == old(self).modes().contains_key(name@),
            final(self).modes() == old(self).modes(),
            res ==> final(self).stack() == old(self).stack().push(name@),
            !res ==> final(self).stack() == old(self).stack(),
    {
        if self.modes.contains_key(name) {
            let s = name.to_owned();
            self.mode_stack.push(s);
            assert(self.stack() =~= old(self).stack().push(name@));
            true
        } else {
            false
        }
    }

    /// Leaves the innermost mode; returns `false` when the stack was empty.
    pub fn pop_mode(&mut self) -> (res: bool)
        ensures
            res == (old(self).stack().len() > 0),
            final(self).modes() == old(self).modes(),
            res ==> final(self).stack() == old(self).stack().drop_last(),
            !res ==> final(self).stack() == old(self).stack(),
    {
        let r = self.mode_stack.pop();
        assert(self.stack() =~= if old(self).stack().len() > 0 {
            old(self).stack().drop_last()
        } else {
            old(self).stack()
        });
        r.is_some()
    }

    /// Leaves every mode.
    pub fn clear(&mut self)
        ensures
            final(self).stack() == Seq::<Seq<char>>::empty(),
            final(self).modes() == old(self).modes(),
    {
        self.mode_stack.clear();
        assert(self.stack() =~= Seq::<Seq<char>>::empty());
    }

    /// The number of entered modes.
    pub fn depth(&self) -> (res: usize)
        ensures
            res == self.stack().len(),
    {
        self.mode_stack.len()
    }

    /// The bind that `key` selects in the innermost mode: Super is stripped from the
    /// key name first (see [`strip_super`]), then [`bind_index`] picks the bind.
    pub open spec fn bind_for(&self, key: Seq<char>) -> Option<BindConfig> {
        match self.current_spec() {
            Some(m) => match bind_index(m.binds@, strip_super(key)) {
                Some(i) => Some(m.binds@[i]),
                None => None,
            },
            None => None,
        }
    }

    /// The bind that `key` selects in the innermost mode (see [`ModeState::bind_for`]);
    /// only Ctrl, Shift, Alt and the like count as modifiers, Super does not.
    pub fn lookup_bind(&self, key: &str) -> (res: Option<&BindConfig>)
        ensures
            match self.current_spec() {
                Some(m) => match bind_index(m.binds@, strip_super(key@)) {
                    Some(i) => res == Some(&m.binds@[i]),
                    None => res is None,
                },
                None => res is None,
            },
            crate::json::deref_opt(res) == self.bind_for(key@),
    {
        let mode = match self.current_mode() {
            Some(m) => m,
            None => return None,
        };
        let stripped = strip_super_key(key);
        let sk = stripped.as_str();
        let ghost binds = mode.binds@;
        let mut i: usize = 0;
        while i < mode.binds.len()
            invariant
                i <= binds.len(),
                binds == mode.binds@,
                self.current_spec() == Some(*mode),
                sk@ == strip_super(key@),
                forall|j: int| 0 <= j < i ==> (#[trigger] binds[j]).key@ != sk@,
            decreases binds.len() - i,
        {
            if str_eq(mode.binds[i].key.as_str(), sk) {
                proof {
                    lemma_first_where_at(binds, keyed(sk@), i as int);
                }
                return Some(&mode.binds[i]);
            }
            i = i + 1;
        }
        proof {
            lemma_first_where_none(binds, keyed(sk@));
        }
        let mut i: usize = 0;
        while i < mode.binds.len()
            invariant
                i <= binds.len(),
                binds == mode.binds@,
                self.current_spec() == Some(*mode),
                sk@ == strip_super(key@),
                first_where(binds, keyed(sk@)) is None,
                forall|j: int| 0 <= j < i ==> !has_alias(#[trigger] binds[j], sk@),
            decreases binds.len() - i,
        {
            if alias_matches(&mode.binds[i], sk) {
                proof {
                    lemma_first_where_at(binds, aliased(sk@), i as int);
                }
                return Some(&mode.binds[i]);
            }
            i = i + 1;
        }
        proof {
            lemma_first_where_none(binds, aliased(sk@));
        }
        None
    }

    /// Whether the innermost mode keeps the overlay open.
    pub fn current_keep_open(&self) -> (res: bool)
        ensures
            res == (self.current_spec() matches Some(m) && m.keep_open),
    {
        match self.current_mode() {
            Some(m) => m.keep_open,
            None => false,
        }
    }
}

/// Whether `b` lists `key` as an alias.
fn alias_matches(b: &BindConfig, key: &str) -> (res: bool)
    ensures
        res == has_alias(*b, key@),
{
    let mut j: usize = 0;
    while j < b.options.len()
        invariant
            j <= b.options@.len(),
            forall|k: int|
                0 <= k < j ==> !(#[trigger] b.options@[k] matches BindOption::Alias(a) && a@ == key@),
        decreases b.options@.len() - j,
    {
        if let BindOption::Alias(a) = &b.options[j] {
            if str_eq(a.as_str(), key) {
                return true;
            }
        }
        j = j + 1;
    }
    false
}

/// Leaving the mode just entered brings back the stack as it was, and with it the
/// current mode.
pub proof fn law_pop_undoes_push(m0: ModeState, m1: ModeState, m2: ModeState, name: Seq<char>)
    requires
        m1.modes() == m0.modes(),
        m1.stack() == m0.stack().push(name),
        m2.modes() == m1.modes(),
        m2.stack() == m1.stack().drop_last(),
    ensures
        m2.stack() == m0.stack(),
        m2.current_spec() == m0.current_spec(),
{
    assert(m0.stack().push(name).drop_last() =~= m0.stack());
}

/// After entering a defined mode, it is the current mode.
pub proof fn law_push_enters(m0: ModeState, m1: ModeState, name: Seq<char>)
    requires
        m0.modes().contains_key(name),
        m1.modes() == m0.modes(),
        m1.stack() == m0.stack().push(name),
    ensures
        m1.current_spec() == Some(m0.modes()[name]),
{
}

/// A call on a [`ModeState`], for stating what a sequence of calls does.
pub enum ModeCall {
    Push(Seq<char>),
    Pop,
    Clear,
    UpdateModes(Map<Seq<char>, ModeConfig>),
    /// `current_mode`, `depth`, `lookup_bind` or `current_keep_open`.
    Read,
}

/// What a call does to the mode state, as the methods' contracts state it, with
/// `ok` the `bool` that `push_mode` or `pop_mode` returned.
pub open spec fn mode_call(before: ModeState, after: ModeState, call: ModeCall, ok: bool) -> bool {
    match call {
        ModeCall::Push(name) => {
            &&& ok == before.modes().contains_key(name)
            &&& after.modes() == before.modes()
            &&& ok ==> after.stack() == before.stack().push(name)
            &&& !ok ==> after.stack() == before.stack()
        },
        ModeCall::Pop => {
            &&& ok == (before.stack().len() > 0)
            &&& after.modes() == before.modes()
            &&& ok ==> after.stack() == before.stack().drop_last()
            &&& !ok ==> after.stack() == before.stack()
        },
        ModeCall::Clear => {
            &&& after.stack() == Seq::<Seq<char>>::empty()
            &&& after.modes() == before.modes()
        },
        ModeCall::UpdateModes(m) => {
            &&& after.stack() == before.stack()
            &&& after.modes() == m
        },
        ModeCall::Read => after == before,
    }
}

/// The depth that a run of calls leaves, counted from an empty stack: successful
/// pushes count one up, successful pops one down, and a clear starts the count anew.
pub open spec fn net_depth(calls: Seq<ModeCall>, oks: Seq<bool>) -> int
    decreases calls.len(),
{
    if calls.len() == 0 {
        0
    } else {
        let before = net_depth(calls.drop_last(), oks.take(calls.len() - 1));
        let ok = oks[calls.len() - 1];
        match calls.last() {
            ModeCall::Push(_) => if ok {
                before + 1
            } else {
                before
            },
            ModeCall::Pop => if ok {
                before - 1
            } else {
                before
            },
            ModeCall::Clear => 0,
            _ => before,
        }
    }
}

/// From a fresh state (as [`ModeState::new`] makes it), the depth after any run of
/// calls is the number of successful pushes minus the number of successful pops
/// since the last clear; updating the modes and the reading methods leave it alone.
pub proof fn law_depth_counts_calls(states: Seq<ModeState>, calls: Seq<ModeCall>, oks: Seq<bool>)
    requires
        states.len() == calls.len() + 1,
        oks.len() == calls.len(),
        states[0].stack().len() == 0,
        forall|i: int| 0 <= i < calls.len() ==> mode_call(states[i], #[trigger] states[i + 1], calls[i], oks[i]),
    ensures
        states.last().stack().len() == net_depth(calls, oks),
    decreases calls.len(),
{
    if calls.len() > 0 {
        let n = calls.len() - 1;
        let states0 = states.take(n + 1);
        let calls0 = calls.drop_last();
        let oks0 = oks.take(n);
        assert forall|i: int| 0 <= i < calls0.len() implies mode_call(
            states0[i],
            #[trigger] states0[i + 1],
            calls0[i],
            oks0[i],
        ) by {
            assert(states0[i + 1] == states[i + 1]);
            assert(mode_call(states[i], states[i + 1], calls[i], oks[i]));
        }
        law_depth_counts_calls(states0, calls0, oks0);
        assert(states0.last() == states[n]);
        assert(mode_call(states[n], states[n + 1], calls[n], oks[n]));
        assert(calls.last() == calls[n]);
    }
}

} // verus!
