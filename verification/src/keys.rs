//! Configurable action keybindings with hardcoded fallbacks.

use vstd::prelude::*;
use crate::text::{chars_of, str_eq, string_of_all};

verus! {

/// Map of action names to key names, by their characters.
pub open spec fn pairs_map(s: Seq<(String, String)>) -> Map<Seq<char>, Seq<char>>
    decreases s.len(),
{
    if s.len() == 0 {
        Map::empty()
    } else {
        pairs_map(s.drop_last()).insert(s.last().0@, s.last().1@)
    }
}

/// No action name occurs twice.
pub open spec fn distinct_keys(s: Seq<(String, String)>) -> bool {
    forall|i: int, j: int| 0 <= i < j < s.len() ==> (#[trigger] s[i]).0@ != (#[trigger] s[j]).0@
}

proof fn lemma_pairs_map_lookup(s: Seq<(String, String)>, k: Seq<char>)
    requires
        distinct_keys(s),
    ensures
        pairs_map(s).contains_key(k) <==> exists|i: int| 0 <= i < s.len() && (#[trigger] s[i]).0@ == k,
        forall|i: int| 0 <= i < s.len() && (#[trigger] s[i]).0@ == k ==> pairs_map(s)[k] == s[i].1@,
    decreases s.len(),
{
    if s.len() > 0 {
        let t = s.drop_last();
        assert(distinct_keys(t));
        lemma_pairs_map_lookup(t, k);
        if pairs_map(s).contains_key(k) && s.last().0@ != k {
            let i = choose|i: int| 0 <= i < t.len() && (#[trigger] t[i]).0@ == k;
            assert(s[i] == t[i]);
        }
        if exists|i: int| 0 <= i < s.len() && (#[trigger] s[i]).0@ == k {
            let i = choose|i: int| 0 <= i < s.len() && (#[trigger] s[i]).0@ == k;
            if i < s.len() - 1 {
                assert(t[i] == s[i]);
            }
        }
        assert forall|i: int| 0 <= i < s.len() && (#[trigger] s[i]).0@ == k implies pairs_map(s)[k]
            == s[i].1@ by {
            if i < s.len() - 1 {
                assert(s[i] == t[i]);
                assert(s.last().0@ != k);
            }
        }
    }
}

proof fn lemma_pairs_map_update(s: Seq<(String, String)>, i: int, v: String)
    requires
        distinct_keys(s),
        0 <= i < s.len(),
    ensures
        distinct_keys(s.update(i, (s[i].0, v))),
        pairs_map(s.update(i, (s[i].0, v))) == pairs_map(s).insert(s[i].0@, v@),
    decreases s.len(),
{
    let u = s.update(i, (s[i].0, v));
    assert forall|a: int, b: int| 0 <= a < b < u.len() implies (#[trigger] u[a]).0@ != (
    #[trigger] u[b]).0@ by {
        assert(s[a].0@ != s[b].0@);
    }
    let t = s.drop_last();
    if i == s.len() - 1 {
        assert(u.drop_last() =~= t);
        assert(pairs_map(u) =~= pairs_map(t).insert(s[i].0@, v@));
        assert(pairs_map(s).insert(s[i].0@, v@) =~= pairs_map(t).insert(s[i].0@, s[i].1@).insert(
            s[i].0@,
            v@,
        ));
    } else {
        assert(distinct_keys(t));
        lemma_pairs_map_update(t, i, v);
        assert(u.drop_last() =~= t.update(i, (t[i].0, v)));
        assert(s.last().0@ != s[i].0@);
        assert(pairs_map(u) =~= pairs_map(t).insert(s[i].0@, v@).insert(s.last().0@, s.last().1@));
        assert(pairs_map(s).insert(s[i].0@, v@) =~= pairs_map(t).insert(s.last().0@, s.last().1@).insert(
            s[i].0@,
            v@,
        ));
    }
}

/// Action to key bindings (each action at most once).
pub struct KeyBindings {
    entries: Vec<(String, String)>,
}

impl View for KeyBindings {
    type V = Map<Seq<char>, Seq<char>>;

    closed spec fn view(&self) -> Map<Seq<char>, Seq<char>> {
        pairs_map(self.entries@)
    }
}

impl KeyBindings {
    #[verifier::type_invariant]
    spec fn wf(&self) -> bool {
        distinct_keys(self.entries@)
    }

    /// No bindings.
    pub fn new() -> (r: KeyBindings)
        ensures
            r@ == Map::<Seq<char>, Seq<char>>::empty(),
    {
        KeyBindings { entries: Vec::new() }
    }

    /// Index of `action`, if bound.
    fn position(&self, action: &str) -> (r: Option<usize>)
        ensures
            r matches Some(i) ==> i < self.entries@.len() && self.entries@[i as int].0@ == action@,
            r is None ==> forall|i: int| 0 <= i < self.entries@.len() ==> (
            #[trigger] self.entries@[i]).0@ != action@,
    {
        let mut i: usize = 0;
        while i < self.entries.len()
            invariant
                i <= self.entries@.len(),
                forall|j: int| 0 <= j < i ==> (#[trigger] self.entries@[j]).0@ != action@,
            decreases self.entries@.len() - i,
        {
            if str_eq(self.entries[i].0.as_str(), action) {
                return Some(i);
            }
            i += 1;
        }
        None
    }

    /// Binds `action` to `key`, replacing an earlier binding.
    pub fn insert(&mut self, action: String, key: String)
        ensures
            final(self)@ == old(self)@.insert(action@, key@),
    {
        proof {
            use_type_invariant(&*self);
        }
        let pos = self.position(action.as_str());
        let mut v: Vec<(String, String)> = Vec::new();
        std::mem::swap(&mut v, &mut self.entries);
        match pos {
            Some(i) => {
                proof {
                    lemma_pairs_map_update(v@, i as int, key);
                }
                let name = v[i].0.clone();
                v.set(i, (name, key));
            },
            None => {
                v.push((action, key));
                proof {
                    assert(v@.drop_last() =~= old(self).entries@);
                }
            },
        }
        self.entries = v;
    }

    /// The key bound to `action`.
    pub fn get(&self, action: &str) -> (r: Option<&str>)
        ensures
            r matches Some(k) ==> self@.contains_key(action@) && k@ == self@[action@],
            r is None ==> !self@.contains_key(action@),
    {
        proof {
            use_type_invariant(self);
            lemma_pairs_map_lookup(self.entries@, action@);
        }
        match self.position(action) {
            Some(i) => Some(self.entries[i].1.as_str()),
            None => None,
        }
    }

    /// The bindings as (action, key) pairs.
    pub fn pairs(&self) -> (r: Vec<(String, String)>)
        ensures
            pairs_map(r@) == self@,
            distinct_keys(r@),
    {
        proof {
            use_type_invariant(self);
        }
        let mut out: Vec<(String, String)> = Vec::new();
        let mut i: usize = 0;
        while i < self.entries.len()
            invariant
                i <= self.entries@.len(),
                out@ == self.entries@.take(i as int),
            decreases self.entries@.len() - i,
        {
            let (a, b) = (self.entries[i].0.clone(), self.entries[i].1.clone());
            out.push((a, b));
            proof {
                assert(out@ =~= self.entries@.take(i + 1));
            }
            i += 1;
        }
        proof {
            assert(self.entries@.take(self.entries@.len() as int) =~= self.entries@);
        }
        out
    }
}

/// The built-in bindings.
pub open spec fn default_map() -> Map<Seq<char>, Seq<char>> {
    Map::empty().insert("insert"@, "i"@).insert("quit"@, "q"@).insert("toggle_thinking"@, "t"@).insert(
        "jump_bottom"@,
        "G"@,
    ).insert("expand_tool"@, "e"@).insert("toggle_tree"@, "T"@).insert("toggle_sessions"@, "s"@).insert(
        "perm_once"@,
        "a"@,
    ).insert("perm_always"@, "A"@).insert("perm_path"@, "p"@).insert("perm_deny"@, "d"@)
}

/// Defaults overridden by every user binding with a nonempty key.
pub open spec fn merged_map(user: Map<Seq<char>, Seq<char>>) -> Map<Seq<char>, Seq<char>> {
    Map::new(
        |k: Seq<char>| default_map().contains_key(k) || (user.contains_key(k) && user[k].len() > 0),
        |k: Seq<char>|
            if user.contains_key(k) && user[k].len() > 0 {
                user[k]
            } else {
                default_map()[k]
            },
    )
}

fn bind(m: &mut KeyBindings, a: &str, k: &str)
    ensures
        final(m)@ == old(m)@.insert(a@, k@),
{
    let av = chars_of(a);
    let kv = chars_of(k);
    m.insert(string_of_all(&av), string_of_all(&kv));
}

/// Default action to single-character bindings.
pub fn default_keybindings() -> (r: KeyBindings)
    ensures
        r@ == default_map(),
{
    let mut m = KeyBindings::new();
    bind(&mut m, "insert", "i");
    bind(&mut m, "quit", "q");
    bind(&mut m, "toggle_thinking", "t");
    bind(&mut m, "jump_bottom", "G");
    bind(&mut m, "expand_tool", "e");
    bind(&mut m, "toggle_tree", "T");
    bind(&mut m, "toggle_sessions", "s");
    bind(&mut m, "perm_once", "a");
    bind(&mut m, "perm_always", "A");
    bind(&mut m, "perm_path", "p");
    bind(&mut m, "perm_deny", "d");
    m
}

/// Merge user overrides on top of defaults (empty keys are ignored).
pub fn merge_keybindings(user: &KeyBindings) -> (r: KeyBindings)
    ensures
        r@ == merged_map(user@),
{
    let mut m = default_keybindings();
    let ps = user.pairs();
    let mut i: usize = 0;
    let ghost um = user@;
    while i < ps.len()
        invariant
            i <= ps@.len(),
            distinct_keys(ps@),
            pairs_map(ps@) == um,
            m@ == Map::new(
                |k: Seq<char>| default_map().contains_key(k) || (pairs_map(ps@.take(i as int)).contains_key(k)
                    && pairs_map(ps@.take(i as int))[k].len() > 0),
                |k: Seq<char>|
                    if pairs_map(ps@.take(i as int)).contains_key(k) && pairs_map(ps@.take(i as int))[k].len()
                        > 0 {
                        pairs_map(ps@.take(i as int))[k]
                    } else {
                        default_map()[k]
                    },
            ),
        decreases ps@.len() - i,
    {
        let ghost before = m@;
        let ghost t = ps@.take(i as int);
        let ghost t1 = ps@.take(i + 1);
        proof {
            assert(t1.drop_last() =~= t);
            assert(t1.last() == ps@[i as int]);
            assert(distinct_keys(t));
            lemma_pairs_map_lookup(t, ps@[i as int].0@);
            assert forall|j: int| 0 <= j < t.len() implies (#[trigger] t[j]).0@ != ps@[i as int].0@ by {
                assert(t[j] == ps@[j]);
            }
        }
        if !ps[i].1.as_str().is_empty() {
            let (a, b) = (ps[i].0.clone(), ps[i].1.clone());
            m.insert(a, b);
        }
        proof {
            assert(m@ =~= Map::new(
                |k: Seq<char>| default_map().contains_key(k) || (pairs_map(t1).contains_key(k)
                    && pairs_map(t1)[k].len() > 0),
                |k: Seq<char>|
                    if pairs_map(t1).contains_key(k) && pairs_map(t1)[k].len() > 0 {
                        pairs_map(t1)[k]
                    } else {
                        default_map()[k]
                    },
            ));
        }
        i += 1;
    }
    proof {
        assert(ps@.take(ps@.len() as int) =~= ps@);
        assert(m@ =~= merged_map(um));
    }
    m
}

/// The key of a key press, as far as bindings can name it.
#[derive(Debug, Clone, Copy, PartialEq, Eq, Structural)]
pub enum KeyInputCode {
    Char(char),
    Enter,
    Esc,
    Tab,
    BackTab,
    Backspace,
    Up,
    Down,
    Left,
    Right,
    PageUp,
    PageDown,
    Other,
}

/// A key press: its key and whether Control or Alt was held.
#[derive(Debug, Clone, Copy, PartialEq, Eq, Structural)]
pub struct KeyInput {
    pub code: KeyInputCode,
    pub ctrl: bool,
    pub alt: bool,
}

/// ASCII lowercase of one character.
pub open spec fn ascii_lower(c: char) -> char {
    if 'A' <= c <= 'Z' {
        ((c as u32) + 32) as char
    } else {
        c
    }
}

/// ASCII uppercase of one character.
pub open spec fn ascii_upper(c: char) -> char {
    if 'a' <= c <= 'z' {
        ((c as u32) - 32) as char
    } else {
        c
    }
}

/// `str::eq_ignore_ascii_case`.
pub open spec fn eq_ignore_ascii_case(a: Seq<char>, b: Seq<char>) -> bool {
    a.len() == b.len() && forall|i: int| 0 <= i < a.len() ==> ascii_lower(#[trigger] a[i]) == ascii_lower(b[i])
}

/// Whether a key press matches `action` in `m`: no Control or Alt; a
/// character key matches a one-byte binding of that character; Enter, Esc
/// and Tab match the bindings `enter`, `esc`, `tab` in any ASCII case.
pub open spec fn binding_matches(m: Map<Seq<char>, Seq<char>>, action: Seq<char>, key: KeyInput) -> bool {
    if key.ctrl || key.alt || !m.contains_key(action) {
        false
    } else {
        let b = m[action];
        match key.code {
            KeyInputCode::Char(c) => b.len() == 1 && (b[0] as u32) < 0x80 && b[0] == c,
            KeyInputCode::Enter => eq_ignore_ascii_case(b, "enter"@),
            KeyInputCode::Esc => eq_ignore_ascii_case(b, "esc"@),
            KeyInputCode::Tab => eq_ignore_ascii_case(b, "tab"@),
            _ => false,
        }
    }
}

/// `binding_matches`, or for a letter also its other ASCII case.
pub open spec fn binding_matches_any_case(m: Map<Seq<char>, Seq<char>>, action: Seq<char>, key: KeyInput) -> bool {
    binding_matches(m, action, key) || match key.code {
        KeyInputCode::Char(c) => {
            let t = if 'A' <= c <= 'Z' {
                ascii_lower(c)
            } else {
                ascii_upper(c)
            };
            t != c && binding_matches(m, action, KeyInput { code: KeyInputCode::Char(t), ..key })
        },
        _ => false,
    }
}

fn ascii_lower_exec(c: char) -> (r: char)
    ensures
        r == ascii_lower(c),
{
    if 'A' <= c && c <= 'Z' {
        ((c as u8) + 32) as char
    } else {
        c
    }
}

fn ascii_upper_exec(c: char) -> (r: char)
    ensures
        r == ascii_upper(c),
{
    if 'a' <= c && c <= 'z' {
        ((c as u8) - 32) as char
    } else {
        c
    }
}

pub fn eq_ignore_case_str(a: &str, b: &str) -> (r: bool)
    ensures
        r == eq_ignore_ascii_case(a@, b@),
{
    let av = chars_of(a);
    let bv = chars_of(b);
    if av.len() != bv.len() {
        return false;
    }
    let mut i: usize = 0;
    while i < av.len()
        invariant
            i <= av@.len() == bv@.len(),
            av@ == a@,
            bv@ == b@,
            forall|j: int| 0 <= j < i ==> ascii_lower(#[trigger] av@[j]) == ascii_lower(bv@[j]),
        decreases av@.len() - i,
    {
        if ascii_lower_exec(av[i]) != ascii_lower_exec(bv[i]) {
            proof {
                assert(ascii_lower(av@[i as int]) != ascii_lower(bv@[i as int]));

            }
            return false;
        }
        i += 1;
    }
    true
}

/// Key map used to interpret normal-mode keys.
pub struct KeyMap {
    map: KeyBindings,
}

impl View for KeyMap {
    type V = Map<Seq<char>, Seq<char>>;

    closed spec fn view(&self) -> Map<Seq<char>, Seq<char>> {
        self.map@
    }
}

/// The key bound to `action`, or the empty text.
pub open spec fn binding_or_empty(m: Map<Seq<char>, Seq<char>>, action: Seq<char>) -> Seq<char> {
    if m.contains_key(action) {
        m[action]
    } else {
        seq![]
    }
}

/// The one-line key hint.
pub open spec fn hint_text(m: Map<Seq<char>, Seq<char>>) -> Seq<char> {
    "["@ + binding_or_empty(m, "insert"@) + "]=insert ["@ + binding_or_empty(m, "quit"@)
        + "]=quit ["@ + binding_or_empty(m, "toggle_thinking"@) + "]=think ["@
        + binding_or_empty(m, "expand_tool"@) + "]=tool ["@ + binding_or_empty(m, "toggle_tree"@)
        + "]=tree ["@ + binding_or_empty(m, "toggle_sessions"@) + "]=sessions"@
}

impl KeyMap {
    /// A key map over the given bindings.
    pub fn new(map: KeyBindings) -> (r: KeyMap)
        ensures
            r@ == map@,
    {
        KeyMap { map }
    }

    /// The key bound to `action` ("" when unbound).
    pub fn binding(&self, action: &str) -> (r: &str)
        ensures
            r@ == binding_or_empty(self@, action@),
    {
        match self.map.get(action) {
            Some(k) => k,
            None => {
                proof {
                    reveal_strlit("");
                }
                ""
            },
        }
    }

    /// Whether `key` matches the binding for `action` (character keys only
    /// without Control/Alt; Enter, Esc and Tab by name).
    pub fn matches(&self, action: &str, key: KeyInput) -> (r: bool)
        ensures
            r == binding_matches(self@, action@, key),
    {
        if key.ctrl || key.alt {
            return false;
        }
        let b = match self.map.get(action) {
            Some(b) => b,
            None => {
                return false;
            },
        };
        match key.code {
            KeyInputCode::Char(c) => {
                let bv = chars_of(b);
                bv.len() == 1 && (bv[0] as u32) < 0x80 && bv[0] == c
            },
            KeyInputCode::Enter => eq_ignore_case_str(b, "enter"),
            KeyInputCode::Esc => eq_ignore_case_str(b, "esc"),
            KeyInputCode::Tab => eq_ignore_case_str(b, "tab"),
            _ => false,
        }
    }

    /// `matches`, also trying the other ASCII case of a letter key (so a
    /// binding of `a` also matches Shift-A).
    pub fn key_matches(&self, action: &str, key: KeyInput) -> (r: bool)
        ensures
            r == binding_matches_any_case(self@, action@, key),
    {
        if self.matches(action, key) {
            return true;
        }
        match key.code {
            KeyInputCode::Char(c) => {
                let t = if 'A' <= c && c <= 'Z' {
                    ascii_lower_exec(c)
                } else {
                    ascii_upper_exec(c)
                };
                if t != c {
                    self.matches(action, KeyInput { code: KeyInputCode::Char(t), ..key })
                } else {
                    false
                }
            },
            _ => false,
        }
    }

    /// One-line hint of the main bindings.
    pub fn hint_line(&self) -> (r: String)
        ensures
            r@ == hint_text(self@),
    {
        let mut s = String::from_str("[");
        s.append(self.binding("insert"));
        s.append("]=insert [");
        s.append(self.binding("quit"));
        s.append("]=quit [");
        s.append(self.binding("toggle_thinking"));
        s.append("]=think [");
        s.append(self.binding("expand_tool"));
        s.append("]=tool [");
        s.append(self.binding("toggle_tree"));
        s.append("]=tree [");
        s.append(self.binding("toggle_sessions"));
        s.append("]=sessions");
        s
    }
}

/// A user binding with a key wins over the default; an action the user
/// leaves unbound (or binds to nothing) keeps its default; no other action
/// gets bound.
pub proof fn lemma_merge_prefers_user(user: Map<Seq<char>, Seq<char>>, action: Seq<char>)
    ensures
        user.contains_key(action) && user[action].len() > 0 ==> merged_map(user).contains_key(action)
            && merged_map(user)[action] == user[action],
        !(user.contains_key(action) && user[action].len() > 0) && default_map().contains_key(action)
            ==> merged_map(user).contains_key(action) && merged_map(user)[action] == default_map()[action],
        !(user.contains_key(action) && user[action].len() > 0) && !default_map().contains_key(action)
            ==> !merged_map(user).contains_key(action),
{
}

} // verus!
