//! Tab completion of a slash command's argument from a list of names.

use vstd::prelude::*;
use crate::fuzzy::{rank_and_filter_checked, rank_result, rank_within_bounds};
use crate::normal_keys::{PickerMode, PickerState};
use crate::search::first_index;
use crate::text::{chars_of, is_whitespace, is_ws, spec_to_lowercase, starts_with, starts_with_exec, string_of, string_views, to_lowercase};

verus! {

/// The outcome of completing an argument.
#[derive(Debug, Clone, PartialEq, Eq)]
pub enum Completion {
    /// The input is not that command with a one-word argument.
    NotApplicable,
    /// No name matches.
    NoMatch,
    /// One name matches: the completed input.
    Complete(String),
    /// Several match: open a picker on them.
    Pick { prefix: String, query: String, results: Vec<String> },
    /// The argument or a name is too long to rank.
    TooLong,
}

/// Value of a completion: code (0 not applicable, 1 no match, 2 complete,
/// 3 pick, 4 too long), text (completed input, or the picker's prefix),
/// picker query and results.
pub open spec fn completion_view(c: Completion) -> (int, Seq<char>, Seq<char>, Seq<Seq<char>>) {
    match c {
        Completion::NotApplicable => (0, seq![], seq![], seq![]),
        Completion::NoMatch => (1, seq![], seq![], seq![]),
        Completion::Complete(t) => (2, t@, seq![], seq![]),
        Completion::Pick { prefix, query, results } => (3, prefix@, query@, string_views(results@)),
        Completion::TooLong => (4, seq![], seq![], seq![]),
    }
}

/// Whitespace characters.
pub open spec fn ws() -> spec_fn(char) -> bool {
    |c: char| is_ws(c)
}

/// Completing `text` as the command `cmd` (with its trailing space) and a
/// one-word argument against `names`: the names ranked for the lowercased
/// argument (all of them, in order, when it is empty), at most `cap`; one
/// match completes the input, several open a picker.
pub open spec fn completion_of(text: Seq<char>, cmd: Seq<char>, names: Seq<Seq<char>>, cap: nat) -> (int, Seq<char>, Seq<char>, Seq<Seq<char>>) {
    if !starts_with(text, cmd) {
        (0, seq![], seq![], seq![])
    } else {
        let rest = text.skip(cmd.len() as int);
        if first_index(rest, ws()) is Some {
            (0, seq![], seq![], seq![])
        } else {
            let q = spec_to_lowercase(rest);
            if q.len() > 0 && !rank_within_bounds(names, q) {
                (4, seq![], seq![], seq![])
            } else {
                let found = if q.len() == 0 {
                    names
                } else {
                    rank_result(names, q, cap)
                };
                if found.len() == 0 {
                    (1, seq![], seq![], seq![])
                } else if found.len() == 1 {
                    (2, cmd + found[0] + " "@, seq![], seq![])
                } else {
                    (3, cmd, rest, found)
                }
            }
        }
    }
}

fn copy_strings(v: &Vec<String>) -> (r: Vec<String>)
    ensures
        string_views(r@) == string_views(v@),
{
    let mut out: Vec<String> = Vec::new();
    let mut i: usize = 0;
    while i < v.len()
        invariant
            i <= v.len(),
            string_views(out@) == string_views(v@).take(i as int),
        decreases v.len() - i,
    {
        let ghost before = out@;
        out.push(v[i].clone());
        proof {
            assert(string_views(out@) =~= string_views(before).push(v@[i as int]@));
            assert(string_views(v@).take(i + 1) =~= string_views(v@).take(i as int).push(v@[i as int]@));
        }
        i += 1;
    }
    proof {
        assert(string_views(v@).take(v.len() as int) =~= string_views(v@));
    }
    out
}

/// Complete the argument of `cmd` in `text` from `names`.
pub fn complete_argument(text: &str, cmd: &str, names: &Vec<String>, cap: usize) -> (r: Completion)
    ensures
        completion_view(r) == completion_of(text@, cmd@, string_views(names@), cap as nat),
{
    let v = chars_of(text);
    let c = chars_of(cmd);
    if !starts_with_exec(&v, &c) {
        return Completion::NotApplicable;
    }
    let rest_v = crate::text::sub_vec(&v, c.len(), v.len());
    proof {
        assert(rest_v@ =~= text@.skip(cmd@.len() as int));
    }
    let mut i: usize = 0;
    while i < rest_v.len() && !is_whitespace(rest_v[i])
        invariant
            i <= rest_v.len(),
            forall|j: int| 0 <= j < i ==> !ws()(#[trigger] rest_v@[j]),
        decreases rest_v.len() - i,
    {
        i += 1;
    }
    if i < rest_v.len() {
        proof {
            crate::search::lemma_first_index_is(rest_v@, ws(), i as int);
        }
        return Completion::NotApplicable;
    }
    proof {
        crate::search::lemma_first_index_none(rest_v@, ws());
    }
    let rest = crate::text::string_of_all(&rest_v);
    let q = to_lowercase(rest.as_str());
    let found: Vec<String> = if q.as_str().is_empty() {
        copy_strings(names)
    } else {
        match rank_and_filter_checked(names.as_slice(), q.as_str(), cap) {
            Some(f) => f,
            None => {
                return Completion::TooLong;
            },
        }
    };
    if found.len() == 0 {
        Completion::NoMatch
    } else if found.len() == 1 {
        let mut t = cmd.to_string();
        t.append(found[0].as_str());
        t.append(" ");
        proof {
            assert(string_views(found@)[0] == found@[0]@);
        }
        Completion::Complete(t)
    } else {
        Completion::Pick { prefix: cmd.to_string(), query: rest, results: found }
    }
}

/// Choices of the commands with a fixed set of arguments.
pub open spec fn theme_choices() -> Seq<Seq<char>> {
    seq!["dark"@, "light"@, "forest"@]
}

/// Choices of `/mode`.
pub open spec fn mode_choices() -> Seq<Seq<char>> {
    seq!["plan"@, "ask"@, "agent"@]
}

/// Completion of `/theme` and `/mode` arguments (at most 20 ranked
/// choices): the first of the two commands that applies.
pub open spec fn fixed_completion(text: Seq<char>) -> (int, Seq<char>, Seq<char>, Seq<Seq<char>>) {
    let t = completion_of(text, "/theme "@, theme_choices(), 20);
    if t.0 != 0 {
        t
    } else {
        completion_of(text, "/mode "@, mode_choices(), 20)
    }
}

fn strings3(a: &str, b: &str, c: &str) -> (r: Vec<String>)
    ensures
        string_views(r@) == seq![a@, b@, c@],
{
    let mut v: Vec<String> = Vec::new();
    v.push(a.to_string());
    v.push(b.to_string());
    v.push(c.to_string());
    proof {
        assert(string_views(v@) =~= seq![a@, b@, c@]);
    }
    v
}

/// Complete a `/theme` or `/mode` argument.
pub fn complete_fixed(text: &str) -> (r: Completion)
    ensures
        completion_view(r) == fixed_completion(text@),
{
    let themes = strings3("dark", "light", "forest");
    let t = complete_argument(text, "/theme ", &themes, 20);
    match t {
        Completion::NotApplicable => {},
        _ => {
            return t;
        },
    }
    let modes = strings3("plan", "ask", "agent");
    complete_argument(text, "/mode ", &modes, 20)
}


/// What a completion does to the input line and the picker.
#[derive(Debug, Clone)]
pub enum CompletionEffect {
    /// Nothing changes (no command, no match, or a name too long to rank).
    Nothing,
    /// The input becomes this text.
    SetInput(String),
    /// The picker opens on these choices, first one selected; the input
    /// stays as it is.
    OpenPicker(PickerState),
}

/// The effect of a completion, with the picker opened in `mode`:
/// `(0, _, …)` nothing, `(1, input, …)` new input, `(2, _, prefix, query,
/// results)` an open picker with selection 0.
pub open spec fn completion_effect_of(c: (int, Seq<char>, Seq<char>, Seq<Seq<char>>)) -> (int, Seq<char>, Seq<char>, Seq<Seq<char>>) {
    if c.0 == 2 {
        (1, c.1, seq![], seq![])
    } else if c.0 == 3 {
        (2, c.1, c.2, c.3)
    } else {
        (0, seq![], seq![], seq![])
    }
}

/// The characters of a completion effect (see `completion_effect_of`); the
/// picker's mode and selection are stated apart.
pub open spec fn effect_view(e: CompletionEffect) -> (int, Seq<char>, Seq<char>, Seq<Seq<char>>) {
    match e {
        CompletionEffect::Nothing => (0, seq![], seq![], seq![]),
        CompletionEffect::SetInput(t) => (1, t@, seq![], seq![]),
        CompletionEffect::OpenPicker(p) => (2, p.prefix@, p.query@, string_views(p.results@)),
    }
}

/// Turn a completion into its effect, a picker opening in `mode`.
pub fn completion_effect(c: Completion, mode: PickerMode) -> (r: CompletionEffect)
    ensures
        effect_view(r) == completion_effect_of(completion_view(c)),
        r matches CompletionEffect::OpenPicker(p) ==> p.mode == mode && p.selection == 0,
{
    match c {
        Completion::Complete(t) => CompletionEffect::SetInput(t),
        Completion::Pick { prefix, query, results } => CompletionEffect::OpenPicker(
            PickerState { query, selection: 0, results, prefix, mode },
        ),
        _ => CompletionEffect::Nothing,
    }
}

/// Tab on `/theme …` or `/mode …`: the effect of the fixed completion, a
/// picker opening in prompt mode.
pub fn fixed_completion_effect(text: &str) -> (r: CompletionEffect)
    ensures
        effect_view(r) == completion_effect_of(fixed_completion(text@)),
        r matches CompletionEffect::OpenPicker(p) ==> p.mode == PickerMode::Prompt && p.selection == 0,
{
    completion_effect(complete_fixed(text), PickerMode::Prompt)
}

} // verus!

