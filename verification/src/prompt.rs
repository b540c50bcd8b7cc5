//! Tool input shown in the permission prompt: pretty-printed when it is
//! JSON, cut to a few short lines.

use vstd::prelude::*;
use crate::beads::opt_seq;
use crate::text::{
    chars_of, decimal, lines, lines_of, push_decimal, starts_with, str_starts_with, string_of_all,
    string_views, truncate, truncated, views,
};

verus! {

/// Named result of parsing text as a JSON value with `serde_json` and
/// printing it back with `serde_json::to_string_pretty`; `None` when the
/// text is not JSON.
pub uninterp spec fn spec_json_pretty(raw: Seq<char>) -> Option<Seq<char>>;

/// Calls `serde_json::from_str::<serde_json::Value>` on `raw` and, when it
/// parses, `serde_json::to_string_pretty` on the value; the outcome is named
/// `spec_json_pretty`.
#[verifier::external_body]
fn json_pretty(raw: &str) -> (r: Option<String>)
    ensures
        opt_seq(r) == spec_json_pretty(raw@),
{
    match serde_json::from_str::<serde_json::Value>(raw) {
        Ok(v) => match serde_json::to_string_pretty(&v) {
            Ok(s) => Some(s),
            Err(_) => None,
        },
        Err(_) => None,
    }
}

/// The marker for dropped lines: `… (N more line)` or `… (N more lines)`.
pub open spec fn more_lines(dropped: nat) -> Seq<char> {
    "\u{2026} ("@ + decimal(dropped) + " more line"@ + (if dropped == 1 {
        seq![]
    } else {
        "s"@
    }) + ")"@
}

/// The lines of `text`, each cut to `max_chars` characters (with an
/// ellipsis), at most `max_lines` of them followed by a marker counting the
/// rest.
pub open spec fn shown_lines(text: Seq<char>, max_lines: nat, max_chars: nat) -> Seq<Seq<char>> {
    let ls = lines(text).map_values(|l: Seq<char>| truncated(l, max_chars));
    if ls.len() > max_lines {
        ls.take(max_lines as int).push(more_lines((ls.len() - max_lines) as nat))
    } else {
        ls
    }
}

/// The lines shown for already formatted `text`.
pub fn permission_lines(text: &str, max_lines: usize, max_line_chars: usize) -> (r: Vec<String>)
    ensures
        string_views(r@) == shown_lines(text@, max_lines as nat, max_line_chars as nat),
{
    let v = chars_of(text);
    let ls = lines_of(&v);
    let ghost target = lines(text@).map_values(|l: Seq<char>| truncated(l, max_line_chars as nat));
    let mut out: Vec<String> = Vec::new();
    let mut i: usize = 0;
    while i < ls.len()
        invariant
            i <= ls.len(),
            views(ls@) == lines(text@),
            target == lines(text@).map_values(|l: Seq<char>| truncated(l, max_line_chars as nat)),
            string_views(out@) == target.take(i as int),
        decreases ls.len() - i,
    {
        let l = string_of_all(&ls[i]);
        let t = truncate(l.as_str(), max_line_chars);
        let ghost before = out@;
        out.push(t);
        proof {
            assert(views(ls@)[i as int] == ls@[i as int]@);
            assert(string_views(out@) =~= string_views(before).push(t@));
            assert(string_views(out@) =~= target.take(i + 1));
        }
        i += 1;
    }
    proof {
        assert(target.take(ls.len() as int) =~= target);
    }
    if out.len() > max_lines {
        let dropped = out.len() - max_lines;
        let ghost all = string_views(out@);
        out.truncate(max_lines);
        let mut m = "\u{2026} (".to_string();
        push_decimal(&mut m, dropped as u64);
        m.append(" more line");
        if dropped != 1 {
            m.append("s");
        }
        m.append(")");
        let ghost before = out@;
        out.push(m);
        proof {
            assert(string_views(before) =~= all.take(max_lines as int));
            assert(string_views(out@) =~= string_views(before).push(m@));
            if dropped == 1 {
                assert(m@ =~= more_lines(dropped as nat));
            }
        }
    }
    out
}

/// Tool input for the permission prompt: pretty-printed when it parses as
/// JSON (else as given), then cut to `max_lines` lines of `max_line_chars`
/// characters.
pub fn format_permission_input(raw: &str, max_lines: usize, max_line_chars: usize) -> (r: Vec<String>)
    ensures
        string_views(r@) == shown_lines(
            match spec_json_pretty(raw@) {
                Some(p) => p,
                None => raw@,
            },
            max_lines as nat,
            max_line_chars as nat,
        ),
{
    match json_pretty(raw) {
        Some(p) => permission_lines(p.as_str(), max_lines, max_line_chars),
        None => permission_lines(raw, max_lines, max_line_chars),
    }
}


/// How a line of the permission prompt is drawn.
#[derive(Clone, Copy, Debug, PartialEq, Eq, Structural)]
pub enum PromptTone {
    /// The request line, in the border colour.
    Title,
    /// Why the request is dangerous.
    Danger,
    /// Tool input and spacing.
    Body,
    /// The heading over the diff.
    Heading,
    /// A diff line that adds.
    Added,
    /// A diff line that removes.
    Removed,
    /// Any other diff line.
    Context,
}

/// One line of the permission prompt.
#[derive(Clone, Debug, PartialEq, Eq)]
pub struct PromptLine {
    pub tone: PromptTone,
    pub text: String,
}

/// The tone and characters of a prompt line.
pub open spec fn prompt_line_view(l: PromptLine) -> (PromptTone, Seq<char>) {
    (l.tone, l.text@)
}

/// The title of the permission modal: dangerous requests say so.
pub open spec fn permission_title_text(dangerous: bool) -> Seq<char> {
    if dangerous {
        "blocked \u{b7} dangerous"@
    } else {
        "blocked \u{b7} permission"@
    }
}

/// The title of the permission modal.
pub fn permission_title(dangerous: bool) -> (r: &'static str)
    ensures
        r@ == permission_title_text(dangerous),
{
    if dangerous {
        "blocked \u{b7} dangerous"
    } else {
        "blocked \u{b7} permission"
    }
}

/// A diff line adds when it starts with `+` but not `+++`, removes when it
/// starts with `-` but not `---`; anything else is context.
pub open spec fn diff_tone(line: Seq<char>) -> PromptTone {
    if starts_with(line, "+"@) && !starts_with(line, "+++"@) {
        PromptTone::Added
    } else if starts_with(line, "-"@) && !starts_with(line, "---"@) {
        PromptTone::Removed
    } else {
        PromptTone::Context
    }
}

/// The tone of a diff line.
pub fn diff_line_tone(line: &str) -> (r: PromptTone)
    ensures
        r == diff_tone(line@),
{
    if str_starts_with(line, "+") && !str_starts_with(line, "+++") {
        PromptTone::Added
    } else if str_starts_with(line, "-") && !str_starts_with(line, "---") {
        PromptTone::Removed
    } else {
        PromptTone::Context
    }
}

/// At most this many diff lines are shown.
pub const DIFF_PREVIEW_LINES: usize = 24;

/// A line indented by one space, in a tone.
pub open spec fn indented(tone: PromptTone, l: Seq<char>) -> (PromptTone, Seq<char>) {
    (tone, seq![' '] + l)
}

/// The lines of the permission prompt above its key hints: the request,
/// the danger reason when there is one, a blank line, the tool input, and,
/// when a diff preview is given, a blank line, a heading and the first 24
/// lines of the diff coloured by `diff_tone`. Every text line is indented
/// by one space.
pub open spec fn permission_body(
    tool: Seq<char>,
    danger: Option<Seq<char>>,
    input: Seq<Seq<char>>,
    diff: Option<Seq<char>>,
) -> Seq<(PromptTone, Seq<char>)> {
    seq![indented(PromptTone::Title, tool + " needs approval"@)] + (match danger {
        Some(r) => seq![indented(PromptTone::Danger, r)],
        None => seq![],
    }) + seq![(PromptTone::Body, seq![])] + input.map_values(
        |l: Seq<char>| indented(PromptTone::Body, l),
    ) + (match diff {
        Some(d) => seq![(PromptTone::Body, seq![]), indented(PromptTone::Heading, "Diff"@)]
            + lines(d).take(
            if lines(d).len() < DIFF_PREVIEW_LINES {
                lines(d).len() as int
            } else {
                DIFF_PREVIEW_LINES as int
            },
        ).map_values(|l: Seq<char>| indented(diff_tone(l), l)),
        None => seq![],
    })
}

/// A line indented by one space.
fn indented_line(tone: PromptTone, l: &str) -> (r: PromptLine)
    ensures
        prompt_line_view(r) == indented(tone, l@),
{
    let mut t = String::new();
    t.push(' ');
    t.append(l);
    proof {
        assert(t@ =~= seq![' '] + l@);
    }
    PromptLine { tone, text: t }
}

/// Builds the lines of the permission prompt (see `permission_body`).
pub fn permission_prompt_lines(
    tool: &str,
    danger: Option<&str>,
    input: &Vec<String>,
    diff: Option<&str>,
) -> (r: Vec<PromptLine>)
    ensures
        r@.map_values(|l: PromptLine| prompt_line_view(l)) == permission_body(
            tool@,
            match danger {
                Some(d) => Some(d@),
                None => None,
            },
            string_views(input@),
            match diff {
                Some(d) => Some(d@),
                None => None,
            },
        ),
{
    let ghost dv = match danger {
        Some(d) => Some(d@),
        None => None,
    };
    let ghost fv = match diff {
        Some(d) => Some(d@),
        None => None,
    };
    let ghost target = permission_body(tool@, dv, string_views(input@), fv);
    let mut out: Vec<PromptLine> = Vec::new();
    let mut head = tool.to_string();
    head.append(" needs approval");
    out.push(indented_line(PromptTone::Title, head.as_str()));
    if let Some(reason) = danger {
        out.push(indented_line(PromptTone::Danger, reason));
    }
    out.push(PromptLine { tone: PromptTone::Body, text: String::new() });
    let ghost prefix = out@.map_values(|l: PromptLine| prompt_line_view(l));
    proof {
        assert(prefix =~= seq![indented(PromptTone::Title, tool@ + " needs approval"@)] + (match dv {
            Some(r) => seq![indented(PromptTone::Danger, r)],
            None => seq![],
        }) + seq![(PromptTone::Body, Seq::<char>::empty())]);
    }
    let ghost ins = string_views(input@).map_values(|l: Seq<char>| indented(PromptTone::Body, l));
    let mut i: usize = 0;
    while i < input.len()
        invariant
            i <= input.len(),
            ins == string_views(input@).map_values(|l: Seq<char>| indented(PromptTone::Body, l)),
            out@.map_values(|l: PromptLine| prompt_line_view(l)) == prefix + ins.take(i as int),
        decreases input.len() - i,
    {
        let ghost before = out@;
        out.push(indented_line(PromptTone::Body, input[i].as_str()));
        proof {
            assert(out@.map_values(|l: PromptLine| prompt_line_view(l)) =~= before.map_values(
                |l: PromptLine| prompt_line_view(l),
            ).push(indented(PromptTone::Body, input@[i as int]@)));
            assert(ins.take(i + 1) =~= ins.take(i as int).push(ins[i as int]));
        }
        i += 1;
    }
    proof {
        assert(ins.take(input.len() as int) =~= ins);
    }
    if let Some(d) = diff {
        out.push(PromptLine { tone: PromptTone::Body, text: String::new() });
        out.push(indented_line(PromptTone::Heading, "Diff"));
        let ghost mid = out@.map_values(|l: PromptLine| prompt_line_view(l));
        proof {
            assert(mid =~= prefix + ins + seq![
                (PromptTone::Body, Seq::<char>::empty()),
                indented(PromptTone::Heading, "Diff"@),
            ]);
        }
        let v = chars_of(d);
        let ls = lines_of(&v);
        let n = if ls.len() < DIFF_PREVIEW_LINES {
            ls.len()
        } else {
            DIFF_PREVIEW_LINES
        };
        let ghost dl = lines(d@).take(n as int).map_values(|l: Seq<char>| indented(diff_tone(l), l));
        let mut k: usize = 0;
        while k < n
            invariant
                k <= n <= ls.len(),
                views(ls@) == lines(d@),
                dl == lines(d@).take(n as int).map_values(|l: Seq<char>| indented(diff_tone(l), l)),
                out@.map_values(|l: PromptLine| prompt_line_view(l)) == mid + dl.take(k as int),
            decreases n - k,
        {
            let line = string_of_all(&ls[k]);
            let tone = diff_line_tone(line.as_str());
            let ghost before = out@;
            out.push(indented_line(tone, line.as_str()));
            proof {
                assert(views(ls@)[k as int] == ls@[k as int]@);
                assert(out@.map_values(|l: PromptLine| prompt_line_view(l)) =~= before.map_values(
                    |l: PromptLine| prompt_line_view(l),
                ).push(indented(tone, line@)));
                assert(dl.take(k + 1) =~= dl.take(k as int).push(dl[k as int]));
            }
            k += 1;
        }
        proof {
            assert(dl.take(n as int) =~= dl);
            assert(out@.map_values(|l: PromptLine| prompt_line_view(l)) =~= target);
        }
    } else {
        proof {
            assert(out@.map_values(|l: PromptLine| prompt_line_view(l)) =~= target);
        }
    }
    out
}


/// A line of the question prompt above its key hints.
#[derive(Clone, Debug, PartialEq, Eq)]
pub enum QuestionLine<S> {
    /// The question, indented by one space.
    Question(S),
    Blank,
    /// A numbered choice: the number badge (` N `) and the indented text.
    Choice { badge: S, text: S },
}

/// The characters a question line holds.
pub open spec fn question_line_view(l: QuestionLine<String>) -> QuestionLine<Seq<char>> {
    match l {
        QuestionLine::Question(q) => QuestionLine::Question(q@),
        QuestionLine::Blank => QuestionLine::Blank,
        QuestionLine::Choice { badge, text } => QuestionLine::Choice { badge: badge@, text: text@ },
    }
}

/// The question prompt: the question, then (when there are options) a
/// blank line and the options numbered from 1, then a blank line.
pub open spec fn question_body(question: Seq<char>, options: Seq<Seq<char>>) -> Seq<QuestionLine<Seq<char>>> {
    seq![QuestionLine::Question(seq![' '] + question)] + (if options.len() > 0 {
        seq![QuestionLine::Blank] + Seq::new(
            options.len(),
            |i: int|
                QuestionLine::Choice {
                    badge: seq![' '] + decimal((i + 1) as nat) + seq![' '],
                    text: seq![' '] + options[i],
                },
        )
    } else {
        seq![]
    }) + seq![QuestionLine::Blank]
}

/// Builds the lines of the question prompt (see `question_body`).
pub fn question_prompt_lines(question: &str, options: &Vec<String>) -> (r: Vec<QuestionLine<String>>)
    ensures
        r@.map_values(|l: QuestionLine<String>| question_line_view(l)) == question_body(
            question@,
            string_views(options@),
        ),
{
    let ghost ov = string_views(options@);
    let mut out: Vec<QuestionLine<String>> = Vec::new();
    let mut q = String::new();
    q.push(' ');
    q.append(question);
    proof {
        assert(q@ =~= seq![' '] + question@);
    }
    out.push(QuestionLine::Question(q));
    if options.len() > 0 {
        out.push(QuestionLine::Blank);
        let ghost head = out@.map_values(|l: QuestionLine<String>| question_line_view(l));
        let ghost choices = Seq::new(
            ov.len(),
            |i: int|
                QuestionLine::Choice {
                    badge: seq![' '] + decimal((i + 1) as nat) + seq![' '],
                    text: seq![' '] + ov[i],
                },
        );
        let mut i: usize = 0;
        while i < options.len()
            invariant
                i <= options.len(),
                ov == string_views(options@),
                choices == Seq::new(
                    ov.len(),
                    |i: int|
                        QuestionLine::Choice {
                            badge: seq![' '] + decimal((i + 1) as nat) + seq![' '],
                            text: seq![' '] + ov[i],
                        },
                ),
                out@.map_values(|l: QuestionLine<String>| question_line_view(l)) == head + choices.take(
                    i as int,
                ),
            decreases options.len() - i,
        {
            let mut badge = String::new();
            badge.push(' ');
            push_decimal(&mut badge, (i + 1) as u64);
            badge.push(' ');
            let mut text = String::new();
            text.push(' ');
            text.append(options[i].as_str());
            let ghost before = out@;
            proof {
                assert(badge@ =~= seq![' '] + decimal((i + 1) as nat) + seq![' ']);
                assert(text@ =~= seq![' '] + ov[i as int]);
            }
            let line = QuestionLine::Choice { badge, text };
            out.push(line);
            proof {
                assert(question_line_view(line) == choices[i as int]);
                assert(out@.map_values(|l: QuestionLine<String>| question_line_view(l)) =~= before.map_values(
                    |l: QuestionLine<String>| question_line_view(l),
                ).push(choices[i as int]));
                assert(choices.take(i + 1) =~= choices.take(i as int).push(choices[i as int]));
            }
            i += 1;
        }
        proof {
            assert(choices.take(options.len() as int) =~= choices);
        }
    }
    let ghost mid = out@.map_values(|l: QuestionLine<String>| question_line_view(l));
    out.push(QuestionLine::Blank);
    proof {
        assert(out@.map_values(|l: QuestionLine<String>| question_line_view(l)) =~= mid.push(
            QuestionLine::Blank,
        ));
        assert(out@.map_values(|l: QuestionLine<String>| question_line_view(l)) =~= question_body(
            question@,
            ov,
        ));
    }
    out
}

} // verus!

