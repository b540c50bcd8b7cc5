//! Text of the help and settings modals.

use vstd::prelude::*;
use crate::help::{EntryView, HelpEntry};
use crate::settings::{SettingsState, SettingsTab};
use crate::text::{chars_of, string_views};
use crate::theme::ThemeName;

verus! {

/// How a modal piece is drawn.
#[derive(Debug, Clone, Copy, PartialEq, Eq, Structural)]
pub enum ModalTone {
    /// Accent badge (the filter label, the current tab).
    Badge,
    Text,
    Subtext,
    Muted,
    Dim,
    Faint,
    Border,
    Accent,
    Highlight,
    Plain,
}

/// A modal line's pieces.
pub type ModalLine = Seq<(Seq<char>, ModalTone)>;

/// Views of modal lines.
pub open spec fn modal_views(s: Seq<Vec<(String, ModalTone)>>) -> Seq<ModalLine> {
    s.map_values(|l: Vec<(String, ModalTone)>| l@.map_values(|p: (String, ModalTone)| (p.0@, p.1)))
}

/// `s` padded with spaces to `w` characters (`{:w}`).
pub open spec fn pad_right(s: Seq<char>, w: nat) -> Seq<char> {
    if s.len() < w {
        s + Seq::new((w - s.len()) as nat, |i: int| ' ')
    } else {
        s
    }
}

/// One help line: keys padded to 12, description, group.
pub open spec fn help_row(e: EntryView) -> Seq<char> {
    " "@ + pad_right(e.keys, 12) + "  "@ + e.desc + " ("@ + e.group + ")"@
}

/// The help rows, the selected one (kept within the list) highlighted.
pub open spec fn help_rows(es: Seq<EntryView>, selection: nat) -> Seq<ModalLine> {
    let sel = if selection < es.len() {
        selection as int
    } else {
        es.len() - 1
    };
    Seq::new(
        es.len(),
        |i: int| seq![(help_row(es[i]), if i == sel { ModalTone::Highlight } else { ModalTone::Subtext })],
    )
}

/// The help modal: the filter, a rule, the matching rows (or a note that
/// none match) and the key hints.
pub open spec fn help_text_lines(query: Seq<char>, es: Seq<EntryView>, selection: nat) -> Seq<ModalLine> {
    seq![
        seq![
            (" filter "@, ModalTone::Badge),
            (" "@ + (if query.len() == 0 { "type to filter\u{2026}"@ } else { query }) + " "@, ModalTone::Text),
        ],
        seq![(Seq::new(40, |i: int| '\u{2500}'), ModalTone::Border)],
    ] + (if es.len() == 0 {
        seq![seq![(" (no matches)"@, ModalTone::Muted)]]
    } else {
        help_rows(es, selection)
    }) + seq![seq![(" Esc close \u{b7} \u{2191}\u{2193} select \u{b7} / clears with ctrl+u"@, ModalTone::Dim)]]
}

/// Height of the help modal for `n` matching rows (the count taken as a
/// `u16`, that is modulo 65536): 4 to 16 rows of entries plus the chrome.
pub open spec fn help_height(n: nat) -> nat {
    let m = n % 65536;
    (if m < 4 {
        4
    } else if m > 16 {
        16
    } else {
        m
    }) + 4
}

fn one(t: String, tone: ModalTone) -> (r: Vec<(String, ModalTone)>)
    ensures
        r@.map_values(|p: (String, ModalTone)| (p.0@, p.1)) == seq![(t@, tone)],
{
    let ghost tv = t@;
    let mut v: Vec<(String, ModalTone)> = Vec::new();
    v.push((t, tone));
    proof {
        assert(v@.map_values(|p: (String, ModalTone)| (p.0@, p.1)) =~= seq![(tv, tone)]);
    }
    v
}

fn push_modal(out: &mut Vec<Vec<(String, ModalTone)>>, line: Vec<(String, ModalTone)>)
    ensures
        modal_views(final(out)@) == modal_views(old(out)@).push(line@.map_values(|p: (String, ModalTone)| (p.0@, p.1))),
{
    let ghost before = out@;
    let ghost lv = line@.map_values(|p: (String, ModalTone)| (p.0@, p.1));
    out.push(line);
    proof {
        assert(modal_views(out@) =~= modal_views(before).push(lv));
    }
}

fn rule40() -> (r: String)
    ensures
        r@ == Seq::new(40, |i: int| '\u{2500}'),
{
    let mut s = String::new();
    let mut i: usize = 0;
    while i < 40
        invariant
            i <= 40,
            s@ == Seq::new(i as nat, |k: int| '\u{2500}'),
        decreases 40 - i,
    {
        s.push('\u{2500}');
        proof {
            assert(s@ =~= Seq::new((i + 1) as nat, |k: int| '\u{2500}'));
        }
        i += 1;
    }
    s
}

/// The help modal's lines for the filter, the matching entries and the
/// selection.
pub fn help_lines(query: &str, matched: &Vec<&HelpEntry>, selection: usize) -> (r: Vec<Vec<(String, ModalTone)>>)
    ensures
        modal_views(r@) == help_text_lines(query@, matched@.map_values(|e: &HelpEntry| e@), selection as nat),
{
    let ghost es = matched@.map_values(|e: &HelpEntry| e@);
    let mut out: Vec<Vec<(String, ModalTone)>> = Vec::new();
    proof {
        assert(modal_views(out@) =~= Seq::<ModalLine>::empty());
    }
    let mut head: Vec<(String, ModalTone)> = Vec::new();
    head.push((" filter ".to_string(), ModalTone::Badge));
    let mut q = " ".to_string();
    if query.is_empty() {
        q.append("type to filter\u{2026}");
    } else {
        q.append(query);
    }
    q.append(" ");
    let ghost qv = q@;
    head.push((q, ModalTone::Text));
    proof {
        assert(head@.map_values(|p: (String, ModalTone)| (p.0@, p.1)) =~= seq![(" filter "@, ModalTone::Badge), (qv, ModalTone::Text)]);
    }
    push_modal(&mut out, head);
    push_modal(&mut out, one(rule40(), ModalTone::Border));
    let ghost prefix = modal_views(out@);
    if matched.len() == 0 {
        push_modal(&mut out, one(" (no matches)".to_string(), ModalTone::Muted));
    } else {
        let sel = if selection < matched.len() {
            selection
        } else {
            matched.len() - 1
        };
        let mut i: usize = 0;
        while i < matched.len()
            invariant
                i <= matched.len(),
                matched.len() > 0,
                es == matched@.map_values(|e: &HelpEntry| e@),
                sel as int == (if (selection as nat) < es.len() {
                    selection as int
                } else {
                    es.len() - 1
                }),
                modal_views(out@) == prefix + help_rows(es, selection as nat).take(i as int),
            decreases matched.len() - i,
        {
            let e = matched[i];
            let mut t = " ".to_string();
            t.append(e.keys.as_str());
            let n = chars_of(e.keys.as_str()).len();
            let mut k = n;
            while k < 12
                invariant
                    n <= k <= 12 || (n > 12 && k == n),
                    n == e.keys@.len(),
                    t@ == " "@ + e.keys@ + Seq::new((k - n) as nat, |j: int| ' '),
                decreases 12 - k,
            {
                t.push(' ');
                proof {
                    assert(t@ =~= " "@ + e.keys@ + Seq::new((k + 1 - n) as nat, |j: int| ' '));
                }
                k += 1;
            }
            t.append("  ");
            t.append(e.desc.as_str());
            t.append(" (");
            t.append(e.group);
            t.append(")");
            proof {
                assert(es[i as int] == e@);
                if n < 12 {
                    assert(t@ =~= help_row(e@));
                } else {
                    assert(Seq::new((k - n) as nat, |j: int| ' ') =~= Seq::<char>::empty());
                    assert(t@ =~= help_row(e@));
                }
            }
            let tone = if i == sel {
                ModalTone::Highlight
            } else {
                ModalTone::Subtext
            };
            push_modal(&mut out, one(t, tone));
            proof {
                assert(help_rows(es, selection as nat).take(i + 1) =~= help_rows(es, selection as nat).take(i as int).push(
                    help_rows(es, selection as nat)[i as int],
                ));
            }
            i += 1;
        }
        proof {
            assert(help_rows(es, selection as nat).take(matched.len() as int) =~= help_rows(es, selection as nat));
        }
    }
    push_modal(
        &mut out,
        one(" Esc close \u{b7} \u{2191}\u{2193} select \u{b7} / clears with ctrl+u".to_string(), ModalTone::Dim),
    );
    proof {
        assert(modal_views(out@) =~= help_text_lines(query@, es, selection as nat));
    }
    out
}

/// Height of the help modal for `n` matching entries.
pub fn help_modal_height(n: usize) -> (r: u16)
    ensures
        r == help_height(n as nat),
{
    let m: usize = n % 65536;
    if m < 4 {
        8
    } else if m > 16 {
        20
    } else {
        m as u16 + 4
    }
}

/// Filled or empty dot.
pub open spec fn dot(on: bool) -> Seq<char> {
    if on {
        "\u{25cf}"@
    } else {
        "\u{25cb}"@
    }
}

/// Name of each theme.
pub open spec fn theme_name_text(t: ThemeName) -> Seq<char> {
    match t {
        ThemeName::Dark => "dark"@,
        ThemeName::Light => "light"@,
        ThemeName::Forest => "forest"@,
    }
}

/// Title of each settings tab.
pub open spec fn tab_title(t: SettingsTab) -> Seq<char> {
    match t {
        SettingsTab::Theme => "Theme"@,
        SettingsTab::Keys => "Keys"@,
        SettingsTab::Input => "Input"@,
        SettingsTab::Alerts => "Alerts"@,
    }
}

/// The tab bar: each tab's title in display order (the current one as a
/// badge), each followed by a gap.
pub open spec fn tab_bar(cur: SettingsTab) -> ModalLine {
    tab_bar_prefix(cur, 4)
}

/// The body of the current tab.
pub open spec fn tab_body(s: SettingsState) -> Seq<ModalLine> {
    match s.tab {
        SettingsTab::Theme => seq![
            seq![(" "@ + dot(s.theme == ThemeName::Dark) + " dark"@, if s.theme == ThemeName::Dark { ModalTone::Accent } else { ModalTone::Subtext })],
            seq![(" "@ + dot(s.theme == ThemeName::Light) + " light"@, if s.theme == ThemeName::Light { ModalTone::Accent } else { ModalTone::Subtext })],
            seq![(" "@ + dot(s.theme == ThemeName::Forest) + " forest"@, if s.theme == ThemeName::Forest { ModalTone::Accent } else { ModalTone::Subtext })],
            seq![(" \u{2190}/\u{2192} tabs \u{b7} \u{2191}/\u{2193} or 1/2/3 set theme \u{b7} Enter apply \u{b7} Esc close"@, ModalTone::Dim)],
        ],
        SettingsTab::Keys => seq![
            seq![(" Remap in ~/.rs-agent/config.toml [keybindings]"@, ModalTone::Subtext)],
            seq![(" /keys or ? for live cheat sheet"@, ModalTone::Subtext)],
        ],
        SettingsTab::Input => seq![
            seq![(" "@ + dot(s.mouse_enabled) + " mouse capture (toggle with m)"@, ModalTone::Text)],
            seq![(" disable_mouse in config.toml for native selection"@, ModalTone::Dim)],
        ],
        SettingsTab::Alerts => seq![
            seq![(" "@ + dot(s.toast) + " toast   "@ + dot(s.toast_sound) + " sound   notify="@ + s.notify@, ModalTone::Text)],
            seq![(" t toast \u{b7} s sound \u{b7} n cycle notify off|terminal|system"@, ModalTone::Dim)],
        ],
    }
}

/// The settings modal: tab bar, a blank line, the current tab's body.
pub open spec fn settings_text_lines(s: SettingsState) -> Seq<ModalLine> {
    seq![tab_bar(s.tab), seq![(seq![], ModalTone::Plain)]] + tab_body(s)
}

fn dot_str(on: bool) -> (r: &'static str)
    ensures
        r@ == dot(on),
{
    if on {
        "\u{25cf}"
    } else {
        "\u{25cb}"
    }
}

fn cat3(a: &str, b: &str, c: &str) -> (r: String)
    ensures
        r@ == a@ + b@ + c@,
{
    let mut s = a.to_string();
    s.append(b);
    s.append(c);
    s
}

/// The settings modal's lines.
pub fn settings_lines(state: &SettingsState) -> (r: Vec<Vec<(String, ModalTone)>>)
    ensures
        modal_views(r@) == settings_text_lines(*state),
{
    let mut out: Vec<Vec<(String, ModalTone)>> = Vec::new();
    proof {
        assert(modal_views(out@) =~= Seq::<ModalLine>::empty());
    }
    let mut bar: Vec<(String, ModalTone)> = Vec::new();
    let tabs = SettingsTab::all();
    let mut i: usize = 0;
    while i < tabs.len()
        invariant
            i <= tabs.len(),
            tabs@ == crate::settings::tab_order(),
            bar@.map_values(|p: (String, ModalTone)| (p.0@, p.1)) == tab_bar_prefix(state.tab, i as nat),
        decreases tabs.len() - i,
    {
        let t = tabs[i];
        let tone = if t == state.tab {
            ModalTone::Badge
        } else {
            ModalTone::Faint
        };
        let ghost before = bar@.map_values(|p: (String, ModalTone)| (p.0@, p.1));
        let title = cat3(" ", t.label(), " ");
        let ghost tv = title@;
        bar.push((title, tone));
        bar.push((" ".to_string(), ModalTone::Plain));
        proof {
            assert(bar@.map_values(|p: (String, ModalTone)| (p.0@, p.1)) =~= before + seq![(tv, tone), (" "@, ModalTone::Plain)]);
        }
        i += 1;
    }
    push_modal(&mut out, bar);
    push_modal(&mut out, one(String::new(), ModalTone::Plain));
    match state.tab {
        SettingsTab::Theme => {
            let d = state.theme == ThemeName::Dark;
            let l = state.theme == ThemeName::Light;
            let f = state.theme == ThemeName::Forest;
            push_modal(&mut out, one(cat3(" ", dot_str(d), " dark"), if d { ModalTone::Accent } else { ModalTone::Subtext }));
            push_modal(&mut out, one(cat3(" ", dot_str(l), " light"), if l { ModalTone::Accent } else { ModalTone::Subtext }));
            push_modal(&mut out, one(cat3(" ", dot_str(f), " forest"), if f { ModalTone::Accent } else { ModalTone::Subtext }));
            push_modal(&mut out, one(" \u{2190}/\u{2192} tabs \u{b7} \u{2191}/\u{2193} or 1/2/3 set theme \u{b7} Enter apply \u{b7} Esc close".to_string(), ModalTone::Dim));
        },
        SettingsTab::Keys => {
            push_modal(&mut out, one(" Remap in ~/.rs-agent/config.toml [keybindings]".to_string(), ModalTone::Subtext));
            push_modal(&mut out, one(" /keys or ? for live cheat sheet".to_string(), ModalTone::Subtext));
        },
        SettingsTab::Input => {
            push_modal(&mut out, one(cat3(" ", dot_str(state.mouse_enabled), " mouse capture (toggle with m)"), ModalTone::Text));
            push_modal(&mut out, one(" disable_mouse in config.toml for native selection".to_string(), ModalTone::Dim));
        },
        SettingsTab::Alerts => {
            let mut t = cat3(" ", dot_str(state.toast), " toast   ");
            t.append(dot_str(state.toast_sound));
            t.append(" sound   notify=");
            t.append(state.notify.as_str());
            push_modal(&mut out, one(t, ModalTone::Text));
            push_modal(&mut out, one(" t toast \u{b7} s sound \u{b7} n cycle notify off|terminal|system".to_string(), ModalTone::Dim));
        },
    }
    proof {
        assert(modal_views(out@) =~= settings_text_lines(*state));
    }
    out
}

/// The tab bar's pieces for the first `n` tabs.
pub open spec fn tab_bar_prefix(cur: SettingsTab, n: nat) -> ModalLine
    decreases n,
{
    if n == 0 {
        seq![]
    } else {
        let t = crate::settings::tab_order()[n - 1];
        tab_bar_prefix(cur, (n - 1) as nat) + seq![(" "@ + tab_title(t) + " "@, if t == cur { ModalTone::Badge } else { ModalTone::Faint }), (" "@, ModalTone::Plain)]
    }
}

} // verus!
