//! Keys inside the help overlay, the settings modal, the command palette,
//! the permission prompt, a pending question and while the agent works.

use vstd::prelude::*;
use crate::help::HelpOverlay;
use crate::keys::{binding_matches_any_case, KeyInput, KeyInputCode, KeyMap};
use crate::settings::{SettingsState, SettingsTab};
use crate::text::{chars_of, parse_usize, parse_usize_exec, string_of, string_views, trim, trim_str};
use crate::theme::ThemeName;

verus! {

/// `s` without its last character (unchanged when empty).
pub open spec fn popped(s: Seq<char>) -> Seq<char> {
    if s.len() == 0 {
        s
    } else {
        s.drop_last()
    }
}

/// Drop the last character of `s`, if any.
pub fn pop_char(s: &mut String)
    ensures
        final(s)@ == popped(old(s)@),
{
    let v = chars_of(s.as_str());
    if v.len() > 0 {
        *s = string_of(&v, 0, v.len() - 1);
        proof {
            assert(v@.subrange(0, v@.len() - 1) =~= v@.drop_last());
        }
    }
}

/// Whether the key is the plain (no Control) character `c`.
pub open spec fn is_char(k: KeyInput, c: char) -> bool {
    k.code == KeyInputCode::Char(c)
}

/// The help overlay after a key; `None` when it closes (Esc). Backspace
/// and Ctrl+U edit the filter and reset the selection, Up / Down move it,
/// other characters (without Control) extend the filter.
pub open spec fn help_after(q: Seq<char>, sel: int, k: KeyInput) -> Option<(Seq<char>, int)> {
    match k.code {
        KeyInputCode::Esc => None,
        KeyInputCode::Backspace => Some((popped(q), 0)),
        KeyInputCode::Up => Some((q, if sel > 0 { sel - 1 } else { 0 })),
        KeyInputCode::Down => Some((q, if sel < usize::MAX { sel + 1 } else { sel })),
        KeyInputCode::Char(c) => if k.ctrl {
            if c == 'u' {
                Some((seq![], 0))
            } else {
                Some((q, sel))
            }
        } else {
            Some((q.push(c), 0))
        },
        _ => Some((q, sel)),
    }
}

/// Handle a key in the help overlay; returns whether it closes.
pub fn help_key(overlay: &mut HelpOverlay, key: KeyInput) -> (closed: bool)
    ensures
        closed == (help_after(old(overlay).query@, old(overlay).selection as int, key) is None),
        !closed ==> help_after(old(overlay).query@, old(overlay).selection as int, key) == Some(
            (final(overlay).query@, final(overlay).selection as int),
        ),
{
    match key.code {
        KeyInputCode::Esc => true,
        KeyInputCode::Backspace => {
            pop_char(&mut overlay.query);
            overlay.selection = 0;
            false
        },
        KeyInputCode::Up => {
            overlay.selection = if overlay.selection > 0 {
                overlay.selection - 1
            } else {
                0
            };
            false
        },
        KeyInputCode::Down => {
            overlay.selection = if overlay.selection < usize::MAX {
                overlay.selection + 1
            } else {
                overlay.selection
            };
            false
        },
        KeyInputCode::Char(c) => {
            if key.ctrl {
                if c == 'u' {
                    overlay.query = String::new();
                    overlay.selection = 0;
                }
            } else {
                overlay.query.push(c);
                overlay.selection = 0;
            }
            false
        },
        _ => false,
    }
}

/// What a settings key does to the modal.
#[derive(Debug, Clone, Copy, PartialEq, Eq, Structural)]
pub enum SettingsOutcome {
    /// Close without applying.
    Close,
    /// Apply the settings and close.
    Apply,
    /// Keep the modal open.
    Stay,
}

/// The next notification mode: off, terminal, system, off again (an
/// unrecognized mode counts as off).
pub open spec fn next_notify(n: Seq<char>) -> Seq<char> {
    if n == "terminal"@ {
        "system"@
    } else if n == "system"@ {
        "off"@
    } else {
        "terminal"@
    }
}

/// Value of the settings modal.
pub struct SettingsView {
    pub tab: SettingsTab,
    pub theme: ThemeName,
    pub mouse_enabled: bool,
    pub toast: bool,
    pub toast_sound: bool,
    pub notify: Seq<char>,
}

/// View of the settings modal.
pub open spec fn settings_view(s: SettingsState) -> SettingsView {
    SettingsView {
        tab: s.tab,
        theme: s.theme,
        mouse_enabled: s.mouse_enabled,
        toast: s.toast,
        toast_sound: s.toast_sound,
        notify: s.notify@,
    }
}

/// The settings after a key: arrows and Tab switch tabs; on the theme tab
/// 1 / 2 / 3 pick dark / light / forest; `m` toggles mouse capture on the
/// input tab; `t`, `s`, `n` toggle toasts and sound and cycle the notify
/// mode on the alerts tab; Esc and Enter (close, apply) change nothing.
pub open spec fn settings_after(s: SettingsView, k: KeyInput) -> SettingsView {
    let tab = s.tab;
    match k.code {
        KeyInputCode::Left | KeyInputCode::BackTab => SettingsView { tab: crate::settings::tab_order()[
            (crate::settings::tab_index(tab) + 3) % 4], ..s },
        KeyInputCode::Right | KeyInputCode::Tab => SettingsView { tab: crate::settings::tab_order()[
            (crate::settings::tab_index(tab) + 1) % 4], ..s },
        KeyInputCode::Char(c) => if c == '1' && tab == SettingsTab::Theme {
            SettingsView { theme: ThemeName::Dark, ..s }
        } else if c == '2' && tab == SettingsTab::Theme {
            SettingsView { theme: ThemeName::Light, ..s }
        } else if c == '3' && tab == SettingsTab::Theme {
            SettingsView { theme: ThemeName::Forest, ..s }
        } else if c == 'm' && tab == SettingsTab::Input {
            SettingsView { mouse_enabled: !s.mouse_enabled, ..s }
        } else if c == 't' && tab == SettingsTab::Alerts {
            SettingsView { toast: !s.toast, ..s }
        } else if c == 's' && tab == SettingsTab::Alerts {
            SettingsView { toast_sound: !s.toast_sound, ..s }
        } else if c == 'n' && tab == SettingsTab::Alerts {
            SettingsView { notify: next_notify(s.notify), ..s }
        } else {
            s
        },
        _ => s,
    }
}

/// What a key does: Esc closes, Enter applies, anything else keeps the
/// modal open.
pub open spec fn settings_outcome(k: KeyInput) -> SettingsOutcome {
    match k.code {
        KeyInputCode::Esc => SettingsOutcome::Close,
        KeyInputCode::Enter => SettingsOutcome::Apply,
        _ => SettingsOutcome::Stay,
    }
}

/// Handle a key in the settings modal.
pub fn settings_key(st: &mut SettingsState, key: KeyInput) -> (r: SettingsOutcome)
    ensures
        r == settings_outcome(key),
        settings_view(*final(st)) == settings_after(settings_view(*old(st)), key),
{
    match key.code {
        KeyInputCode::Esc => SettingsOutcome::Close,
        KeyInputCode::Enter => SettingsOutcome::Apply,
        KeyInputCode::Left | KeyInputCode::BackTab => {
            st.tab = st.tab.prev();
            SettingsOutcome::Stay
        },
        KeyInputCode::Right | KeyInputCode::Tab => {
            st.tab = st.tab.next();
            SettingsOutcome::Stay
        },
        KeyInputCode::Char(c) => {
            if c == '1' && st.tab == SettingsTab::Theme {
                st.theme = ThemeName::Dark;
            } else if c == '2' && st.tab == SettingsTab::Theme {
                st.theme = ThemeName::Light;
            } else if c == '3' && st.tab == SettingsTab::Theme {
                st.theme = ThemeName::Forest;
            } else if c == 'm' && st.tab == SettingsTab::Input {
                st.mouse_enabled = !st.mouse_enabled;
            } else if c == 't' && st.tab == SettingsTab::Alerts {
                st.toast = !st.toast;
            } else if c == 's' && st.tab == SettingsTab::Alerts {
                st.toast_sound = !st.toast_sound;
            } else if c == 'n' && st.tab == SettingsTab::Alerts {
                let next = if crate::text::str_eq(st.notify.as_str(), "terminal") {
                    "system"
                } else if crate::text::str_eq(st.notify.as_str(), "system") {
                    "off"
                } else {
                    "terminal"
                };
                st.notify = next.to_string();
            }
            SettingsOutcome::Stay
        },
        _ => SettingsOutcome::Stay,
    }
}

/// What a palette key does.
#[derive(Debug, Clone, PartialEq, Eq)]
pub enum PaletteOutcome {
    /// Close the palette.
    Dismiss,
    /// Close the palette and run this command.
    Run(String),
    /// The filter changed: recompute the items.
    Refilter,
    /// Nothing more.
    Stay,
}

/// The palette's filter and selection after a key, with whether it closes,
/// which command it runs, and whether the items need recomputing.
pub open spec fn palette_after(q: Seq<char>, sel: int, items: Seq<Seq<char>>, k: KeyInput) -> (Seq<char>, int, int, Option<Seq<char>>) {
    match k.code {
        KeyInputCode::Esc => (q, sel, 0, None),
        KeyInputCode::Up => (q, if sel > 0 { sel - 1 } else { 0 }, 3, None),
        KeyInputCode::Down => {
            let s = if sel < usize::MAX { sel + 1 } else { sel };
            (q, if items.len() > 0 && s > items.len() - 1 { items.len() - 1 } else { s }, 3, None)
        },
        KeyInputCode::Backspace => (popped(q), sel, 2, None),
        KeyInputCode::Enter => if 0 <= sel < items.len() {
            (q, sel, 1, Some(items[sel]))
        } else {
            (q, sel, 3, None)
        },
        KeyInputCode::Char(c) => if !k.ctrl {
            (q.push(c), sel, 2, None)
        } else {
            (q, sel, 3, None)
        },
        _ => (q, sel, 3, None),
    }
}

/// Code of a palette outcome (0 dismiss, 1 run, 2 refilter, 3 stay) and
/// the command run.
pub open spec fn palette_outcome_view(o: PaletteOutcome) -> (int, Option<Seq<char>>) {
    match o {
        PaletteOutcome::Dismiss => (0, None),
        PaletteOutcome::Run(c) => (1, Some(c@)),
        PaletteOutcome::Refilter => (2, None),
        PaletteOutcome::Stay => (3, None),
    }
}

/// Handle a key in the command palette.
pub fn palette_key(query: &mut String, selection: &mut usize, items: &Vec<String>, key: KeyInput) -> (r: PaletteOutcome)
    ensures
        ({
            let a = palette_after(old(query)@, *old(selection) as int, string_views(items@), key);
            &&& final(query)@ == a.0
            &&& *final(selection) as int == a.1
            &&& palette_outcome_view(r) == (a.2, a.3)
        }),
{
    match key.code {
        KeyInputCode::Esc => PaletteOutcome::Dismiss,
        KeyInputCode::Up => {
            *selection = if *selection > 0 {
                *selection - 1
            } else {
                0
            };
            PaletteOutcome::Stay
        },
        KeyInputCode::Down => {
            let s = if *selection < usize::MAX {
                *selection + 1
            } else {
                *selection
            };
            *selection = if items.len() > 0 && s > items.len() - 1 {
                items.len() - 1
            } else {
                s
            };
            PaletteOutcome::Stay
        },
        KeyInputCode::Backspace => {
            pop_char(query);
            PaletteOutcome::Refilter
        },
        KeyInputCode::Enter => {
            if *selection < items.len() {
                proof {
                    assert(string_views(items@)[*selection as int] == items@[*selection as int]@);
                }
                PaletteOutcome::Run(items[*selection].clone())
            } else {
                PaletteOutcome::Stay
            }
        },
        KeyInputCode::Char(c) => {
            if !key.ctrl {
                query.push(c);
                PaletteOutcome::Refilter
            } else {
                PaletteOutcome::Stay
            }
        },
        _ => PaletteOutcome::Stay,
    }
}

/// An answer to the permission prompt.
#[derive(Debug, Clone, Copy, PartialEq, Eq, Structural)]
pub enum PermChoice {
    Once,
    Path,
    Always,
    Deny,
    /// Not an answer: the prompt stays.
    Keep,
}

/// Enter or the once binding allows once; then the path, always and deny
/// bindings (Esc denies too); any other key leaves the prompt up.
pub open spec fn perm_choice_of(m: Map<Seq<char>, Seq<char>>, k: KeyInput) -> PermChoice {
    if k.code == KeyInputCode::Enter || binding_matches_any_case(m, "perm_once"@, k) {
        PermChoice::Once
    } else if binding_matches_any_case(m, "perm_path"@, k) {
        PermChoice::Path
    } else if binding_matches_any_case(m, "perm_always"@, k) {
        PermChoice::Always
    } else if k.code == KeyInputCode::Esc || binding_matches_any_case(m, "perm_deny"@, k) {
        PermChoice::Deny
    } else {
        PermChoice::Keep
    }
}

/// The answer a key gives to the permission prompt.
pub fn permission_choice(keys: &KeyMap, key: KeyInput) -> (r: PermChoice)
    ensures
        r == perm_choice_of(keys@, key),
{
    if key.code == KeyInputCode::Enter || keys.key_matches("perm_once", key) {
        PermChoice::Once
    } else if keys.key_matches("perm_path", key) {
        PermChoice::Path
    } else if keys.key_matches("perm_always", key) {
        PermChoice::Always
    } else if key.code == KeyInputCode::Esc || keys.key_matches("perm_deny", key) {
        PermChoice::Deny
    } else {
        PermChoice::Keep
    }
}

/// The answer to a question: the trimmed input, or the option it numbers
/// (from 1); `None` (cancelled) when blank.
pub open spec fn answer_of(input: Seq<char>, options: Seq<Seq<char>>) -> Option<Seq<char>> {
    let a = trim(input);
    if a.len() == 0 {
        None
    } else {
        match parse_usize(a) {
            Some(n) => if 1 <= n <= options.len() {
                Some(options[n - 1])
            } else {
                Some(a)
            },
            None => Some(a),
        }
    }
}

/// Resolve the input as an answer to a question with `options`.
pub fn question_answer(input: &str, options: &Vec<String>) -> (r: Option<String>)
    ensures
        crate::beads::opt_seq(r) == answer_of(input@, string_views(options@)),
{
    let a = trim_str(input);
    if a.as_str().is_empty() {
        return None;
    }
    match parse_usize_exec(a.as_str()) {
        Some(n) => {
            if 1 <= n && n <= options.len() {
                proof {
                    assert(string_views(options@)[n - 1] == options@[n - 1]@);
                }
                Some(options[n - 1].clone())
            } else {
                Some(a)
            }
        },
        None => Some(a),
    }
}

/// What a key does while the agent works.
#[derive(Debug, Clone, Copy, PartialEq, Eq, Structural)]
pub enum WaitAction {
    Abort,
    NextTab,
    PrevTab,
    /// Send the input as steering.
    Steer,
    Type(char),
    Erase,
    Nothing,
}

/// Esc aborts; Tab / Shift+Tab (and, with the console shown, Up/`k` and
/// Down/`j`) switch console tabs; Enter steers with non-blank input;
/// other characters type and Backspace erases.
pub open spec fn wait_action_of(k: KeyInput, console_shown: bool, input_blank: bool) -> WaitAction {
    match k.code {
        KeyInputCode::Esc => WaitAction::Abort,
        KeyInputCode::Tab => WaitAction::NextTab,
        KeyInputCode::BackTab => WaitAction::PrevTab,
        KeyInputCode::Up => if console_shown { WaitAction::PrevTab } else { WaitAction::Nothing },
        KeyInputCode::Down => if console_shown { WaitAction::NextTab } else { WaitAction::Nothing },
        KeyInputCode::Enter => if input_blank { WaitAction::Nothing } else { WaitAction::Steer },
        KeyInputCode::Char(c) => if c == 'k' && console_shown {
            WaitAction::PrevTab
        } else if c == 'j' && console_shown {
            WaitAction::NextTab
        } else {
            WaitAction::Type(c)
        },
        KeyInputCode::Backspace => WaitAction::Erase,
        _ => WaitAction::Nothing,
    }
}

/// Decide what a key does while the agent works, given whether the console
/// is shown and the input line.
pub fn waiting_key(key: KeyInput, console_shown: bool, input: &str) -> (r: WaitAction)
    ensures
        r == wait_action_of(key, console_shown, trim(input@).len() == 0),
{
    let blank = trim_str(input).as_str().is_empty();
    match key.code {
        KeyInputCode::Esc => WaitAction::Abort,
        KeyInputCode::Tab => WaitAction::NextTab,
        KeyInputCode::BackTab => WaitAction::PrevTab,
        KeyInputCode::Up => if console_shown { WaitAction::PrevTab } else { WaitAction::Nothing },
        KeyInputCode::Down => if console_shown { WaitAction::NextTab } else { WaitAction::Nothing },
        KeyInputCode::Enter => if blank { WaitAction::Nothing } else { WaitAction::Steer },
        KeyInputCode::Char(c) => if c == 'k' && console_shown {
            WaitAction::PrevTab
        } else if c == 'j' && console_shown {
            WaitAction::NextTab
        } else {
            WaitAction::Type(c)
        },
        KeyInputCode::Backspace => WaitAction::Erase,
        _ => WaitAction::Nothing,
    }
}

} // verus!
