//! Tabbed settings modal state.

use vstd::prelude::*;
use crate::text::string_of_all;
use crate::text::chars_of;
use crate::theme::ThemeName;

verus! {

/// A tab of the settings modal.
#[derive(Debug, Clone, Copy, PartialEq, Eq, Structural)]
pub enum SettingsTab {
    Theme,
    Keys,
    Input,
    Alerts,
}

/// The tabs in display order.
pub open spec fn tab_order() -> Seq<SettingsTab> {
    seq![SettingsTab::Theme, SettingsTab::Keys, SettingsTab::Input, SettingsTab::Alerts]
}

/// Position of a tab in display order.
pub open spec fn tab_index(t: SettingsTab) -> int {
    match t {
        SettingsTab::Theme => 0,
        SettingsTab::Keys => 1,
        SettingsTab::Input => 2,
        SettingsTab::Alerts => 3,
    }
}

impl SettingsTab {
    /// The tabs in display order.
    pub fn all() -> (r: Vec<SettingsTab>)
        ensures
            r@ == tab_order(),
    {
        let mut v: Vec<SettingsTab> = Vec::new();
        v.push(SettingsTab::Theme);
        v.push(SettingsTab::Keys);
        v.push(SettingsTab::Input);
        v.push(SettingsTab::Alerts);
        proof {
            assert(v@ =~= tab_order());
        }
        v
    }

    /// Tab title.
    pub fn label(self) -> (r: &'static str)
        ensures
            r@ == (match self {
                SettingsTab::Theme => "Theme"@,
                SettingsTab::Keys => "Keys"@,
                SettingsTab::Input => "Input"@,
                SettingsTab::Alerts => "Alerts"@,
            }),
    {
        match self {
            SettingsTab::Theme => "Theme",
            SettingsTab::Keys => "Keys",
            SettingsTab::Input => "Input",
            SettingsTab::Alerts => "Alerts",
        }
    }

    /// The tab to the right, wrapping to the first.
    pub fn next(self) -> (r: SettingsTab)
        ensures
            tab_index(r) == (tab_index(self) + 1) % 4,
    {
        match self {
            SettingsTab::Theme => SettingsTab::Keys,
            SettingsTab::Keys => SettingsTab::Input,
            SettingsTab::Input => SettingsTab::Alerts,
            SettingsTab::Alerts => SettingsTab::Theme,
        }
    }

    /// The tab to the left, wrapping to the last.
    pub fn prev(self) -> (r: SettingsTab)
        ensures
            tab_index(r) == (tab_index(self) + 3) % 4,
    {
        match self {
            SettingsTab::Theme => SettingsTab::Alerts,
            SettingsTab::Keys => SettingsTab::Theme,
            SettingsTab::Input => SettingsTab::Keys,
            SettingsTab::Alerts => SettingsTab::Input,
        }
    }
}

/// The tab at a display position.
pub open spec fn tab_at(i: int) -> SettingsTab {
    tab_order()[i % 4]
}

/// `tab_index` and `tab_at` are inverse, so the tab after and before are
/// determined by their positions.
pub proof fn lemma_tab_index_inverse(t: SettingsTab)
    ensures
        0 <= tab_index(t) < 4,
        tab_at(tab_index(t)) == t,
        tab_order()[tab_index(t)] == t,
{
}

/// Moving right then left (or left then right) returns to the same tab,
/// and four moves right come back around.
pub proof fn lemma_tab_cycle(t: SettingsTab, n: SettingsTab, p: SettingsTab)
    requires
        tab_index(n) == (tab_index(t) + 1) % 4,
        tab_index(p) == (tab_index(n) + 3) % 4,
    ensures
        p == t,
{
}

/// State of the settings modal.
#[derive(Debug, Clone)]
pub struct SettingsState {
    pub tab: SettingsTab,
    pub theme: ThemeName,
    pub mouse_enabled: bool,
    pub toast: bool,
    pub toast_sound: bool,
    pub notify: String,
}

impl SettingsState {
    /// Opens the modal on the Theme tab with the app's current settings.
    pub fn from_app(
        theme: ThemeName,
        mouse_enabled: bool,
        toast: bool,
        toast_sound: bool,
        notify: &str,
    ) -> (r: SettingsState)
        ensures
            r.tab == SettingsTab::Theme,
            r.theme == theme,
            r.mouse_enabled == mouse_enabled,
            r.toast == toast,
            r.toast_sound == toast_sound,
            r.notify@ == notify@,
    {
        let v = chars_of(notify);
        SettingsState {
            tab: SettingsTab::Theme,
            theme,
            mouse_enabled,
            toast,
            toast_sound,
            notify: string_of_all(&v),
        }
    }
}

} // verus!
