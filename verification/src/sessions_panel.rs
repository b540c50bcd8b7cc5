//! Session switcher side panel: the rows it lists for the current project
//! (or all projects), and a selection that only rests on sessions and
//! actions.

use vstd::prelude::*;
use crate::beads::{copy_opt, opt_seq};
use crate::search::{first_index, is_first};
use crate::text::{spec_to_uppercase, to_uppercase, contains, decimal, push_decimal, take_chars, take_str};

verus! {

/// What the store lists of one saved session.
#[derive(Debug, Clone)]
pub struct SessionSummary {
    pub id: String,
    pub title: Option<String>,
    pub model: String,
    pub updated_at: String,
    pub message_count: usize,
    pub parent_id: Option<String>,
    pub branch_label: Option<String>,
    pub project_root: Option<String>,
}

/// Value of a session summary.
pub struct SummaryView {
    pub id: Seq<char>,
    pub title: Option<Seq<char>>,
    pub model: Seq<char>,
    pub updated_at: Seq<char>,
    pub message_count: nat,
    pub parent_id: Option<Seq<char>>,
    pub branch_label: Option<Seq<char>>,
    pub project_root: Option<Seq<char>>,
}

impl View for SessionSummary {
    type V = SummaryView;

    open spec fn view(&self) -> SummaryView {
        SummaryView {
            id: self.id@,
            title: opt_seq(self.title),
            model: self.model@,
            updated_at: self.updated_at@,
            message_count: self.message_count as nat,
            parent_id: opt_seq(self.parent_id),
            branch_label: opt_seq(self.branch_label),
            project_root: opt_seq(self.project_root),
        }
    }
}

impl SessionSummary {
    /// A copy with the same value.
    pub fn copy(&self) -> (r: SessionSummary)
        ensures
            r@ == self@,
    {
        SessionSummary {
            id: self.id.clone(),
            title: copy_opt(&self.title),
            model: self.model.clone(),
            updated_at: self.updated_at.clone(),
            message_count: self.message_count,
            parent_id: copy_opt(&self.parent_id),
            branch_label: copy_opt(&self.branch_label),
            project_root: copy_opt(&self.project_root),
        }
    }
}

/// One row of the panel.
#[derive(Debug, Clone)]
pub enum SessionRow {
    Header { title: String },
    Session { summary: SessionSummary },
    Action { id: &'static str, label: String },
    Hint { text: String },
}

/// Value of a panel row.
pub enum SessionRowView {
    Header(Seq<char>),
    Session(SummaryView),
    Action(Seq<char>, Seq<char>),
    Hint(Seq<char>),
}

impl View for SessionRow {
    type V = SessionRowView;

    open spec fn view(&self) -> SessionRowView {
        match self {
            SessionRow::Header { title } => SessionRowView::Header(title@),
            SessionRow::Session { summary } => SessionRowView::Session(summary@),
            SessionRow::Action { id, label } => SessionRowView::Action(id@, label@),
            SessionRow::Hint { text } => SessionRowView::Hint(text@),
        }
    }
}

/// Sessions and actions can be selected; headers and hints cannot.
pub open spec fn row_selectable(r: SessionRowView) -> bool {
    r is Session || r is Action
}

impl SessionRow {
    /// Whether the row can be selected.
    pub fn selectable(&self) -> (r: bool)
        ensures
            r == row_selectable(self@),
    {
        match self {
            SessionRow::Session { .. } | SessionRow::Action { .. } => true,
            _ => false,
        }
    }
}

/// Views of a list of rows.
pub open spec fn session_row_views(s: Seq<SessionRow>) -> Seq<SessionRowView> {
    s.map_values(|r: SessionRow| r@)
}

/// Views of a list of summaries.
pub open spec fn summary_views(s: Seq<SessionSummary>) -> Seq<SummaryView> {
    s.map_values(|r: SessionSummary| r@)
}

/// Short form of a session id: its first 8 characters.
pub open spec fn short_id_of(id: Seq<char>) -> Seq<char> {
    take_chars(id, 8)
}

/// Short form of a session id.
pub fn short_id(id: &str) -> (r: String)
    ensures
        r@ == short_id_of(id@),
{
    take_str(id, 8)
}

/// Title of the scope header.
pub open spec fn scope_title(show_all: bool) -> Seq<char> {
    "sessions \u{b7} "@ + if show_all {
        "ALL PROJECTS"@
    } else {
        "THIS PROJECT"@
    }
}

/// Label of the scope toggle action.
pub open spec fn toggle_label(show_all: bool) -> Seq<char> {
    if show_all {
        "\u{2299} show this project only"@
    } else {
        "\u{25ce} show all projects"@
    }
}

/// The panel's rows: scope header, working directory, the session running
/// in the background (if any), the sessions (or a hint when there are
/// none), then the actions and a key hint.
pub open spec fn panel_rows(
    show_all: bool,
    label: Seq<char>,
    bg: Option<Seq<char>>,
    list: Seq<SummaryView>,
) -> Seq<SessionRowView> {
    let head = seq![SessionRowView::Header(scope_title(show_all)), SessionRowView::Hint("cwd "@ + label)];
    let bg_rows = match bg {
        Some(b) => seq![SessionRowView::Hint("\u{25d0} bg "@ + short_id_of(b))],
        None => seq![],
    };
    let body = if list.len() == 0 {
        seq![SessionRowView::Hint("no sessions yet \u{2014} press n"@)]
    } else {
        seq![SessionRowView::Header("chats ("@ + decimal(list.len()) + ")"@)] + list.map_values(
            |s: SummaryView| SessionRowView::Session(s),
        )
    };
    let tail = seq![
        SessionRowView::Header("actions"@),
        SessionRowView::Action("new"@, "\u{ff0b} new session in project"@),
        SessionRowView::Action("toggle_scope"@, toggle_label(show_all)),
        SessionRowView::Hint("\u{2191}\u{2193} \u{b7} Enter switch \u{b7} n new \u{b7} a all"@),
    ];
    head + bg_rows + body + tail
}

fn push_row(rows: &mut Vec<SessionRow>, row: SessionRow)
    ensures
        session_row_views(final(rows)@) == session_row_views(old(rows)@).push(row@),
{
    let ghost before = rows@;
    rows.push(row);
    proof {
        assert(session_row_views(rows@) =~= session_row_views(before).push(row@));
    }
}

fn text_of(a: &str, b: &str) -> (r: String)
    ensures
        r@ == a@ + b@,
{
    let mut s = a.to_string();
    s.append(b);
    s
}

/// The panel's rows for a scope, a working-directory label, the session
/// running in the background, and the listed sessions.
pub fn build_rows(show_all: bool, label: &str, bg: Option<&str>, list: &Vec<SessionSummary>) -> (r:
    Vec<SessionRow>)
    ensures
        session_row_views(r@) == panel_rows(
            show_all,
            label@,
            match bg {
                Some(b) => Some(b@),
                None => None,
            },
            summary_views(list@),
        ),
{
    let mut rows: Vec<SessionRow> = Vec::new();
    let scope = if show_all {
        "ALL PROJECTS"
    } else {
        "THIS PROJECT"
    };
    push_row(&mut rows, SessionRow::Header { title: text_of("sessions \u{b7} ", scope) });
    push_row(&mut rows, SessionRow::Hint { text: text_of("cwd ", label) });
    match bg {
        Some(b) => {
            let short = short_id(b);
            push_row(&mut rows, SessionRow::Hint { text: text_of("\u{25d0} bg ", short.as_str()) });
        },
        None => {},
    }
    let ghost mid = session_row_views(rows@);
    if list.len() == 0 {
        push_row(&mut rows, SessionRow::Hint { text: "no sessions yet \u{2014} press n".to_string() });
    } else {
        let mut t = "chats (".to_string();
        push_decimal(&mut t, list.len() as u64);
        t.append(")");
        push_row(&mut rows, SessionRow::Header { title: t });
        let ghost start = session_row_views(rows@);
        let ghost sv = summary_views(list@).map_values(|s: SummaryView| SessionRowView::Session(s));
        let mut i: usize = 0;
        while i < list.len()
            invariant
                i <= list.len(),
                sv == summary_views(list@).map_values(|s: SummaryView| SessionRowView::Session(s)),
                session_row_views(rows@) == start + sv.take(i as int),
            decreases list.len() - i,
        {
            let s = list[i].copy();
            push_row(&mut rows, SessionRow::Session { summary: s });
            proof {
                assert(sv.take(i + 1) =~= sv.take(i as int).push(sv[i as int]));
            }
            i += 1;
        }
        proof {
            assert(sv.take(list.len() as int) =~= sv);
        }
    }
    push_row(&mut rows, SessionRow::Header { title: "actions".to_string() });
    push_row(
        &mut rows,
        SessionRow::Action { id: "new", label: "\u{ff0b} new session in project".to_string() },
    );
    let toggle = if show_all {
        "\u{2299} show this project only"
    } else {
        "\u{25ce} show all projects"
    };
    push_row(&mut rows, SessionRow::Action { id: "toggle_scope", label: toggle.to_string() });
    push_row(
        &mut rows,
        SessionRow::Hint { text: "\u{2191}\u{2193} \u{b7} Enter switch \u{b7} n new \u{b7} a all".to_string() },
    );
    proof {
        let t = panel_rows(
            show_all,
            label@,
            match bg {
                Some(b) => Some(b@),
                None => None,
            },
            summary_views(list@),
        );
        assert(session_row_views(rows@) =~= t);
    }
    rows
}

/// Positions visited when stepping `delta` at a time from `sel`, wrapping
/// among `n` rows: `n` steps.
pub open spec fn probes(sel: int, delta: int, n: int) -> Seq<int> {
    Seq::new(n as nat, |j: int| (sel + (j + 1) * delta) % n)
}

/// Positions holding a selectable row.
pub open spec fn selectable_at(rows: Seq<SessionRowView>) -> spec_fn(int) -> bool {
    |p: int| 0 <= p < rows.len() && row_selectable(rows[p])
}

/// Selection after stepping by `delta` to the next selectable row
/// (wrapping); unchanged when there is none.
pub open spec fn moved(rows: Seq<SessionRowView>, sel: int, delta: int) -> int {
    if rows.len() == 0 {
        sel
    } else {
        match first_index(probes(sel, delta, rows.len() as int), selectable_at(rows)) {
            Some(j) => probes(sel, delta, rows.len() as int)[j],
            None => sel,
        }
    }
}

/// Selection kept on a row, moved forward (else backward) off a row that
/// cannot be selected.
pub open spec fn clamped(rows: Seq<SessionRowView>, sel: int) -> int {
    if rows.len() == 0 {
        0
    } else {
        let s = if sel >= rows.len() {
            rows.len() - 1
        } else {
            sel
        };
        if row_selectable(rows[s]) {
            s
        } else {
            let m = moved(rows, s, 1);
            if 0 <= m < rows.len() && row_selectable(rows[m]) {
                m
            } else {
                moved(rows, m, -1)
            }
        }
    }
}

/// Rows of the session with id `id`.
pub open spec fn session_with_id(id: Seq<char>) -> spec_fn(SessionRowView) -> bool {
    |r: SessionRowView|
        match r {
            SessionRowView::Session(s) => s.id == id,
            _ => false,
        }
}

/// Panel state.
#[derive(Debug)]
pub struct SessionsPanelState {
    pub rows: Vec<SessionRow>,
    pub selection: usize,
    pub show_all: bool,
    pub project_root: Option<String>,
    pub active_id: String,
    pub bg_running_id: Option<String>,
}

/// Value of the panel state.
pub struct SessionsView {
    pub rows: Seq<SessionRowView>,
    pub selection: int,
    pub show_all: bool,
    pub project_root: Option<Seq<char>>,
    pub active_id: Seq<char>,
    pub bg_running_id: Option<Seq<char>>,
}

impl View for SessionsPanelState {
    type V = SessionsView;

    open spec fn view(&self) -> SessionsView {
        SessionsView {
            rows: session_row_views(self.rows@),
            selection: self.selection as int,
            show_all: self.show_all,
            project_root: opt_seq(self.project_root),
            active_id: self.active_id@,
            bg_running_id: opt_seq(self.bg_running_id),
        }
    }
}

impl Default for SessionsPanelState {
    fn default() -> (r: Self)
        ensures
            r@.rows.len() == 0,
            r@.selection == 0,
            !r@.show_all,
            r@.project_root is None,
            r@.active_id.len() == 0,
            r@.bg_running_id is None,
    {
        SessionsPanelState {
            rows: Vec::new(),
            selection: 0,
            show_all: false,
            project_root: None,
            active_id: String::new(),
            bg_running_id: None,
        }
    }
}

impl SessionsPanelState {
    /// Step the selection by `delta` to the next selectable row, wrapping;
    /// unchanged when no row can be selected.
    pub fn move_sel(&mut self, delta: i32)
        requires
            old(self).rows.len() <= i32::MAX,
            old(self).selection <= i32::MAX,
        ensures
            final(self)@ == (SessionsView { selection: moved(old(self)@.rows, old(self)@.selection, delta as int), ..old(self)@ }),
    {
        if self.rows.len() == 0 {
            return;
        }
        let ghost rv = self@.rows;
        let ghost sel = self.selection as int;
        let ghost ps = probes(sel, delta as int, rv.len() as int);
        let n = self.rows.len() as i64;
        let mut idx: i64 = self.selection as i64;
        let mut k: i64 = 0;
        while k < n
            invariant
                0 <= k <= n,
                n == rv.len(),
                n <= i32::MAX,
                rv == self@.rows,
                self@ == old(self)@,
                sel == self.selection,
                ps == probes(sel, delta as int, rv.len() as int),
                k == 0 ==> idx == sel,
                k > 0 ==> idx == ps[k - 1],
                0 <= idx <= i32::MAX,
                forall|j: int| 0 <= j < k ==> !selectable_at(rv)(#[trigger] ps[j]),
            decreases n - k,
        {
            let ghost prev = idx as int;
            idx = crate::focus::rem_euclid(idx + delta as i64, n);
            proof {
                let m = rv.len() as int;
                assert(sel + k * delta + delta == sel + (k + 1) * delta) by (nonlinear_arith);
                if k > 0 {
                    vstd::arithmetic::div_mod::lemma_add_mod_noop_right(delta as int, sel + k * delta, m);
                    assert(prev + delta == delta + prev);
                    assert((delta + (sel + k * delta)) % m == (sel + (k + 1) * delta) % m);
                } else {
                    assert(prev + delta == sel + (k + 1) * delta);
                }
                assert(ps[k as int] == (sel + (k + 1) * delta) % m);
                assert(ps[k as int] == idx);
            }
            let iu = idx as usize;
            if self.rows[iu].selectable() {
                proof {
                    assert(ps[k as int] == idx);
                    crate::search::lemma_first_index_is(ps, selectable_at(rv), k as int);
                }
                self.selection = iu;
                return;
            }
            proof {
                assert(ps[k as int] == idx);
                assert(!selectable_at(rv)(ps[k as int]));
            }
            k += 1;
        }
        proof {
            crate::search::lemma_first_index_none(ps, selectable_at(rv));
        }
    }
}

/// Stepping keeps a selection that lies on a row on a row.
pub proof fn lemma_moved_in_range(rows: Seq<SessionRowView>, sel: int, delta: int)
    requires
        0 <= sel < rows.len(),
    ensures
        0 <= moved(rows, sel, delta) < rows.len(),
{
    let ps = probes(sel, delta, rows.len() as int);
    crate::search::lemma_first_index_some(ps, selectable_at(rows));
    match first_index(ps, selectable_at(rows)) {
        Some(j) => {
            vstd::arithmetic::div_mod::lemma_mod_bound(sel + (j + 1) * delta, rows.len() as int);
        },
        None => {},
    }
}

/// Where the store's sessions are listed from: all projects (`None`) or
/// the project root, when there is one and the panel is not showing all.
pub open spec fn listing_root_of(show_all: bool, root: Option<Seq<char>>) -> Option<Seq<char>> {
    if show_all {
        None
    } else {
        root
    }
}

/// Where the store's sessions are listed from (see `listing_root_of`).
pub fn listing_root(show_all: bool, root: &Option<String>) -> (r: Option<String>)
    ensures
        opt_seq(r) == listing_root_of(show_all, opt_seq(*root)),
{
    if show_all {
        None
    } else {
        copy_opt(root)
    }
}

/// Calls `std::path::Path::file_name` on a UTF-8 path. The final component
/// depends on the platform's separators, so no name is given to it; what is
/// stated is that a returned component is a piece of the path's own text.
#[verifier::external_body]
fn file_name(path: &str) -> (r: Option<String>)
    ensures
        r matches Some(n) ==> contains(path@, n@),
{
    match std::path::Path::new(path).file_name() {
        Some(n) => match n.to_str() {
            Some(s) => Some(s.to_string()),
            None => None,
        },
        None => None,
    }
}

/// The leaf of a path given its final component: the component, else the
/// whole path.
pub open spec fn leaf_or_path(path: Seq<char>, name: Option<Seq<char>>) -> Seq<char> {
    match name {
        Some(n) => n,
        None => path,
    }
}

/// Last component of a path, or the path itself when it has none.
pub fn path_leaf(path: &str) -> (r: String)
    ensures
        r@ == path@ || contains(path@, r@),
{
    let name = file_name(path);
    leaf_of(path, name)
}

/// The leaf of `path` given its final component `name`.
pub fn leaf_of(path: &str, name: Option<String>) -> (r: String)
    ensures
        r@ == leaf_or_path(path@, opt_seq(name)),
{
    match name {
        Some(n) => n,
        None => path.to_string(),
    }
}

/// Selection after the rows were rebuilt: on the active session's row if
/// it is listed, else clamped onto a selectable row.
pub open spec fn reselected(rows: Seq<SessionRowView>, sel: int, active: Seq<char>) -> int {
    match first_index(rows, session_with_id(active)) {
        Some(i) => i,
        None => clamped(rows, sel),
    }
}

/// Sessions listed, with the active one put first when it is missing from
/// the listing and could be loaded.
pub open spec fn with_active(list: Seq<SummaryView>, active: Seq<char>, loaded: Option<SummaryView>) -> Seq<SummaryView> {
    if exists|i: int| 0 <= i < list.len() && (#[trigger] list[i]).id == active {
        list
    } else {
        match loaded {
            Some(s) => seq![s] + list,
            None => list,
        }
    }
}

impl SessionsPanelState {
    /// Keep the selection on a row, off headers and hints where possible.
    pub fn clamp_selection(&mut self)
        requires
            old(self).rows.len() <= i32::MAX,
        ensures
            final(self)@ == (SessionsView { selection: clamped(old(self)@.rows, old(self)@.selection), ..old(self)@ }),
    {
        let ghost v0 = self@;
        if self.rows.len() == 0 {
            self.selection = 0;
            return;
        }
        if self.selection >= self.rows.len() {
            self.selection = self.rows.len() - 1;
        }
        if !self.rows[self.selection].selectable() {
            let ghost s = self.selection as int;
            self.move_sel(1);
            proof {
                lemma_moved_in_range(v0.rows, s, 1);
            }
            let ok = self.selection < self.rows.len() && self.rows[self.selection].selectable();
            if !ok {
                self.move_sel(-1);
            }
        }
    }

    /// The row under the selection.
    pub fn selected_row(&self) -> (r: Option<&SessionRow>)
        ensures
            (if self.selection < self.rows.len() {
                r matches Some(row) && row@ == self@.rows[self.selection as int]
            } else {
                r is None
            }),
    {
        if self.selection < self.rows.len() {
            Some(&self.rows[self.selection])
        } else {
            None
        }
    }
}

/// View of an optional summary.
pub open spec fn opt_summary(o: Option<SessionSummary>) -> Option<SummaryView> {
    match o {
        Some(s) => Some(s@),
        None => None,
    }
}

/// Position of the first row of the session `id`.
fn session_row_index(rows: &Vec<SessionRow>, id: &str) -> (r: Option<usize>)
    ensures
        r matches Some(i) ==> first_index(session_row_views(rows@), session_with_id(id@)) == Some(i as int),
        r is None ==> first_index(session_row_views(rows@), session_with_id(id@)) is None,
{
    let ghost rv = session_row_views(rows@);
    let mut i: usize = 0;
    while i < rows.len()
        invariant
            i <= rows.len(),
            rv == session_row_views(rows@),
            rv.len() == rows.len(),
            forall|j: int| 0 <= j < i ==> !session_with_id(id@)(#[trigger] rv[j]),
        decreases rows.len() - i,
    {
        let hit = match &rows[i] {
            SessionRow::Session { summary } => crate::text::str_eq(summary.id.as_str(), id),
            _ => false,
        };
        if hit {
            proof {
                crate::search::lemma_first_index_is(rv, session_with_id(id@), i as int);
            }
            return Some(i);
        }
        i += 1;
    }
    proof {
        crate::search::lemma_first_index_none(rv, session_with_id(id@));
    }
    None
}

/// The listing with the active session put first when it is missing and
/// was loaded.
pub fn add_active(listed: Vec<SessionSummary>, active_id: &str, loaded: Option<SessionSummary>) -> (r:
    Vec<SessionSummary>)
    ensures
        summary_views(r@) == with_active(
            summary_views(listed@),
            active_id@,
opt_summary(loaded),
        ),
{
    let ghost sv = summary_views(listed@);
    let mut i: usize = 0;
    while i < listed.len()
        invariant
            i <= listed.len(),
            sv == summary_views(listed@),
            forall|j: int| 0 <= j < i ==> (#[trigger] sv[j]).id != active_id@,
        decreases listed.len() - i,
    {
        if crate::text::str_eq(listed[i].id.as_str(), active_id) {
            proof {
                assert(sv[i as int].id == active_id@);
            }
            return listed;
        }
        i += 1;
    }
    let mut out = listed;
    match loaded {
        Some(s) => {
            let ghost sview = s@;
            out.insert(0, s);
            proof {
                assert(summary_views(out@) =~= seq![sview] + sv);
            }
        },
        None => {},
    }
    out
}

impl SessionsPanelState {
    /// Rebuild the rows for the active session, the session running in the
    /// background, the project root (shown as `label`), the sessions the
    /// store listed and, when the active session is missing from that
    /// listing, its loaded summary; then select the active session's row,
    /// or keep the selection on a selectable row.
    pub fn refresh_labelled(
        &mut self,
        active_id: &str,
        bg_running: Option<&str>,
        project_root: Option<String>,
        label: &str,
        listed: Vec<SessionSummary>,
        active_loaded: Option<SessionSummary>,
    )
        requires
            listed@.len() + 10 <= i32::MAX,
        ensures
            final(self)@.active_id == active_id@,
            final(self)@.bg_running_id == (match bg_running {
                Some(b) => Some(b@),
                None => None,
            }),
            final(self)@.project_root == opt_seq(project_root),
            final(self)@.show_all == old(self)@.show_all,
            final(self)@.rows == panel_rows(
                old(self)@.show_all,
                label@,
                final(self)@.bg_running_id,
                with_active(summary_views(listed@), active_id@, opt_summary(active_loaded)),
            ),
            final(self)@.selection == reselected(final(self)@.rows, old(self)@.selection, active_id@),
    {
        self.active_id = active_id.to_string();
        self.bg_running_id = match bg_running {
            Some(b) => Some(b.to_string()),
            None => None,
        };
        self.project_root = project_root;
        let ghost listed_len = listed@.len();
        let ghost wa = with_active(summary_views(listed@), active_id@, opt_summary(active_loaded));
        let list = add_active(listed, active_id, active_loaded);
        let rows = build_rows(self.show_all, label, bg_running, &list);
        proof {
            assert(summary_views(list@).len() <= listed_len + 1);
            assert(list@.len() == summary_views(list@).len());
            assert(session_row_views(rows@).len() <= list@.len() + 8);
        }
        self.rows = rows;
        self.clamp_selection();
        match session_row_index(&self.rows, active_id) {
            Some(i) => {
                self.selection = i;
            },
            None => {},
        }
        proof {
            assert(summary_views(list@) == wa);
        }
    }

    /// `refresh_labelled` with the label taken from the project root: its
    /// last path component (see `path_leaf`), or `.` without a root.
    pub fn refresh(
        &mut self,
        active_id: &str,
        bg_running: Option<&str>,
        project_root: Option<String>,
        listed: Vec<SessionSummary>,
        active_loaded: Option<SessionSummary>,
    )
        requires
            listed@.len() + 10 <= i32::MAX,
        ensures
            final(self)@.active_id == active_id@,
            final(self)@.bg_running_id == (match bg_running {
                Some(b) => Some(b@),
                None => None,
            }),
            final(self)@.project_root == opt_seq(project_root),
            final(self)@.show_all == old(self)@.show_all,
            exists|label: Seq<char>|
                {
                    &&& (match opt_seq(project_root) {
                        Some(p) => label == p || contains(p, label),
                        None => label == "."@,
                    })
                    &&& final(self)@.rows == #[trigger] panel_rows(
                        old(self)@.show_all,
                        label,
                        final(self)@.bg_running_id,
                        with_active(summary_views(listed@), active_id@, opt_summary(active_loaded)),
                    )
                },
            final(self)@.selection == reselected(final(self)@.rows, old(self)@.selection, active_id@),
    {
        let label = match &project_root {
            Some(p) => path_leaf(p.as_str()),
            None => ".".to_string(),
        };
        let ghost root = opt_seq(project_root);
        self.refresh_labelled(active_id, bg_running, project_root, label.as_str(), listed, active_loaded);
        proof {
            let lv = label@;
            assert(match root {
                Some(p) => lv == p || contains(p, lv),
                None => lv == "."@,
            });
        }
    }
}

/// Stepping forward by one from a row reaches a selectable row whenever
/// there is one.
proof fn lemma_step_one_finds(rows: Seq<SessionRowView>, s: int, p: int)
    requires
        0 <= s < rows.len(),
        0 <= p < rows.len(),
        row_selectable(rows[p]),
    ensures
        row_selectable(rows[moved(rows, s, 1)]),
        0 <= moved(rows, s, 1) < rows.len(),
{
    let n = rows.len() as int;
    let ps = probes(s, 1, n);
    let j = if p > s {
        p - s - 1
    } else {
        p - s - 1 + n
    };
    assert(0 <= j < n);
    assert(s + (j + 1) * 1 == if p > s {
        p
    } else {
        p + n
    });
    if p > s {
        vstd::arithmetic::div_mod::lemma_small_mod(p as nat, n as nat);
    } else {
        vstd::arithmetic::div_mod::lemma_mod_add_multiples_vanish(p, n);
        vstd::arithmetic::div_mod::lemma_small_mod(p as nat, n as nat);
    }
    assert(ps[j] == p);
    assert(selectable_at(rows)(ps[j]));
    crate::search::lemma_first_index_some(ps, selectable_at(rows));
    match first_index(ps, selectable_at(rows)) {
        Some(k) => {
            assert(selectable_at(rows)(ps[k]));
        },
        None => {
            assert(exists|i: int| 0 <= i < ps.len() && selectable_at(rows)(#[trigger] ps[i]));
        },
    }
}

/// Clamping puts the selection on a selectable row whenever the rows have
/// one.
pub proof fn lemma_clamped_selectable(rows: Seq<SessionRowView>, sel: int, p: int)
    requires
        0 <= sel,
        0 <= p < rows.len(),
        row_selectable(rows[p]),
    ensures
        0 <= clamped(rows, sel) < rows.len(),
        row_selectable(rows[clamped(rows, sel)]),
{
    let s = if sel >= rows.len() {
        rows.len() - 1
    } else {
        sel
    };
    if !row_selectable(rows[s]) {
        lemma_step_one_finds(rows, s, p);
    }
}

/// After a refresh the selection rests on a selectable row: the active
/// session's row when it is listed, else the nearest selectable row.
pub proof fn lemma_refresh_selects_selectable(
    show_all: bool,
    label: Seq<char>,
    bg: Option<Seq<char>>,
    list: Seq<SummaryView>,
    sel: int,
    active: Seq<char>,
)
    requires
        0 <= sel,
    ensures
        ({
            let rows = panel_rows(show_all, label, bg, list);
            let r = reselected(rows, sel, active);
            0 <= r < rows.len() && row_selectable(rows[r])
        }),
{
    let rows = panel_rows(show_all, label, bg, list);
    let p = rows.len() - 3;
    assert(rows[p] == SessionRowView::Action("new"@, "\u{ff0b} new session in project"@));
    crate::search::lemma_first_index_some(rows, session_with_id(active));
    match first_index(rows, session_with_id(active)) {
        Some(i) => {
            assert(session_with_id(active)(rows[i]));
        },
        None => {
            lemma_clamped_selectable(rows, sel, p);
        },
    }
}

/// Text color of a session row.
#[derive(Debug, Clone, Copy, PartialEq, Eq, Structural)]
pub enum SessionFg {
    Active,
    Background,
    Selected,
    Other,
}

/// How a panel line is drawn.
#[derive(Debug, Clone, Copy, PartialEq, Eq, Structural)]
pub enum SessionTone {
    Header,
    Hint,
    Action { selected: bool },
    Session { fg: SessionFg, selected: bool },
    Meta,
}

/// A session's main line: marker (selected `›`, active `●`, running in the
/// background `◐`), short id, title (28 characters, or `(untitled)`) and
/// branch label.
pub open spec fn session_main(s: SummaryView, selected: bool, active: bool, bg: bool) -> Seq<char> {
    let prefix = if selected {
        "\u{203a}"@
    } else if active {
        "\u{25cf}"@
    } else if bg {
        "\u{25d0}"@
    } else {
        " "@
    };
    let title = match s.title {
        Some(t) => t,
        None => "(untitled)"@,
    };
    prefix + short_id_of(s.id) + " \u{b7} "@ + take_chars(title, 28) + match s.branch_label {
        Some(l) => " ["@ + l + "]"@,
        None => seq![],
    }
}

/// A session's second line: message count and model.
pub open spec fn session_meta(s: SummaryView) -> Seq<char> {
    "  "@ + decimal(s.message_count) + " msgs \u{b7} "@ + s.model
}

/// The lines of one row.
pub open spec fn row_lines(r: SessionRowView, selected: bool, active_id: Seq<char>, bg: Option<Seq<char>>) -> Seq<(Seq<char>, SessionTone)> {
    match r {
        SessionRowView::Header(t) => seq![(" "@ + spec_to_uppercase(t), SessionTone::Header)],
        SessionRowView::Hint(t) => seq![(" "@ + t, SessionTone::Hint)],
        SessionRowView::Action(_, label) => seq![
            ((if selected {
                "\u{203a}"@
            } else {
                " "@
            }) + label, SessionTone::Action { selected }),
        ],
        SessionRowView::Session(s) => {
            let active = s.id == active_id;
            let in_bg = bg == Some(s.id);
            let fg = if active {
                SessionFg::Active
            } else if in_bg {
                SessionFg::Background
            } else if selected {
                SessionFg::Selected
            } else {
                SessionFg::Other
            };
            seq![(session_main(s, selected, active, in_bg), SessionTone::Session { fg, selected })] + if selected
                || active {
                seq![(session_meta(s), SessionTone::Meta)]
            } else {
                seq![]
            }
        },
    }
}

/// The lines of the first `n` rows.
pub open spec fn panel_lines(v: SessionsView, n: nat) -> Seq<(Seq<char>, SessionTone)>
    decreases n,
{
    if n == 0 {
        seq![]
    } else {
        panel_lines(v, (n - 1) as nat) + row_lines(v.rows[n - 1], v.selection == n - 1, v.active_id, v.bg_running_id)
    }
}

/// Views of panel lines.
pub open spec fn panel_line_views(s: Seq<(String, SessionTone)>) -> Seq<(Seq<char>, SessionTone)> {
    s.map_values(|p: (String, SessionTone)| (p.0@, p.1))
}

fn push_pl(out: &mut Vec<(String, SessionTone)>, t: String, tone: SessionTone)
    ensures
        panel_line_views(final(out)@) == panel_line_views(old(out)@).push((t@, tone)),
{
    let ghost before = out@;
    let ghost tv = t@;
    out.push((t, tone));
    proof {
        assert(panel_line_views(out@) =~= panel_line_views(before).push((tv, tone)));
    }
}

/// The panel's lines, one or two per row.
pub fn sessions_panel_lines(state: &SessionsPanelState) -> (r: Vec<(String, SessionTone)>)
    ensures
        panel_line_views(r@) == panel_lines(state@, state.rows@.len()),
{
    let ghost v = state@;
    let mut out: Vec<(String, SessionTone)> = Vec::new();
    let mut i: usize = 0;
    proof {
        assert(panel_line_views(out@) =~= Seq::<(Seq<char>, SessionTone)>::empty());
    }
    while i < state.rows.len()
        invariant
            i <= state.rows.len(),
            v == state@,
            v.rows.len() == state.rows.len(),
            panel_line_views(out@) == panel_lines(v, i as nat),
        decreases state.rows.len() - i,
    {
        let selected = i == state.selection;
        let ghost before = panel_line_views(out@);
        proof {
            assert(v.rows[i as int] == state.rows@[i as int]@);
        }
        match &state.rows[i] {
            SessionRow::Header { title } => {
                let mut t = " ".to_string();
                t.append(to_uppercase(title.as_str()).as_str());
                push_pl(&mut out, t, SessionTone::Header);
            },
            SessionRow::Hint { text } => {
                let mut t = " ".to_string();
                t.append(text.as_str());
                push_pl(&mut out, t, SessionTone::Hint);
            },
            SessionRow::Action { label, .. } => {
                let mut t = if selected {
                    "\u{203a}".to_string()
                } else {
                    " ".to_string()
                };
                t.append(label.as_str());
                push_pl(&mut out, t, SessionTone::Action { selected });
            },
            SessionRow::Session { summary } => {
                let active = crate::text::str_eq(summary.id.as_str(), state.active_id.as_str());
                let in_bg = match &state.bg_running_id {
                    Some(b) => crate::text::str_eq(b.as_str(), summary.id.as_str()),
                    None => false,
                };
                let mut t = if selected {
                    "\u{203a}".to_string()
                } else if active {
                    "\u{25cf}".to_string()
                } else if in_bg {
                    "\u{25d0}".to_string()
                } else {
                    " ".to_string()
                };
                t.append(short_id(summary.id.as_str()).as_str());
                t.append(" \u{b7} ");
                let title = match &summary.title {
                    Some(x) => x.clone(),
                    None => "(untitled)".to_string(),
                };
                t.append(take_str(title.as_str(), 28).as_str());
                match &summary.branch_label {
                    Some(l) => {
                        t.append(" [");
                        t.append(l.as_str());
                        t.append("]");
                    },
                    None => {},
                }
                let fg = if active {
                    SessionFg::Active
                } else if in_bg {
                    SessionFg::Background
                } else if selected {
                    SessionFg::Selected
                } else {
                    SessionFg::Other
                };
                proof {
                    assert(t@ =~= session_main(summary@, selected, active, in_bg));
                }
                push_pl(&mut out, t, SessionTone::Session { fg, selected });
                if selected || active {
                    let mut m = "  ".to_string();
                    push_decimal(&mut m, summary.message_count as u64);
                    m.append(" msgs \u{b7} ");
                    m.append(summary.model.as_str());
                    push_pl(&mut out, m, SessionTone::Meta);
                }
            },
        }
        proof {
            assert(panel_line_views(out@) =~= before + row_lines(v.rows[i as int], v.selection == i as int, v.active_id, v.bg_running_id));
        }
        i += 1;
    }
    out
}

} // verus!
