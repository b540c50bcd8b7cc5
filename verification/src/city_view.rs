//! Text of the city cockpit: the board's lines, the composers, the
//! inspector's log window.

use vstd::prelude::*;
use crate::beads::{SeatCaste, SeatView};
use crate::fleet_panel::{
    attention_icon, attention_of, caste_badge, caste_letter, row_views, stage_tag, BoardRow, CityPanelState,
    FlowStage, FlowView, RowView, SeatAttention,
};
use crate::focus::{zone_label, FocusZone};
use crate::beads::opt_seq;
use crate::text::{chars_of, decimal, ellipsize, ellipsized, push_decimal};

verus! {

/// How a piece of the board is drawn.
#[derive(Debug, Clone, Copy, PartialEq, Eq, Structural)]
pub enum BoardTone {
    /// The WORKERS badge (in the blocked color when a seat is blocked).
    WorkersBadge { blocked: bool },
    /// Key hints.
    Dim,
    /// Placeholders and the status line.
    Muted,
    /// The FLOW header.
    FlowHeader,
    /// The selected row (bold for workers).
    Selected { bold: bool },
    /// A worker row, in its attention color.
    Attention(SeatAttention),
    /// A flow row, in its stage color.
    Stage(FlowStage),
    /// The inspected seat's name and state (brighter when the inspector
    /// zones have focus).
    Title { focused: bool },
    /// The spawn form.
    Highlight,
}

/// A board line: pieces of text with their tones.
pub type BoardLineView = Seq<(Seq<char>, BoardTone)>;

/// Views of board lines.
pub open spec fn board_views(s: Seq<Vec<(String, BoardTone)>>) -> Seq<BoardLineView> {
    s.map_values(|l: Vec<(String, BoardTone)>| l@.map_values(|p: (String, BoardTone)| (p.0@, p.1)))
}

/// Selection marker.
pub open spec fn marker(sel: bool) -> Seq<char> {
    if sel {
        "\u{203a}"@
    } else {
        " "@
    }
}

/// Glyph of each flow stage.
pub open spec fn stage_glyph(s: FlowStage) -> Seq<char> {
    match s {
        FlowStage::Wish => "\u{25c6}"@,
        FlowStage::Ready => "\u{25b8}"@,
        FlowStage::Doing => "\u{25d0}"@,
        FlowStage::Done => "\u{2713}"@,
    }
}

/// A worker row: marker, attention glyph, caste badge, seat and current
/// bead, cut to `max`.
pub open spec fn worker_text(s: SeatView, caste: SeatCaste, sel: bool, max: nat) -> Seq<char> {
    ellipsized(
        marker(sel) + attention_icon(attention_of(s)) + " ["@ + caste_letter(caste) + "] "@ + s.seat + match s.last_bead {
            Some(b) => " \u{b7} "@ + b,
            None => seq![],
        },
        max,
    )
}

/// A flow row: marker, stage glyph, id, stage and title, cut to `max`.
pub open spec fn flow_text(f: FlowView, sel: bool, max: nat) -> Seq<char> {
    ellipsized(marker(sel) + stage_glyph(f.stage) + " "@ + f.id + " ["@ + stage_tag(f.stage) + "] "@ + f.title, max)
}

/// The FLOW header line.
pub open spec fn flow_header() -> BoardLineView {
    seq![(" FLOW  wish\u{2192}ready\u{2192}doing "@, BoardTone::FlowHeader)]
}

/// The lines of row `i`: the FLOW header before the first flow row after
/// the workers, then the row itself.
pub open spec fn row_block(rows: Seq<RowView>, castes: Seq<SeatCaste>, i: int, selected: Option<int>, max: nat) -> Seq<BoardLineView> {
    let sel = selected == Some(i);
    let head = match rows[i] {
        RowView::Flow(_) => if i == 0 || rows[i - 1] is Worker {
            seq![flow_header()]
        } else {
            seq![]
        },
        RowView::Worker(_) => seq![],
    };
    let line = match rows[i] {
        RowView::Worker(s) => seq![
            (
                worker_text(s, castes[i], sel, max),
                if sel {
                    BoardTone::Selected { bold: true }
                } else {
                    BoardTone::Attention(attention_of(s))
                },
            ),
        ],
        RowView::Flow(f) => seq![
            (
                flow_text(f, sel, max),
                if sel {
                    BoardTone::Selected { bold: false }
                } else {
                    BoardTone::Stage(f.stage)
                },
            ),
        ],
    };
    head.push(line)
}

/// The lines of the first `n` rows.
pub open spec fn rows_lines(rows: Seq<RowView>, castes: Seq<SeatCaste>, n: nat, selected: Option<int>, max: nat) -> Seq<BoardLineView>
    decreases n,
{
    if n == 0 {
        seq![]
    } else {
        rows_lines(rows, castes, (n - 1) as nat, selected, max) + row_block(rows, castes, n - 1, selected, max)
    }
}

/// Width of the board's text: the area less its border, at least 8.
pub open spec fn board_width(area_width: nat) -> nat {
    if area_width >= 10 {
        (area_width - 2) as nat
    } else {
        8
    }
}

/// The board: the WORKERS header with counts and key hints, a hint when
/// there are no workers, the rows (the selected one marked when the board
/// has focus), and the status line when there is one.
pub open spec fn board_lines_of(
    seats: nat,
    blocked: nat,
    rows: Seq<RowView>,
    castes: Seq<SeatCaste>,
    selected: Option<int>,
    status: Seq<char>,
    max: nat,
) -> Seq<BoardLineView> {
    seq![
        seq![
            (" WORKERS "@, BoardTone::WorkersBadge { blocked: blocked > 0 }),
            (" "@ + decimal(seats) + "  [u]spawn  [d]stop  [X]del "@, BoardTone::Dim),
        ],
    ] + (if seats == 0 {
        seq![seq![("  none \u{2014} press u to spawn"@, BoardTone::Muted)]]
    } else {
        seq![]
    }) + rows_lines(rows, castes, rows.len(), selected, max) + (if status.len() > 0 {
        seq![seq![(ellipsized(status, max), BoardTone::Muted)]]
    } else {
        seq![]
    })
}

fn marker_str(sel: bool) -> (r: &'static str)
    ensures
        r@ == marker(sel),
{
    if sel {
        "\u{203a}"
    } else {
        " "
    }
}

fn stage_glyph_str(st: FlowStage) -> (r: &'static str)
    ensures
        r@ == stage_glyph(st),
{
    match st {
        FlowStage::Wish => "\u{25c6}",
        FlowStage::Ready => "\u{25b8}",
        FlowStage::Doing => "\u{25d0}",
        FlowStage::Done => "\u{2713}",
    }
}

fn one_piece(text: String, tone: BoardTone) -> (r: Vec<(String, BoardTone)>)
    ensures
        r@.map_values(|p: (String, BoardTone)| (p.0@, p.1)) == seq![(text@, tone)],
{
    let mut v: Vec<(String, BoardTone)> = Vec::new();
    let ghost t = text@;
    v.push((text, tone));
    proof {
        assert(v@.map_values(|p: (String, BoardTone)| (p.0@, p.1)) =~= seq![(t, tone)]);
    }
    v
}

fn push_line(out: &mut Vec<Vec<(String, BoardTone)>>, line: Vec<(String, BoardTone)>)
    ensures
        board_views(final(out)@) == board_views(old(out)@).push(line@.map_values(|p: (String, BoardTone)| (p.0@, p.1))),
{
    let ghost before = out@;
    let ghost lv = line@.map_values(|p: (String, BoardTone)| (p.0@, p.1));
    out.push(line);
    proof {
        assert(board_views(out@) =~= board_views(before).push(lv));
    }
}

/// The board's lines for the panel state; `castes` gives each board row's
/// seat caste (rows in the same order), `focused` whether the board has
/// focus, `area_width` the board's width in columns.
pub fn board_lines(state: &CityPanelState, castes: &Vec<SeatCaste>, focused: bool, area_width: u16) -> (r: Vec<
    Vec<(String, BoardTone)>,
>)
    requires
        castes@.len() == state.board_rows@.len(),
    ensures
        board_views(r@) == board_lines_of(
            state.seats@.len(),
            state@.seats.filter(crate::fleet_panel::blocked_pred()).len(),
            state@.board_rows,
            castes@,
            if focused {
                Some(state.selection as int)
            } else {
                None
            },
            state.status_line@,
            board_width(area_width as nat),
        ),
{
    let max: usize = if area_width >= 10 {
        (area_width - 2) as usize
    } else {
        8
    };
    let blocked = state.blocked_count();
    let ghost rv = state@.board_rows;
    let ghost selected: Option<int> = if focused {
        Some(state.selection as int)
    } else {
        None
    };
    let mut out: Vec<Vec<(String, BoardTone)>> = Vec::new();
    let mut head: Vec<(String, BoardTone)> = Vec::new();
    head.push((" WORKERS ".to_string(), BoardTone::WorkersBadge { blocked: blocked > 0 }));
    let mut counts = " ".to_string();
    push_decimal(&mut counts, state.seats.len() as u64);
    counts.append("  [u]spawn  [d]stop  [X]del ");
    let ghost cv = counts@;
    head.push((counts, BoardTone::Dim));
    proof {
        assert(head@.map_values(|p: (String, BoardTone)| (p.0@, p.1)) =~= seq![
            (" WORKERS "@, BoardTone::WorkersBadge { blocked: blocked > 0 }),
            (cv, BoardTone::Dim),
        ]);
        assert(board_views(out@) =~= Seq::<BoardLineView>::empty());
    }
    push_line(&mut out, head);
    if state.seats.len() == 0 {
        push_line(&mut out, one_piece("  none \u{2014} press u to spawn".to_string(), BoardTone::Muted));
    }
    let ghost prefix = board_views(out@);
    let mut i: usize = 0;
    while i < state.board_rows.len()
        invariant
            i <= state.board_rows.len(),
            castes@.len() == state.board_rows@.len(),
            rv == state@.board_rows,
            rv == row_views(state.board_rows@),
            rv.len() == state.board_rows.len(),
            selected == (if focused {
                Some(state.selection as int)
            } else {
                None
            }),
            max == board_width(area_width as nat),
            board_views(out@) == prefix + rows_lines(rv, castes@, i as nat, selected, max as nat),
        decreases state.board_rows.len() - i,
    {
        let sel = focused && i == state.selection;
        let row = &state.board_rows[i];
        proof {
            assert(rv[i as int] == row@);
        }
        let ghost before = board_views(out@);
        match row {
            BoardRow::Flow { item } => {
                let after_workers = i == 0 || match &state.board_rows[i - 1] {
                    BoardRow::Worker { .. } => true,
                    BoardRow::Flow { .. } => false,
                };
                proof {
                    if i > 0 {
                        assert(rv[i - 1] == state.board_rows@[i - 1]@);
                    }
                }
                if after_workers {
                    push_line(
                        &mut out,
                        one_piece(" FLOW  wish\u{2192}ready\u{2192}doing ".to_string(), BoardTone::FlowHeader),
                    );
                }
                let mut t = marker_str(sel).to_string();
                t.append(stage_glyph_str(item.stage));
                t.append(" ");
                t.append(item.id.as_str());
                t.append(" [");
                t.append(item.stage.tag());
                t.append("] ");
                t.append(item.title.as_str());
                let text = ellipsize(t.as_str(), max);
                let tone = if sel {
                    BoardTone::Selected { bold: false }
                } else {
                    BoardTone::Stage(item.stage)
                };
                proof {
                    assert(sel == (selected == Some(i as int)));
                    assert(t@ =~= marker(sel) + stage_glyph(item.stage) + " "@ + item.id@ + " ["@ + stage_tag(item.stage) + "] "@ + item.title@);
                    assert(text@ == flow_text(item@, sel, max as nat));
                }
                push_line(&mut out, one_piece(text, tone));
            },
            BoardRow::Worker { seat } => {
                let att = crate::fleet_panel::SeatAttention::from_status(seat);
                let mut t = marker_str(sel).to_string();
                t.append(att.icon());
                t.append(" [");
                t.append(caste_badge(castes[i]));
                t.append("] ");
                t.append(seat.seat.as_str());
                match &seat.last_bead {
                    Some(b) => {
                        t.append(" \u{b7} ");
                        t.append(b.as_str());
                    },
                    None => {},
                }
                let text = ellipsize(t.as_str(), max);
                let tone = if sel {
                    BoardTone::Selected { bold: true }
                } else {
                    BoardTone::Attention(att)
                };
                proof {
                    assert(sel == (selected == Some(i as int)));
                    assert(t@ =~= marker(sel) + attention_icon(attention_of(seat@)) + " ["@ + caste_letter(castes@[i as int]) + "] "@ + seat@.seat + match seat@.last_bead {
                        Some(b) => " \u{b7} "@ + b,
                        None => seq![],
                    });
                    assert(text@ == worker_text(seat@, castes@[i as int], sel, max as nat));
                }
                push_line(&mut out, one_piece(text, tone));
            },
        }
        proof {
            assert(board_views(out@) =~= before + row_block(rv, castes@, i as int, selected, max as nat));
        }
        i += 1;
    }
    if !state.status_line.as_str().is_empty() {
        push_line(&mut out, one_piece(ellipsize(state.status_line.as_str(), max), BoardTone::Muted));
    }
    proof {
        assert(board_views(out@) =~= board_lines_of(
            state.seats@.len(),
            state@.seats.filter(crate::fleet_panel::blocked_pred()).len(),
            rv,
            castes@,
            selected,
            state.status_line@,
            max as nat,
        ));
    }
    out
}

/// The wish composer's text: a hint when empty and unfocused, else the
/// text with a cursor when focused.
pub open spec fn wish_text_of(text: Seq<char>, focused: bool) -> Seq<char> {
    if text.len() == 0 && !focused {
        "wish> (Tab focus \u{b7} type ambition \u{b7} \u{21b5} create)"@
    } else {
        "wish> "@ + text + if focused {
            "\u{258c}"@
        } else {
            seq![]
        }
    }
}

/// The wish composer's text.
pub fn wish_prompt(text: &str, focused: bool) -> (r: String)
    ensures
        r@ == wish_text_of(text@, focused),
{
    if text.is_empty() && !focused {
        return "wish> (Tab focus \u{b7} type ambition \u{b7} \u{21b5} create)".to_string();
    }
    let mut s = "wish> ".to_string();
    s.append(text);
    if focused {
        s.append("\u{258c}");
    }
    proof {
        if !focused {
            assert(s@ =~= "wish> "@ + text@ + Seq::<char>::empty());
        }
    }
    s
}

/// The steering composer's text: nothing without a selected seat, a hint
/// when empty and unfocused, else the text with a cursor when focused.
pub open spec fn steer_text_of(has_seat: bool, text: Seq<char>, focused: bool) -> Seq<char> {
    if !has_seat {
        seq![]
    } else if text.len() == 0 && !focused {
        "steer> (Tab \u{b7} type \u{b7} \u{21b5})"@
    } else {
        "steer> "@ + text + if focused {
            "\u{258c}"@
        } else {
            seq![]
        }
    }
}

/// The steering composer's text.
pub fn steer_prompt(has_seat: bool, text: &str, focused: bool) -> (r: String)
    ensures
        r@ == steer_text_of(has_seat, text@, focused),
{
    if !has_seat {
        return String::new();
    }
    if text.is_empty() && !focused {
        return "steer> (Tab \u{b7} type \u{b7} \u{21b5})".to_string();
    }
    let mut s = "steer> ".to_string();
    s.append(text);
    if focused {
        s.append("\u{258c}");
    }
    proof {
        if !focused {
            assert(s@ =~= "steer> "@ + text@ + Seq::<char>::empty());
        }
    }
    s
}

/// The log lines shown in `height` rows, `scroll` lines back from the
/// newest: `[start, end)`.
pub open spec fn log_span(len: int, scroll: int, height: int) -> (int, int) {
    let end = if len > scroll {
        len - scroll
    } else {
        0
    };
    let h = if height > 1 {
        height
    } else {
        1
    };
    (if end > h {
        end - h
    } else {
        0
    }, end)
}

/// The range of log lines shown.
pub fn log_window(len: usize, scroll: usize, height: usize) -> (r: (usize, usize))
    ensures
        (r.0 as int, r.1 as int) == log_span(len as int, scroll as int, height as int),
        r.0 <= r.1 <= len,
{
    let end = if len > scroll {
        len - scroll
    } else {
        0
    };
    let h = if height > 1 {
        height
    } else {
        1
    };
    let start = if end > h {
        end - h
    } else {
        0
    };
    (start, end)
}

/// Title of the cockpit panel.
pub open spec fn city_title_of(seats: nat, focus: FocusZone) -> Seq<char> {
    "City \u{b7} "@ + decimal(seats) + "w \u{b7} focus:"@ + zone_label(focus)
}

/// Title of the cockpit panel: worker count and focused zone.
pub fn city_title(seats: usize, focus: FocusZone) -> (r: String)
    ensures
        r@ == city_title_of(seats as nat, focus),
{
    let mut s = "City \u{b7} ".to_string();
    push_decimal(&mut s, seats as u64);
    s.append("w \u{b7} focus:");
    s.append(focus.label());
    s
}

/// The inspector's two header lines: the inspected seat (glyph, name,
/// caste and state) with its actions; else the spawn form when the spawn
/// zone has focus; else a hint.
pub open spec fn inspector_head_of(
    detail: Option<SeatView>,
    seat_name: Option<Seq<char>>,
    caste: SeatCaste,
    focus: FocusZone,
    spawn_fleet_n: Seq<char>,
    spawn_crew_n: Seq<char>,
    spawn_focus_fleet: bool,
) -> Seq<BoardLineView> {
    let name = match seat_name {
        Some(n) => n,
        None => "(none)"@,
    };
    match detail {
        Some(s) => seq![
            seq![
                (" "@ + attention_icon(attention_of(s)) + " "@, BoardTone::Attention(attention_of(s))),
                (
                    name + " ["@ + caste_letter(caste) + "] "@ + s.state,
                    BoardTone::Title {
                        focused: focus == FocusZone::CityInspector || focus == FocusZone::CitySteer || focus
                            == FocusZone::CitySpawn,
                    },
                ),
            ],
            seq![("[f]ollow [a]ttach [o]pen [b]abort [D]etach [d]stop [X]delete"@, BoardTone::Dim)],
        ],
        None => if focus == FocusZone::CitySpawn {
            seq![
                seq![
                    (
                        "spawn "@ + marker(spawn_focus_fleet) + "Fleet:"@ + spawn_fleet_n + "  "@ + marker(
                            !spawn_focus_fleet,
                        ) + "Crew:"@ + spawn_crew_n + "  (Tab field \u{b7} \u{21b5} go)"@,
                        BoardTone::Highlight,
                    ),
                ],
                seq![("Esc back \u{b7} \u{2191}\u{2193} workers"@, BoardTone::Dim)],
            ]
        } else {
            seq![
                seq![("inspector \u{2014} select a worker"@, BoardTone::Muted)],
                seq![("\u{2191}\u{2193} board \u{b7} Tab zones \u{b7} u spawn"@, BoardTone::Dim)],
            ]
        },
    }
}

/// The inspector's header lines for the panel state; `caste` is the
/// selected seat's caste.
pub fn inspector_head(state: &CityPanelState, caste: SeatCaste, focus: FocusZone) -> (r: Vec<Vec<(String, BoardTone)>>)
    ensures
        board_views(r@) == inspector_head_of(
            crate::fleet_panel::opt_seat(state.detail_seat),
            opt_seq(state.selected_seat),
            caste,
            focus,
            state.spawn_fleet_n@,
            state.spawn_crew_n@,
            state.spawn_focus_fleet,
        ),
{
    let mut out: Vec<Vec<(String, BoardTone)>> = Vec::new();
    proof {
        assert(board_views(out@) =~= Seq::<BoardLineView>::empty());
    }
    match &state.detail_seat {
        Some(s) => {
            let att = crate::fleet_panel::SeatAttention::from_status(s);
            let mut first: Vec<(String, BoardTone)> = Vec::new();
            let mut g = " ".to_string();
            g.append(att.icon());
            g.append(" ");
            let ghost gv = g@;
            first.push((g, BoardTone::Attention(att)));
            let mut t = match &state.selected_seat {
                Some(n) => n.clone(),
                None => "(none)".to_string(),
            };
            t.append(" [");
            t.append(caste_badge(caste));
            t.append("] ");
            t.append(s.state.as_str());
            let ghost tv = t@;
            let focused = focus == FocusZone::CityInspector || focus == FocusZone::CitySteer || focus
                == FocusZone::CitySpawn;
            first.push((t, BoardTone::Title { focused }));
            proof {
                assert(first@.map_values(|p: (String, BoardTone)| (p.0@, p.1)) =~= seq![
                    (gv, BoardTone::Attention(att)),
                    (tv, BoardTone::Title { focused }),
                ]);
            }
            push_line(&mut out, first);
            push_line(
                &mut out,
                one_piece("[f]ollow [a]ttach [o]pen [b]abort [D]etach [d]stop [X]delete".to_string(), BoardTone::Dim),
            );
        },
        None => {
            if focus == FocusZone::CitySpawn {
                let mut t = "spawn ".to_string();
                t.append(marker_str(state.spawn_focus_fleet));
                t.append("Fleet:");
                t.append(state.spawn_fleet_n.as_str());
                t.append("  ");
                t.append(marker_str(!state.spawn_focus_fleet));
                t.append("Crew:");
                t.append(state.spawn_crew_n.as_str());
                t.append("  (Tab field \u{b7} \u{21b5} go)");
                push_line(&mut out, one_piece(t, BoardTone::Highlight));
                push_line(&mut out, one_piece("Esc back \u{b7} \u{2191}\u{2193} workers".to_string(), BoardTone::Dim));
            } else {
                push_line(&mut out, one_piece("inspector \u{2014} select a worker".to_string(), BoardTone::Muted));
                push_line(
                    &mut out,
                    one_piece("\u{2191}\u{2193} board \u{b7} Tab zones \u{b7} u spawn".to_string(), BoardTone::Dim),
                );
            }
        },
    }
    proof {
        assert(board_views(out@) =~= inspector_head_of(
            crate::fleet_panel::opt_seat(state.detail_seat),
            opt_seq(state.selected_seat),
            caste,
            focus,
            state.spawn_fleet_n@,
            state.spawn_crew_n@,
            state.spawn_focus_fleet,
        ));
    }
    out
}

} // verus!
