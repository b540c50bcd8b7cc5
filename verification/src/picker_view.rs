//! Where the picker pops up and what its frame says.

use vstd::prelude::*;
use crate::geometry::{max_int, min_int, sat_sub, Rect};
use crate::normal_keys::PickerMode;

verus! {

/// Rows of results the picker shows: one row for the empty hint, else the
/// result count (as a 16-bit count) kept between 1 and 10.
pub open spec fn picker_rows(results: nat) -> int {
    if results == 0 {
        1
    } else {
        max_int(min_int((results as u16) as int, 10), 1)
    }
}

/// The picker rectangle inside `area`: one column in from the left, as
/// wide as the mode wants (96 for providers, else 72) but two columns
/// narrower than the area at most, two rows taller than its results, and
/// anchored four rows above the bottom of the area.
pub open spec fn picker_rect(area: Rect, results: nat, provider: bool) -> (int, int, int, int) {
    let height = picker_rows(results) + 2;
    let width = min_int(
        if provider {
            96
        } else {
            72
        },
        sat_sub(area.width as int, 2),
    );
    (area.x + 1, min_int(area.y + sat_sub(area.height as int, height + 4), u16::MAX as int), width, height)
}

/// The picker rectangle for `results` results in a mode.
pub fn picker_area(area: Rect, results: usize, mode: PickerMode) -> (r: Rect)
    requires
        area.x < u16::MAX,
    ensures
        (r.x as int, r.y as int, r.width as int, r.height as int) == picker_rect(
            area,
            results as nat,
            mode == PickerMode::Provider,
        ),
{
    let rows: u16 = if results == 0 {
        1
    } else {
        let n = results as u16;
        let c: u16 = if n < 10 {
            n
        } else {
            10
        };
        if c > 1 {
            c
        } else {
            1
        }
    };
    let want: u16 = match mode {
        PickerMode::Provider => 96,
        _ => 72,
    };
    let room: u16 = if area.width > 2 {
        area.width - 2
    } else {
        0
    };
    let width: u16 = if want < room {
        want
    } else {
        room
    };
    let height: u16 = rows + 2;
    let up: u16 = if area.height > height + 4 {
        area.height - (height + 4)
    } else {
        0
    };
    let y: u16 = if area.y <= u16::MAX - up {
        area.y + up
    } else {
        u16::MAX
    };
    Rect { x: area.x + 1, y, width, height }
}

/// The frame title of the picker in a mode.
pub open spec fn picker_title_text(mode: PickerMode) -> Seq<char> {
    match mode {
        PickerMode::File => "Files \u{b7} Enter \u{b7} Esc"@,
        PickerMode::Dir => "Directories \u{b7} Enter \u{b7} Esc"@,
        PickerMode::Skill => "Skills"@,
        PickerMode::Prompt => "Templates"@,
        PickerMode::Model => "Models"@,
        PickerMode::Provider => "Providers \u{b7} Enter connect \u{b7} Esc"@,
    }
}

/// The frame title of the picker.
pub fn picker_title(mode: PickerMode) -> (r: &'static str)
    ensures
        r@ == picker_title_text(mode),
{
    match mode {
        PickerMode::File => "Files \u{b7} Enter \u{b7} Esc",
        PickerMode::Dir => "Directories \u{b7} Enter \u{b7} Esc",
        PickerMode::Skill => "Skills",
        PickerMode::Prompt => "Templates",
        PickerMode::Model => "Models",
        PickerMode::Provider => "Providers \u{b7} Enter connect \u{b7} Esc",
    }
}

/// What the picker shows when nothing matches, by mode.
pub open spec fn picker_empty_text(mode: PickerMode) -> Seq<char> {
    match mode {
        PickerMode::File => "(no files found \u{2014} check cwd / .gitignore)"@,
        PickerMode::Dir => "(no directories found)"@,
        PickerMode::Model => "(no models \u{2014} export API keys, or wait for fetch)"@,
        PickerMode::Provider => "(no providers \u{2014} catalog empty?)"@,
        PickerMode::Skill => "(no skills found)"@,
        PickerMode::Prompt => "(no templates found)"@,
    }
}

/// The hint the picker shows when nothing matches.
pub fn picker_empty_hint(mode: PickerMode) -> (r: &'static str)
    ensures
        r@ == picker_empty_text(mode),
{
    match mode {
        PickerMode::File => "(no files found \u{2014} check cwd / .gitignore)",
        PickerMode::Dir => "(no directories found)",
        PickerMode::Model => "(no models \u{2014} export API keys, or wait for fetch)",
        PickerMode::Provider => "(no providers \u{2014} catalog empty?)",
        PickerMode::Skill => "(no skills found)",
        PickerMode::Prompt => "(no templates found)",
    }
}

} // verus!
