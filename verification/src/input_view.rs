//! What the input box shows: its mode label, its text (masked for API
//! keys, the picker's filter while one is open), the placeholder and where
//! the cursor goes.

use vstd::prelude::*;
use crate::chat_view::InputMode;
use crate::normal_keys::{PickerMode, PickerState};
use crate::text::chars_of;

verus! {

/// Title of the input box for each mode.
pub open spec fn mode_label(m: InputMode) -> Seq<char> {
    match m {
        InputMode::Normal => "normal"@,
        InputMode::Insert => "\u{25b8}"@,
        InputMode::Waiting => "working"@,
        InputMode::ApiKey => "api key"@,
        InputMode::Question => "answer"@,
    }
}

/// Title of the input box.
pub fn input_label(mode: InputMode) -> (r: &'static str)
    ensures
        r@ == mode_label(mode),
{
    match mode {
        InputMode::Normal => "normal",
        InputMode::Insert => "\u{25b8}",
        InputMode::Waiting => "working",
        InputMode::ApiKey => "api key",
        InputMode::Question => "answer",
    }
}

/// The picker's line: the input before it, `@` or `#` for file and
/// directory pickers, then the filter.
pub open spec fn picker_line(mode: PickerMode, prefix: Seq<char>, query: Seq<char>) -> Seq<char> {
    match mode {
        PickerMode::File => prefix + "@"@ + query,
        PickerMode::Dir => prefix + "#"@ + query,
        _ => prefix + query,
    }
}

/// The text shown: an API key as one bullet per character, the picker's
/// line while a picker is open, else the input.
pub open spec fn display_of(mode: InputMode, input: Seq<char>, picker: Option<(PickerMode, Seq<char>, Seq<char>)>) -> Seq<char> {
    if mode == InputMode::ApiKey {
        Seq::new(input.len(), |i: int| '\u{2022}')
    } else {
        match picker {
            Some((m, p, q)) => picker_line(m, p, q),
            None => input,
        }
    }
}

/// The picker as plain values.
pub open spec fn picker_of(p: Option<&PickerState>) -> Option<(PickerMode, Seq<char>, Seq<char>)> {
    match p {
        Some(s) => Some((s.mode, s.prefix@, s.query@)),
        None => None,
    }
}

/// The text the input box shows (`picker` is the open picker, if any).
pub fn input_display(mode: InputMode, input: &str, picker: Option<&PickerState>) -> (r: String)
    ensures
        r@ == display_of(mode, input@, picker_of(picker)),
{
    if mode == InputMode::ApiKey {
        let n = chars_of(input).len();
        let mut s = String::new();
        let mut i: usize = 0;
        while i < n
            invariant
                i <= n,
                s@ == Seq::new(i as nat, |k: int| '\u{2022}'),
            decreases n - i,
        {
            s.push('\u{2022}');
            proof {
                assert(s@ =~= Seq::new((i + 1) as nat, |k: int| '\u{2022}'));
            }
            i += 1;
        }
        return s;
    }
    match picker {
        Some(p) => {
            let mut s = p.prefix.clone();
            match p.mode {
                PickerMode::File => s.append("@"),
                PickerMode::Dir => s.append("#"),
                _ => {},
            }
            s.append(p.query.as_str());
            proof {
                if p.mode != PickerMode::File && p.mode != PickerMode::Dir {
                    assert(s@ =~= p.prefix@ + p.query@);
                }
            }
            s
        },
        None => input.to_string(),
    }
}

/// Whether the input box shows its placeholder: empty text in insert mode.
pub open spec fn shows_placeholder(mode: InputMode, display: Seq<char>) -> bool {
    display.len() == 0 && mode == InputMode::Insert
}

/// The placeholder of an empty input.
pub fn placeholder_text() -> (r: &'static str)
    ensures
        r@ == " message, /command, @file, #dir\u{2026}"@,
{
    " message, /command, @file, #dir\u{2026}"
}

/// Cursor column inside the box (none in normal mode): after the shown
/// text (the picker's line, or the input), counted as a `u16` (modulo
/// 65536) plus one for the border, kept inside the box.
pub open spec fn cursor_of(mode: InputMode, input: Seq<char>, picker: Option<(PickerMode, Seq<char>, Seq<char>)>, width: u16) -> Option<int> {
    if mode == InputMode::Normal {
        None
    } else {
        let len = match picker {
            Some((m, p, q)) => picker_line(m, p, q).len(),
            None => input.len(),
        };
        let x: int = (len % 65536) as int + 1;
        let w = if width > 1 {
            width as int
        } else {
            1
        };
        let lim = if w > 2 {
            w - 2
        } else {
            0
        };
        Some(if x < lim {
            x
        } else {
            lim
        })
    }
}

/// Where the cursor goes in a box `width` columns wide.
pub fn cursor_column(mode: InputMode, input: &str, picker: Option<&PickerState>, width: u16) -> (r: Option<u16>)
    requires
        mode != InputMode::Normal ==> (match picker_of(picker) {
            Some((m, p, q)) => picker_line(m, p, q).len(),
            None => input@.len(),
        }) % 65536 != 65535,
        mode != InputMode::Normal ==> (match picker_of(picker) {
            Some((m, p, q)) => picker_line(m, p, q).len(),
            None => input@.len(),
        }) <= usize::MAX,
    ensures
        (match r {
            Some(x) => Some(x as int),
            None => None,
        }) == cursor_of(mode, input@, picker_of(picker), width),
{
    if mode == InputMode::Normal {
        return None;
    }
    let len: usize = match picker {
        Some(p) => {
            let extra: usize = match p.mode {
                PickerMode::File | PickerMode::Dir => 1,
                _ => 0,
            };
            let a = chars_of(p.prefix.as_str()).len();
            let b = chars_of(p.query.as_str()).len();
            proof {
                reveal_strlit("@");
                reveal_strlit("#");
            }
            a + extra + b
        },
        None => chars_of(input).len(),
    };
    let x: u16 = ((len % 65536) as u16) + 1;
    let w: u16 = if width > 1 {
        width
    } else {
        1
    };
    let lim: u16 = if w > 2 {
        w - 2
    } else {
        0
    };
    Some(if x < lim {
        x
    } else {
        lim
    })
}

} // verus!
