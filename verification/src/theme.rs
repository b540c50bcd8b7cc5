//! Theme names and semantic palettes.

use vstd::prelude::*;
use crate::text::{
    chars_of, digits_value, all_digits, parse_usize, parse_usize_exec, spec_to_lowercase,
    str_eq, string_of, to_lowercase, trim, trim_str, trim_bounds, ascii_lower, is_ascii_text,
    trim_start, trim_end,
};

verus! {

/// A UI theme.
#[derive(Debug, Clone, Copy, PartialEq, Eq, Structural)]
pub enum ThemeName {
    Dark,
    Light,
    Forest,
}

/// `named_theme` for ASCII text, with its lowercasing spelled out.
pub open spec fn ascii_named_theme(s: Seq<char>) -> Option<ThemeName> {
    let l = ascii_lower(trim(s));
    if l == "auto"@ {
        None
    } else if l == "light"@ {
        Some(ThemeName::Light)
    } else if l == "forest"@ {
        Some(ThemeName::Forest)
    } else {
        Some(ThemeName::Dark)
    }
}

/// The name `ThemeName::as_str` gives a theme.
pub open spec fn theme_name_text(t: ThemeName) -> Seq<char> {
    match t {
        ThemeName::Dark => "dark"@,
        ThemeName::Light => "light"@,
        ThemeName::Forest => "forest"@,
    }
}

/// Each theme's own name selects it (it is ASCII, so `parse` reads it by
/// `ascii_named_theme`), in any case and with surrounding whitespace left
/// out of account; ASCII text that trims and lowercases to anything but
/// `auto`, `light` or `forest` selects the dark theme.
pub proof fn lemma_theme_names_round_trip(t: ThemeName, s: Seq<char>)
    ensures
        is_ascii_text(trim(theme_name_text(t))),
        ascii_named_theme(theme_name_text(t)) == Some(t),
        ({
            let l = ascii_lower(trim(s));
            l != "auto"@ && l != "light"@ && l != "forest"@ ==> ascii_named_theme(s) == Some(ThemeName::Dark)
        }),
{
    reveal_strlit("dark");
    reveal_strlit("light");
    reveal_strlit("forest");
    reveal_strlit("auto");
    let n = theme_name_text(t);
    assert(trim_start(n) == n);
    assert(trim_end(n) == n);
    assert(trim(n) == n);
    assert(is_ascii_text(n));
    assert(ascii_lower(n) =~= n);
    assert(n != "auto"@) by {
        assert(n[0] != "auto"@[0] || n.len() != 4);
    }
    match t {
        ThemeName::Dark => {
            assert(n != "light"@);
            assert(n != "forest"@);
        },
        ThemeName::Light => {},
        ThemeName::Forest => {
            assert(n != "light"@);
        },
    }
}

/// A theme named by `s` (trimmed, lowercased): `light`, `forest`, anything
/// else dark; `None` for `auto`, which defers to the host terminal.
pub open spec fn named_theme(s: Seq<char>) -> Option<ThemeName> {
    let l = spec_to_lowercase(trim(s));
    if l == "auto"@ {
        None
    } else if l == "light"@ {
        Some(ThemeName::Light)
    } else if l == "forest"@ {
        Some(ThemeName::Forest)
    } else {
        Some(ThemeName::Dark)
    }
}

/// `str::parse::<u16>`.
pub open spec fn parse_u16(s: Seq<char>) -> Option<u16> {
    match parse_usize(s) {
        Some(n) => if n <= 65535 {
            Some(n as u16)
        } else {
            None
        },
        None => None,
    }
}

/// The text after the last `;` (all of it when there is none).
pub open spec fn after_last_semicolon(s: Seq<char>) -> Seq<char>
    decreases s.len(),
{
    if s.len() == 0 {
        s
    } else if s.last() == ';' {
        seq![]
    } else {
        after_last_semicolon(s.drop_last()).push(s.last())
    }
}

/// Light or dark from `COLORFGBG` ("fg;bg"): a bright background index
/// (7 or more, except 8) means light; `None` when the value has no numeric
/// background.
pub open spec fn theme_from_colorfgbg(v: Seq<char>) -> Option<ThemeName> {
    match parse_u16(trim(after_last_semicolon(v))) {
        Some(n) => if n >= 7 && n != 8 {
            Some(ThemeName::Light)
        } else {
            Some(ThemeName::Dark)
        },
        None => None,
    }
}

/// Whether host detection terminates: it loops forever when `COLORFGBG`
/// gives no answer and `RS_AGENT_THEME` itself says `auto`.
pub open spec fn host_detection_ends(colorfgbg: Option<Seq<char>>, env_theme: Option<Seq<char>>) -> bool {
    let decided = match colorfgbg {
        Some(v) => theme_from_colorfgbg(v) is Some,
        None => false,
    };
    decided || match env_theme {
        Some(t) => named_theme(t) is Some,
        None => true,
    }
}

/// Theme inferred from the host terminal's `COLORFGBG`, then the
/// `RS_AGENT_THEME` setting, then dark.
pub open spec fn host_theme(colorfgbg: Option<Seq<char>>, env_theme: Option<Seq<char>>) -> ThemeName {
    match (match colorfgbg {
        Some(v) => theme_from_colorfgbg(v),
        None => None,
    }) {
        Some(t) => t,
        None => match env_theme {
            Some(t) => match named_theme(t) {
                Some(n) => n,
                None => ThemeName::Dark,
            },
            None => ThemeName::Dark,
        },
    }
}

fn after_last_semicolon_exec(v: &Vec<char>) -> (r: usize)
    ensures
        r <= v@.len(),
        v@.skip(r as int) == after_last_semicolon(v@),
{
    let mut i = v.len();
    proof {
        assert(v@.take(v@.len() as int) =~= v@);
        assert(v@ + v@.skip(v@.len() as int) =~= v@);
    }
    while i > 0 && v[i - 1] != ';'
        invariant
            i <= v@.len(),
            after_last_semicolon(v@) == after_last_semicolon(v@.take(i as int)) + v@.skip(i as int),
        decreases i,
    {
        proof {
            let t = v@.take(i as int);
            assert(t.drop_last() =~= v@.take(i - 1));
            assert(t.last() == v@[i - 1]);
            assert(after_last_semicolon(v@.take(i - 1)).push(v@[i - 1]) + v@.skip(i as int) =~= after_last_semicolon(
                v@.take(i - 1),
            ) + v@.skip(i - 1));
        }
        i -= 1;
    }
    proof {
        if i > 0 {
            assert(v@.take(i as int).last() == ';');
        }
        assert(after_last_semicolon(v@.take(i as int)) =~= seq![]) by {
            if i == 0 {
                assert(v@.take(0) =~= Seq::<char>::empty());
            }
        }
        assert(seq![] + v@.skip(i as int) =~= v@.skip(i as int));
    }
    i
}

fn theme_from_colorfgbg_exec(v: &str) -> (r: Option<ThemeName>)
    ensures
        r == theme_from_colorfgbg(v@),
{
    let c = chars_of(v);
    let start = after_last_semicolon_exec(&c);
    let bg = string_of(&c, start, c.len());
    proof {
        assert(c@.subrange(start as int, c@.len() as int) =~= c@.skip(start as int));
    }
    let t = trim_str(bg.as_str());
    match parse_usize_exec(t.as_str()) {
        Some(n) => {
            if n <= 65535 {
                if n >= 7 && n != 8 {
                    Some(ThemeName::Light)
                } else {
                    Some(ThemeName::Dark)
                }
            } else {
                None
            }
        },
        None => None,
    }
}

impl ThemeName {
    /// The theme a name selects, `None` for `auto`.
    pub fn parse_named(s: &str) -> (r: Option<ThemeName>)
        ensures
            r == named_theme(s@),
            is_ascii_text(trim(s@)) ==> r == ascii_named_theme(s@),
    {
        let t = trim_str(s);
        let l = to_lowercase(t.as_str());
        if str_eq(l.as_str(), "auto") {
            None
        } else if str_eq(l.as_str(), "light") {
            Some(ThemeName::Light)
        } else if str_eq(l.as_str(), "forest") {
            Some(ThemeName::Forest)
        } else {
            Some(ThemeName::Dark)
        }
    }

    /// Infers the theme from the host terminal, given the values of
    /// `COLORFGBG` and `RS_AGENT_THEME`.
    pub fn from_host(colorfgbg: Option<&str>, env_theme: Option<&str>) -> (r: ThemeName)
        requires
            host_detection_ends(
                match colorfgbg {
                    Some(v) => Some(v@),
                    None => None,
                },
                match env_theme {
                    Some(v) => Some(v@),
                    None => None,
                },
            ),
        ensures
            r == host_theme(
                match colorfgbg {
                    Some(v) => Some(v@),
                    None => None,
                },
                match env_theme {
                    Some(v) => Some(v@),
                    None => None,
                },
            ),
    {
        match colorfgbg {
            Some(v) => match theme_from_colorfgbg_exec(v) {
                Some(t) => {
                    return t;
                },
                None => {},
            },
            None => {},
        }
        match env_theme {
            Some(t) => match ThemeName::parse_named(t) {
                Some(n) => n,
                None => ThemeName::Dark,
            },
            None => ThemeName::Dark,
        }
    }

    /// Parses a theme setting; `auto` asks the host terminal (given the
    /// values of `COLORFGBG` and `RS_AGENT_THEME`).
    pub fn parse(s: &str, colorfgbg: Option<&str>, env_theme: Option<&str>) -> (r: ThemeName)
        requires
            named_theme(s@) is None ==> host_detection_ends(
                match colorfgbg {
                    Some(v) => Some(v@),
                    None => None,
                },
                match env_theme {
                    Some(v) => Some(v@),
                    None => None,
                },
            ),
        ensures
            is_ascii_text(trim(s@)) && ascii_named_theme(s@) is Some ==> r == ascii_named_theme(s@)->0,
            r == match named_theme(s@) {
                Some(t) => t,
                None => host_theme(
                    match colorfgbg {
                        Some(v) => Some(v@),
                        None => None,
                    },
                    match env_theme {
                        Some(v) => Some(v@),
                        None => None,
                    },
                ),
            },
    {
        match ThemeName::parse_named(s) {
            Some(t) => t,
            None => ThemeName::from_host(colorfgbg, env_theme),
        }
    }

    /// Parses a theme setting as `parse` does, when that ends: `None`
    /// exactly when the setting says `auto`, `COLORFGBG` gives no answer and
    /// `RS_AGENT_THEME` says `auto` too.
    pub fn parse_checked(s: &str, colorfgbg: Option<&str>, env_theme: Option<&str>) -> (r: Option<ThemeName>)
        ensures
            r is None <==> named_theme(s@) is None && !host_detection_ends(
                match colorfgbg {
                    Some(v) => Some(v@),
                    None => None,
                },
                match env_theme {
                    Some(v) => Some(v@),
                    None => None,
                },
            ),
            r matches Some(t) ==> t == match named_theme(s@) {
                Some(t) => t,
                None => host_theme(
                    match colorfgbg {
                        Some(v) => Some(v@),
                        None => None,
                    },
                    match env_theme {
                        Some(v) => Some(v@),
                        None => None,
                    },
                ),
            },
    {
        if ThemeName::parse_named(s).is_some() {
            return Some(ThemeName::parse(s, colorfgbg, env_theme));
        }
        let decided = match colorfgbg {
            Some(v) => theme_from_colorfgbg_exec(v).is_some(),
            None => false,
        };
        let ends = decided || match env_theme {
            Some(t) => ThemeName::parse_named(t).is_some(),
            None => true,
        };
        if ends {
            Some(ThemeName::parse(s, colorfgbg, env_theme))
        } else {
            None
        }
    }

    /// The theme's name.
    pub fn as_str(self) -> (r: &'static str)
        ensures
            r@ == (match self {
                ThemeName::Dark => "dark"@,
                ThemeName::Light => "light"@,
                ThemeName::Forest => "forest"@,
            }),
    {
        match self {
            ThemeName::Dark => "dark",
            ThemeName::Light => "light",
            ThemeName::Forest => "forest",
        }
    }

    /// The code highlighting theme to pair with this theme.
    pub fn syntect_theme(self) -> (r: &'static str)
        ensures
            r@ == (match self {
                ThemeName::Light => "base16-ocean.light"@,
                _ => "base16-ocean.dark"@,
            }),
    {
        match self {
            ThemeName::Light => "base16-ocean.light",
            ThemeName::Dark | ThemeName::Forest => "base16-ocean.dark",
        }
    }
}

/// A terminal color: 24-bit RGB or the terminal's default.
#[derive(Debug, Clone, Copy, PartialEq, Eq, Structural)]
pub enum Color {
    Rgb(u8, u8, u8),
    Reset,
}

/// All UI colors: chat role colors, surfaces, and the four agent states.
#[derive(Debug, Clone, Copy, PartialEq, Eq, Structural)]
pub struct Palette {
    pub user: Color,
    pub assistant: Color,
    pub system: Color,
    pub tool: Color,
    pub muted: Color,
    pub accent: Color,
    pub danger: Color,
    pub warn: Color,
    pub ok: Color,
    pub text: Color,
    pub border: Color,
    pub highlight_fg: Color,
    pub highlight_bg: Color,
    pub panel_bg: Color,
    pub surface0: Color,
    pub surface1: Color,
    pub surface_dim: Color,
    pub overlay0: Color,
    pub overlay1: Color,
    pub subtext: Color,
    pub state_blocked: Color,
    pub state_working: Color,
    pub state_done: Color,
    pub state_idle: Color,
}

/// The palette of each theme (Catppuccin Mocha for dark, a clean light
/// palette, Everforest for forest).
pub open spec fn palette_of(name: ThemeName) -> Palette {
    match name {
        ThemeName::Dark => Palette {
            user: Color::Rgb(166, 227, 161),
            assistant: Color::Rgb(249, 226, 175),
            system: Color::Rgb(148, 226, 213),
            tool: Color::Rgb(137, 180, 250),
            muted: Color::Rgb(108, 112, 134),
            accent: Color::Rgb(137, 180, 250),
            danger: Color::Rgb(243, 139, 168),
            warn: Color::Rgb(250, 179, 135),
            ok: Color::Rgb(166, 227, 161),
            text: Color::Rgb(205, 214, 244),
            border: Color::Rgb(69, 71, 90),
            highlight_fg: Color::Rgb(24, 24, 37),
            highlight_bg: Color::Rgb(137, 180, 250),
            panel_bg: Color::Rgb(24, 24, 37),
            surface0: Color::Rgb(49, 50, 68),
            surface1: Color::Rgb(69, 71, 90),
            surface_dim: Color::Rgb(30, 30, 46),
            overlay0: Color::Rgb(108, 112, 134),
            overlay1: Color::Rgb(127, 132, 156),
            subtext: Color::Rgb(166, 173, 200),
            state_blocked: Color::Rgb(243, 139, 168),
            state_working: Color::Rgb(249, 226, 175),
            state_done: Color::Rgb(148, 226, 213),
            state_idle: Color::Rgb(166, 227, 161),
        },
        ThemeName::Light => Palette {
            user: Color::Rgb(26, 127, 55),
            assistant: Color::Rgb(130, 80, 223),
            system: Color::Rgb(17, 128, 128),
            tool: Color::Rgb(9, 105, 218),
            muted: Color::Rgb(110, 118, 129),
            accent: Color::Rgb(9, 105, 218),
            danger: Color::Rgb(207, 34, 46),
            warn: Color::Rgb(154, 103, 0),
            ok: Color::Rgb(26, 127, 55),
            text: Color::Rgb(31, 35, 40),
            border: Color::Rgb(208, 215, 222),
            highlight_fg: Color::Rgb(255, 255, 255),
            highlight_bg: Color::Rgb(9, 105, 218),
            panel_bg: Color::Rgb(255, 255, 255),
            surface0: Color::Rgb(246, 248, 250),
            surface1: Color::Rgb(208, 215, 222),
            surface_dim: Color::Reset,
            overlay0: Color::Rgb(110, 118, 129),
            overlay1: Color::Rgb(87, 96, 106),
            subtext: Color::Rgb(65, 74, 84),
            state_blocked: Color::Rgb(207, 34, 46),
            state_working: Color::Rgb(154, 103, 0),
            state_done: Color::Rgb(17, 128, 128),
            state_idle: Color::Rgb(26, 127, 55),
        },
        ThemeName::Forest => Palette {
            user: Color::Rgb(167, 192, 128),
            assistant: Color::Rgb(219, 188, 127),
            system: Color::Rgb(131, 192, 146),
            tool: Color::Rgb(127, 187, 179),
            muted: Color::Rgb(133, 146, 137),
            accent: Color::Rgb(167, 192, 128),
            danger: Color::Rgb(230, 126, 128),
            warn: Color::Rgb(230, 152, 117),
            ok: Color::Rgb(167, 192, 128),
            text: Color::Rgb(211, 198, 170),
            border: Color::Rgb(65, 75, 82),
            highlight_fg: Color::Rgb(39, 46, 51),
            highlight_bg: Color::Rgb(167, 192, 128),
            panel_bg: Color::Rgb(39, 46, 51),
            surface0: Color::Rgb(55, 63, 69),
            surface1: Color::Rgb(65, 75, 82),
            surface_dim: Color::Rgb(45, 53, 59),
            overlay0: Color::Rgb(133, 146, 137),
            overlay1: Color::Rgb(157, 169, 160),
            subtext: Color::Rgb(179, 188, 161),
            state_blocked: Color::Rgb(230, 126, 128),
            state_working: Color::Rgb(219, 188, 127),
            state_done: Color::Rgb(131, 192, 146),
            state_idle: Color::Rgb(167, 192, 128),
        },
    }
}

impl Palette {
    /// The palette of a theme.
    pub fn for_theme(name: ThemeName) -> (r: Palette)
        ensures
            r == palette_of(name),
    {
        match name {
            ThemeName::Dark => Palette {
                user: Color::Rgb(166, 227, 161),
                assistant: Color::Rgb(249, 226, 175),
                system: Color::Rgb(148, 226, 213),
                tool: Color::Rgb(137, 180, 250),
                muted: Color::Rgb(108, 112, 134),
                accent: Color::Rgb(137, 180, 250),
                danger: Color::Rgb(243, 139, 168),
                warn: Color::Rgb(250, 179, 135),
                ok: Color::Rgb(166, 227, 161),
                text: Color::Rgb(205, 214, 244),
                border: Color::Rgb(69, 71, 90),
                highlight_fg: Color::Rgb(24, 24, 37),
                highlight_bg: Color::Rgb(137, 180, 250),
                panel_bg: Color::Rgb(24, 24, 37),
                surface0: Color::Rgb(49, 50, 68),
                surface1: Color::Rgb(69, 71, 90),
                surface_dim: Color::Rgb(30, 30, 46),
                overlay0: Color::Rgb(108, 112, 134),
                overlay1: Color::Rgb(127, 132, 156),
                subtext: Color::Rgb(166, 173, 200),
                state_blocked: Color::Rgb(243, 139, 168),
                state_working: Color::Rgb(249, 226, 175),
                state_done: Color::Rgb(148, 226, 213),
                state_idle: Color::Rgb(166, 227, 161),
            },
            ThemeName::Light => Palette {
                user: Color::Rgb(26, 127, 55),
                assistant: Color::Rgb(130, 80, 223),
                system: Color::Rgb(17, 128, 128),
                tool: Color::Rgb(9, 105, 218),
                muted: Color::Rgb(110, 118, 129),
                accent: Color::Rgb(9, 105, 218),
                danger: Color::Rgb(207, 34, 46),
                warn: Color::Rgb(154, 103, 0),
                ok: Color::Rgb(26, 127, 55),
                text: Color::Rgb(31, 35, 40),
                border: Color::Rgb(208, 215, 222),
                highlight_fg: Color::Rgb(255, 255, 255),
                highlight_bg: Color::Rgb(9, 105, 218),
                panel_bg: Color::Rgb(255, 255, 255),
                surface0: Color::Rgb(246, 248, 250),
                surface1: Color::Rgb(208, 215, 222),
                surface_dim: Color::Reset,
                overlay0: Color::Rgb(110, 118, 129),
                overlay1: Color::Rgb(87, 96, 106),
                subtext: Color::Rgb(65, 74, 84),
                state_blocked: Color::Rgb(207, 34, 46),
                state_working: Color::Rgb(154, 103, 0),
                state_done: Color::Rgb(17, 128, 128),
                state_idle: Color::Rgb(26, 127, 55),
            },
            ThemeName::Forest => Palette {
                user: Color::Rgb(167, 192, 128),
                assistant: Color::Rgb(219, 188, 127),
                system: Color::Rgb(131, 192, 146),
                tool: Color::Rgb(127, 187, 179),
                muted: Color::Rgb(133, 146, 137),
                accent: Color::Rgb(167, 192, 128),
                danger: Color::Rgb(230, 126, 128),
                warn: Color::Rgb(230, 152, 117),
                ok: Color::Rgb(167, 192, 128),
                text: Color::Rgb(211, 198, 170),
                border: Color::Rgb(65, 75, 82),
                highlight_fg: Color::Rgb(39, 46, 51),
                highlight_bg: Color::Rgb(167, 192, 128),
                panel_bg: Color::Rgb(39, 46, 51),
                surface0: Color::Rgb(55, 63, 69),
                surface1: Color::Rgb(65, 75, 82),
                surface_dim: Color::Rgb(45, 53, 59),
                overlay0: Color::Rgb(133, 146, 137),
                overlay1: Color::Rgb(157, 169, 160),
                subtext: Color::Rgb(179, 188, 161),
                state_blocked: Color::Rgb(230, 126, 128),
                state_working: Color::Rgb(219, 188, 127),
                state_done: Color::Rgb(131, 192, 146),
                state_idle: Color::Rgb(167, 192, 128),
            },
        }
    }

    /// Readable foreground on the accent color.
    pub fn contrast_on_accent(self) -> (r: Color)
        ensures
            r == self.highlight_fg,
    {
        self.highlight_fg
    }
}

} // verus!
