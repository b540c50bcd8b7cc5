//! Markdown to styled lines: headings, emphasis, quotes, lists, inline and
//! fenced code (highlighted), rules and HTML, as the chat view draws them.

use vstd::prelude::*;
use crate::text::{chars_of, lines, lines_of, string_of_all, views};
use crate::theme::{Color, Palette};
use pulldown_cmark::{CodeBlockKind, Event, Tag, TagEnd};
use syntect::easy::HighlightLines;
use syntect::highlighting::{FontStyle, ThemeSet};
use syntect::parsing::SyntaxSet;

verus! {

/// Color role of a markdown span.
#[derive(Debug, Clone, Copy, PartialEq, Eq, Structural)]
pub enum MdColor {
    Text,
    Heading1,
    Heading2,
    Heading3,
    Quote,
    InlineCode,
    Rule,
    Gutter,
    Rgb(u8, u8, u8),
    Plain,
}

/// Style of a markdown span.
#[derive(Debug, Clone, Copy, PartialEq, Eq, Structural)]
pub struct MdStyle {
    pub color: MdColor,
    pub bold: bool,
    pub italic: bool,
    pub crossed: bool,
}

/// A markdown event, as the renderer reads it.
#[derive(Debug, Clone)]
pub enum MdEvent {
    StartParagraph,
    StartHeading(u32),
    StartBlockQuote,
    /// A code block; its fence's language (empty when indented).
    StartCodeBlock(String),
    StartList,
    StartItem,
    StartEmphasis,
    StartStrong,
    StartStrikethrough,
    EndParagraph,
    EndHeading,
    EndBlockQuote,
    EndCodeBlock,
    EndList,
    EndItem,
    EndEmphasis,
    EndStrong,
    EndStrikethrough,
    Text(String),
    Code(String),
    Html(String),
    Break,
    Rule,
    Other,
}

/// A span: text and style.
pub type MdSpan = (Seq<char>, MdStyle);

/// Views of spans.
pub open spec fn md_span_views(s: Seq<(String, MdStyle)>) -> Seq<MdSpan> {
    s.map_values(|p: (String, MdStyle)| (p.0@, p.1))
}

/// Views of lines.
pub open spec fn md_line_views(s: Seq<Vec<(String, MdStyle)>>) -> Seq<Seq<MdSpan>> {
    s.map_values(|l: Vec<(String, MdStyle)>| md_span_views(l@))
}

/// Named result of highlighting `code` (written in `lang`) with the
/// syntect theme `theme`: per line of code, its colored spans.
pub uninterp spec fn spec_highlight(code: Seq<char>, lang: Seq<char>, theme: Seq<char>) -> Seq<Seq<MdSpan>>;

/// Named answer to whether syntect's default theme set holds a theme of
/// this name.
pub uninterp spec fn spec_theme_known(theme: Seq<char>) -> bool;

/// Calls syntect: loads the default syntaxes and themes, picks the syntax
/// for `lang` (plain text when unknown) and, when the default theme set
/// holds `theme` (named `spec_theme_known`), highlights each line of `code`
/// with it (`HighlightLines::highlight_line`), keeping each span's
/// foreground and bold / italic; the result is named `spec_highlight`.
#[verifier::external_body]
fn highlight(code: &str, lang: &str, theme: &str) -> (r: Option<Vec<Vec<(String, MdStyle)>>>)
    ensures
        r is Some <==> spec_theme_known(theme@),
        r matches Some(v) ==> md_line_views(v@) == spec_highlight(code@, lang@, theme@),
{
    let ss = SyntaxSet::load_defaults_newlines();
    let ts = ThemeSet::load_defaults();
    let syn = ss.find_syntax_by_token(lang).unwrap_or_else(|| ss.find_syntax_plain_text());
    let mut h = HighlightLines::new(syn, ts.themes.get(theme)?);
    Some(code.lines().map(|l| h.highlight_line(l, &ss).unwrap_or_default().into_iter().map(|(s, t)| {
        let (c, f) = (s.foreground, s.font_style);
        let st = MdStyle { color: MdColor::Rgb(c.r, c.g, c.b), bold: f.contains(FontStyle::BOLD), italic: f.contains(FontStyle::ITALIC), crossed: false };
        (t.to_string(), st)
    }).collect()).collect())
}

/// The theme used when the asked one is not known.
pub open spec fn fallback_theme() -> Seq<char> {
    "base16-ocean.dark"@
}

/// Code highlighted with the asked theme when syntect knows it, else with
/// `base16-ocean.dark`; should even that be missing, each line of the code
/// as one plain span.
pub open spec fn highlighted(code: Seq<char>, lang: Seq<char>, theme: Seq<char>) -> Seq<Seq<MdSpan>> {
    if spec_theme_known(theme) {
        spec_highlight(code, lang, theme)
    } else if spec_theme_known(fallback_theme()) {
        spec_highlight(code, lang, fallback_theme())
    } else {
        lines(code).map_values(|l: Seq<char>| seq![(l, plain_style())])
    }
}

/// Highlights code (see `highlighted`).
fn highlight_code(code: &str, lang: &str, theme: &str) -> (r: Vec<Vec<(String, MdStyle)>>)
    ensures
        md_line_views(r@) == highlighted(code@, lang@, theme@),
{
    if let Some(v) = highlight(code, lang, theme) {
        return v;
    }
    if let Some(v) = highlight(code, lang, "base16-ocean.dark") {
        return v;
    }
    let cv = chars_of(code);
    let ls = lines_of(&cv);
    let ghost target = lines(code@).map_values(|l: Seq<char>| seq![(l, plain_style())]);
    let mut out: Vec<Vec<(String, MdStyle)>> = Vec::new();
    let mut i: usize = 0;
    while i < ls.len()
        invariant
            i <= ls.len(),
            views(ls@) == lines(code@),
            target == lines(code@).map_values(|l: Seq<char>| seq![(l, plain_style())]),
            md_line_views(out@) == target.take(i as int),
        decreases ls.len() - i,
    {
        let mut line: Vec<(String, MdStyle)> = Vec::new();
        let t = string_of_all(&ls[i]);
        let ghost tv = t@;
        line.push((t, plain_style_exec()));
        let ghost before = out@;
        proof {
            assert(views(ls@)[i as int] == ls@[i as int]@);
            assert(md_span_views(line@) =~= seq![(tv, plain_style())]);
        }
        out.push(line);
        proof {
            assert(md_line_views(out@) =~= md_line_views(before).push(seq![(tv, plain_style())]));
            assert(target.take(i + 1) =~= target.take(i as int).push(target[i as int]));
        }
        i += 1;
    }
    proof {
        assert(target.take(ls.len() as int) =~= target);
    }
    out
}

/// Renderer state between events.
pub struct MdState {
    pub lines: Seq<Seq<MdSpan>>,
    pub spans: Seq<MdSpan>,
    pub para_sep: bool,
    pub in_code: bool,
    pub code_lang: Seq<char>,
    pub code_text: Seq<char>,
    pub in_heading: bool,
    pub level: u32,
    pub in_quote: bool,
    pub depth: nat,
    pub first_item: bool,
    pub bold: bool,
    pub italic: bool,
    pub strike: bool,
}

/// The state before the first event.
pub open spec fn md_start() -> MdState {
    MdState {
        lines: seq![],
        spans: seq![],
        para_sep: false,
        in_code: false,
        code_lang: seq![],
        code_text: seq![],
        in_heading: false,
        level: 0,
        in_quote: false,
        depth: 0,
        first_item: false,
        bold: false,
        italic: false,
        strike: false,
    }
}

/// Unstyled.
pub open spec fn plain_style() -> MdStyle {
    MdStyle { color: MdColor::Plain, bold: false, italic: false, crossed: false }
}

/// Style of text: heading color and bold inside a heading (level 1, 2,
/// then the rest), the quote color inside a quote, then emphasis.
pub open spec fn text_style(st: MdState) -> MdStyle {
    MdStyle {
        color: if st.in_quote {
            MdColor::Quote
        } else if st.in_heading {
            if st.level == 1 {
                MdColor::Heading1
            } else if st.level == 2 {
                MdColor::Heading2
            } else {
                MdColor::Heading3
            }
        } else {
            MdColor::Text
        },
        bold: st.in_heading || st.bold,
        italic: st.italic,
        crossed: st.strike,
    }
}

/// The pending spans become a line (an empty one when there are none).
pub open spec fn flushed(st: MdState) -> MdState {
    MdState {
        lines: st.lines.push(if st.spans.len() == 0 {
            seq![(seq![], plain_style())]
        } else {
            st.spans
        }),
        spans: seq![],
        ..st
    }
}

/// Bullet of a list item at nesting `depth`.
pub open spec fn bullet(depth: nat) -> Seq<char> {
    Seq::new((2 * (if depth > 0 {
        depth - 1
    } else {
        0
    })) as nat, |i: int| ' ') + "\u{2022} "@
}

/// Highlighted code lines, each behind a gutter.
pub open spec fn guttered(hl: Seq<Seq<MdSpan>>) -> Seq<Seq<MdSpan>> {
    hl.map_values(|l: Seq<MdSpan>| seq![(" \u{2502} "@, MdStyle { color: MdColor::Gutter, bold: false, italic: false, crossed: false })] + l)
}

/// One event applied to the state.
pub open spec fn md_step(st: MdState, ev: MdEvent, theme: Seq<char>) -> MdState {
    match ev {
        MdEvent::StartParagraph => MdState {
            lines: if st.para_sep && st.depth == 0 {
                st.lines.push(seq![(seq![], plain_style())])
            } else {
                st.lines
            },
            para_sep: false,
            ..st
        },
        MdEvent::StartHeading(l) => MdState { in_heading: true, level: l, para_sep: false, ..st },
        MdEvent::StartBlockQuote => MdState { in_quote: true, ..st },
        MdEvent::StartCodeBlock(lang) => MdState { in_code: true, code_lang: lang@, code_text: seq![], ..st },
        MdEvent::StartList => MdState { depth: st.depth + 1, ..st },
        MdEvent::StartItem => MdState { first_item: true, ..st },
        MdEvent::StartEmphasis => MdState { italic: true, ..st },
        MdEvent::StartStrong => MdState { bold: true, ..st },
        MdEvent::StartStrikethrough => MdState { strike: true, ..st },
        MdEvent::EndParagraph => MdState { para_sep: true, ..flushed(st) },
        MdEvent::EndHeading => flushed(MdState { in_heading: false, level: 0, ..st }),
        MdEvent::EndBlockQuote => MdState { in_quote: false, ..st },
        MdEvent::EndCodeBlock => MdState {
            in_code: false,
            lines: if st.code_text.len() > 0 {
                st.lines + guttered(highlighted(st.code_text, st.code_lang, theme))
            } else {
                st.lines
            },
            code_text: seq![],
            ..st
        },
        MdEvent::EndList => MdState { depth: if st.depth > 0 { (st.depth - 1) as nat } else { 0 }, ..st },
        MdEvent::EndItem => MdState {
            lines: if st.spans.len() > 0 {
                st.lines.push(st.spans)
            } else {
                st.lines
            },
            spans: seq![],
            first_item: false,
            ..st
        },
        MdEvent::EndEmphasis => MdState { italic: false, ..st },
        MdEvent::EndStrong => MdState { bold: false, ..st },
        MdEvent::EndStrikethrough => MdState { strike: false, ..st },
        MdEvent::Text(t) => if st.in_code {
            MdState { code_text: st.code_text + t@, ..st }
        } else if st.first_item && st.spans.len() == 0 {
            MdState { spans: seq![(bullet(st.depth), plain_style()), (t@, text_style(st))], first_item: false, ..st }
        } else {
            MdState { spans: st.spans.push((t@, text_style(st))), ..st }
        },
        MdEvent::Code(t) => MdState {
            spans: st.spans.push((" "@ + t@ + " "@, MdStyle { color: MdColor::InlineCode, bold: false, italic: false, crossed: false })),
            ..st
        },
        MdEvent::Html(t) => MdState {
            spans: st.spans.push((t@, MdStyle { color: MdColor::Quote, bold: false, italic: false, crossed: false })),
            ..st
        },
        MdEvent::Break => if st.in_code {
            MdState { code_text: st.code_text.push('\n'), ..st }
        } else {
            flushed(st)
        },
        MdEvent::Rule => MdState {
            lines: st.lines.push(seq![(Seq::new(40, |i: int| '\u{2500}'), MdStyle { color: MdColor::Rule, bold: false, italic: false, crossed: false })]),
            ..st
        },
        MdEvent::Other => st,
    }
}

/// All events applied in order.
pub open spec fn md_fold(evs: Seq<MdEvent>, theme: Seq<char>) -> MdState
    decreases evs.len(),
{
    if evs.len() == 0 {
        md_start()
    } else {
        md_step(md_fold(evs.drop_last(), theme), evs.last(), theme)
    }
}

/// The rendered lines: those finished, the pending spans as a last line,
/// and a single empty line when there is nothing at all.
pub open spec fn md_render(evs: Seq<MdEvent>, theme: Seq<char>) -> Seq<Seq<MdSpan>> {
    let st = md_fold(evs, theme);
    let ls = if st.spans.len() > 0 {
        st.lines.push(st.spans)
    } else {
        st.lines
    };
    if ls.len() == 0 {
        seq![seq![(seq![], plain_style())]]
    } else {
        ls
    }
}

/// Exec renderer state.
struct Renderer {
    lines: Vec<Vec<(String, MdStyle)>>,
    spans: Vec<(String, MdStyle)>,
    para_sep: bool,
    in_code: bool,
    code_lang: String,
    code_text: String,
    in_heading: bool,
    level: u32,
    in_quote: bool,
    depth: usize,
    first_item: bool,
    bold: bool,
    italic: bool,
    strike: bool,
}

impl Renderer {
    spec fn state(&self) -> MdState {
        MdState {
            lines: md_line_views(self.lines@),
            spans: md_span_views(self.spans@),
            para_sep: self.para_sep,
            in_code: self.in_code,
            code_lang: self.code_lang@,
            code_text: self.code_text@,
            in_heading: self.in_heading,
            level: self.level,
            in_quote: self.in_quote,
            depth: self.depth as nat,
            first_item: self.first_item,
            bold: self.bold,
            italic: self.italic,
            strike: self.strike,
        }
    }

    fn push_line(&mut self, line: Vec<(String, MdStyle)>)
        ensures
            final(self).state() == (MdState { lines: old(self).state().lines.push(md_span_views(line@)), ..old(self).state() }),
    {
        let ghost before = self.lines@;
        let ghost lv = md_span_views(line@);
        self.lines.push(line);
        proof {
            assert(md_line_views(self.lines@) =~= md_line_views(before).push(lv));
        }
    }

    fn push_span(&mut self, t: String, style: MdStyle)
        ensures
            final(self).state() == (MdState { spans: old(self).state().spans.push((t@, style)), ..old(self).state() }),
    {
        let ghost before = self.spans@;
        let ghost tv = t@;
        self.spans.push((t, style));
        proof {
            assert(md_span_views(self.spans@) =~= md_span_views(before).push((tv, style)));
        }
    }

    fn flush(&mut self)
        ensures
            final(self).state() == flushed(old(self).state()),
    {
        let mut taken: Vec<(String, MdStyle)> = Vec::new();
        std::mem::swap(&mut self.spans, &mut taken);
        if taken.len() == 0 {
            let mut e: Vec<(String, MdStyle)> = Vec::new();
            e.push((String::new(), plain_style_exec()));
            proof {
                assert(md_span_views(e@) =~= seq![(Seq::<char>::empty(), plain_style())]);
            }
            self.push_line(e);
        } else {
            self.push_line(taken);
        }
        proof {
            assert(md_span_views(self.spans@) =~= Seq::<MdSpan>::empty());
        }
    }

    fn text_style_exec(&self) -> (r: MdStyle)
        ensures
            r == text_style(self.state()),
    {
        let color = if self.in_quote {
            MdColor::Quote
        } else if self.in_heading {
            if self.level == 1 {
                MdColor::Heading1
            } else if self.level == 2 {
                MdColor::Heading2
            } else {
                MdColor::Heading3
            }
        } else {
            MdColor::Text
        };
        MdStyle { color, bold: self.in_heading || self.bold, italic: self.italic, crossed: self.strike }
    }
}

fn plain_style_exec() -> (r: MdStyle)
    ensures
        r == plain_style(),
{
    MdStyle { color: MdColor::Plain, bold: false, italic: false, crossed: false }
}

fn bullet_exec(depth: usize) -> (r: String)
    ensures
        r@ == bullet(depth as nat),
{
    let n = if depth > 0 {
        depth - 1
    } else {
        0
    };
    let mut s = String::new();
    let mut i: usize = 0;
    while i < n
        invariant
            i <= n,
            s@ == Seq::new((2 * i) as nat, |k: int| ' '),
        decreases n - i,
    {
        s.push(' ');
        s.push(' ');
        proof {
            assert(s@ =~= Seq::new((2 * (i + 1)) as nat, |k: int| ' '));
        }
        i += 1;
    }
    s.append("\u{2022} ");
    proof {
        assert(s@ =~= Seq::new((2 * n) as nat, |k: int| ' ') + "\u{2022} "@);
    }
    s
}

impl Renderer {
    fn end_code_block(&mut self, theme: &str)
        ensures
            final(self).state() == md_step(old(self).state(), MdEvent::EndCodeBlock, theme@),
            final(self).depth == old(self).depth,
    {
        let ghost st = self.state();
        self.in_code = false;
        let mut code = String::new();
        std::mem::swap(&mut self.code_text, &mut code);
        if !code.as_str().is_empty() {
            let hl = highlight_code(code.as_str(), self.code_lang.as_str(), theme);
            let ghost hv = md_line_views(hl@);
            let mut k: usize = 0;
            proof {
                assert(guttered(hv.take(0)) =~= Seq::<Seq<MdSpan>>::empty());
                assert(st.lines + guttered(hv.take(0)) =~= st.lines);
                assert(self.state() =~= MdState { lines: st.lines + guttered(hv.take(0)), in_code: false, code_text: seq![], ..st });
            }
            while k < hl.len()
                invariant
                    k <= hl.len(),
                    hv == md_line_views(hl@),
                    self.state() == (MdState { lines: st.lines + guttered(hv.take(k as int)), in_code: false, code_text: seq![], ..st }),
                decreases hl.len() - k,
            {
                let mut line: Vec<(String, MdStyle)> = Vec::new();
                line.push((" \u{2502} ".to_string(), MdStyle { color: MdColor::Gutter, bold: false, italic: false, crossed: false }));
                let mut j: usize = 0;
                proof {
                    assert(md_span_views(hl@[k as int]@).take(0) =~= Seq::<MdSpan>::empty());
                    assert(md_span_views(line@) =~= seq![(" \u{2502} "@, MdStyle { color: MdColor::Gutter, bold: false, italic: false, crossed: false })] + md_span_views(hl@[k as int]@).take(0));
                }
                while j < hl[k].len()
                    invariant
                        j <= hl[k as int].len(),
                        k < hl.len(),
                        md_span_views(line@) == seq![(" \u{2502} "@, MdStyle { color: MdColor::Gutter, bold: false, italic: false, crossed: false })] + md_span_views(hl@[k as int]@).take(j as int),
                    decreases hl[k as int].len() - j,
                {
                    let p = (hl[k][j].0.clone(), hl[k][j].1);
                    let ghost before = line@;
                    line.push(p);
                    proof {
                        assert(md_span_views(line@) =~= md_span_views(before).push(md_span_views(hl@[k as int]@)[j as int]));
                        assert(md_span_views(hl@[k as int]@).take(j + 1) =~= md_span_views(hl@[k as int]@).take(j as int).push(md_span_views(hl@[k as int]@)[j as int]));
                    }
                    j += 1;
                }
                proof {
                    assert(md_span_views(hl@[k as int]@).take(hl[k as int].len() as int) =~= md_span_views(hl@[k as int]@));
                    assert(hv[k as int] == md_span_views(hl@[k as int]@));
                    assert(guttered(hv.take(k + 1)) =~= guttered(hv.take(k as int)).push(md_span_views(line@)));
                }
                self.push_line(line);
                proof {
                    assert(st.lines + guttered(hv.take(k + 1)) =~= (st.lines + guttered(hv.take(k as int))).push(md_span_views(line@)));
                }
                k += 1;
            }
            proof {
                assert(hv.take(hl.len() as int) =~= hv);
            }
        }
        proof {
            assert(self.state() =~= md_step(st, MdEvent::EndCodeBlock, theme@));
        }
    }

    fn on_text(&mut self, t: &String)
        ensures
            final(self).state() == md_step(old(self).state(), MdEvent::Text(*t), theme_any()),
            final(self).depth == old(self).depth,
    {
        let ghost st = self.state();
        if self.in_code {
            self.code_text.append(t.as_str());
        } else {
            let style = self.text_style_exec();
            let tc = t.clone();
            proof {
                assert(tc@ == t@);
            }
            if self.first_item && self.spans.len() == 0 {
                let b = bullet_exec(self.depth);
                self.push_span(b, plain_style_exec());
                self.first_item = false;
                self.push_span(tc, style);
                proof {
                    assert(st.spans.len() == 0);
                    assert(self.state().spans =~= seq![(bullet(st.depth), plain_style()), (t@, text_style(st))]);
                }
            } else {
                self.push_span(tc, style);
            }
        }
        proof {
            assert(self.state() =~= md_step(st, MdEvent::Text(*t), theme_any()));
        }
    }
}

/// Any theme (text events do not depend on it).
spec fn theme_any() -> Seq<char> {
    seq![]
}

impl Renderer {
    #[verifier::rlimit(100)]
    fn step(&mut self, ev: &MdEvent, theme: &str)
        requires
            old(self).depth < usize::MAX,
        ensures
            final(self).state() == md_step(old(self).state(), *ev, theme@),
            final(self).depth <= old(self).depth + 1,
    {
        let ghost st = self.state();
        match ev {
            MdEvent::StartParagraph => {
                if self.para_sep && self.depth == 0 {
                    let mut e: Vec<(String, MdStyle)> = Vec::new();
                    e.push((String::new(), plain_style_exec()));
                    proof {
                        assert(md_span_views(e@) =~= seq![(Seq::<char>::empty(), plain_style())]);
                    }
                    self.push_line(e);
                }
                self.para_sep = false;
                proof { assert(self.state() =~= md_step(st, *ev, theme@)); }
            },
            MdEvent::StartHeading(l) => {
                self.in_heading = true;
                self.level = *l;
                self.para_sep = false;
                proof { assert(self.state() =~= md_step(st, *ev, theme@)); }
            },
            MdEvent::StartBlockQuote => {
                self.in_quote = true;
                proof { assert(self.state() =~= md_step(st, *ev, theme@)); }
            },
            MdEvent::StartCodeBlock(lang) => {
                self.in_code = true;
                self.code_lang = lang.clone();
                self.code_text = String::new();
                proof { assert(self.state() =~= md_step(st, *ev, theme@)); }
            },
            MdEvent::StartList => {
                self.depth = self.depth + 1;
                proof { assert(self.state() =~= md_step(st, *ev, theme@)); }
            },
            MdEvent::StartItem => {
                self.first_item = true;
                proof { assert(self.state() =~= md_step(st, *ev, theme@)); }
            },
            MdEvent::StartEmphasis => {
                self.italic = true;
                proof { assert(self.state() =~= md_step(st, *ev, theme@)); }
            },
            MdEvent::StartStrong => {
                self.bold = true;
                proof { assert(self.state() =~= md_step(st, *ev, theme@)); }
            },
            MdEvent::StartStrikethrough => {
                self.strike = true;
                proof { assert(self.state() =~= md_step(st, *ev, theme@)); }
            },
            MdEvent::EndParagraph => {
                self.flush();
                self.para_sep = true;
                proof { assert(self.state() =~= md_step(st, *ev, theme@)); }
            },
            MdEvent::EndHeading => {
                self.in_heading = false;
                self.level = 0;
                self.flush();
                proof { assert(self.state() =~= md_step(st, *ev, theme@)); }
            },
            MdEvent::EndBlockQuote => {
                self.in_quote = false;
                proof { assert(self.state() =~= md_step(st, *ev, theme@)); }
            },
            MdEvent::EndCodeBlock => {
                self.end_code_block(theme);
            },
            MdEvent::EndList => {
                self.depth = if self.depth > 0 {
                    self.depth - 1
                } else {
                    0
                };
                proof { assert(self.state() =~= md_step(st, *ev, theme@)); }
            },
            MdEvent::EndItem => {
                if self.spans.len() > 0 {
                    let mut taken: Vec<(String, MdStyle)> = Vec::new();
                    std::mem::swap(&mut self.spans, &mut taken);
                    self.push_line(taken);
                    proof {
                        assert(md_span_views(self.spans@) =~= Seq::<MdSpan>::empty());
                    }
                } else {
                    proof {
                        assert(md_span_views(self.spans@) =~= Seq::<MdSpan>::empty());
                    }
                }
                self.first_item = false;
                proof { assert(self.state() =~= md_step(st, *ev, theme@)); }
            },
            MdEvent::EndEmphasis => {
                self.italic = false;
                proof { assert(self.state() =~= md_step(st, *ev, theme@)); }
            },
            MdEvent::EndStrong => {
                self.bold = false;
                proof { assert(self.state() =~= md_step(st, *ev, theme@)); }
            },
            MdEvent::EndStrikethrough => {
                self.strike = false;
                proof { assert(self.state() =~= md_step(st, *ev, theme@)); }
            },
            MdEvent::Text(t) => {
                self.on_text(t);
            },
            MdEvent::Code(t) => {
                let mut c = " ".to_string();
                c.append(t.as_str());
                c.append(" ");
                self.push_span(c, MdStyle { color: MdColor::InlineCode, bold: false, italic: false, crossed: false });
                proof { assert(self.state() =~= md_step(st, *ev, theme@)); }
            },
            MdEvent::Html(t) => {
                self.push_span(t.clone(), MdStyle { color: MdColor::Quote, bold: false, italic: false, crossed: false });
                proof { assert(self.state() =~= md_step(st, *ev, theme@)); }
            },
            MdEvent::Break => {
                if self.in_code {
                    self.code_text.push('\n');
                } else {
                    self.flush();
                }
                proof { assert(self.state() =~= md_step(st, *ev, theme@)); }
            },
            MdEvent::Rule => {
                let mut r = String::new();
                let mut i: usize = 0;
                while i < 40
                    invariant
                        i <= 40,
                        r@ == Seq::new(i as nat, |k: int| '\u{2500}'),
                    decreases 40 - i,
                {
                    r.push('\u{2500}');
                    proof {
                        assert(r@ =~= Seq::new((i + 1) as nat, |k: int| '\u{2500}'));
                    }
                    i += 1;
                }
                let mut line: Vec<(String, MdStyle)> = Vec::new();
                let ghost rv = r@;
                line.push((r, MdStyle { color: MdColor::Rule, bold: false, italic: false, crossed: false }));
                proof {
                    assert(md_span_views(line@) =~= seq![(rv, MdStyle { color: MdColor::Rule, bold: false, italic: false, crossed: false })]);
                }
                self.push_line(line);
                proof { assert(self.state() =~= md_step(st, *ev, theme@)); }
            },
            MdEvent::Other => {},
        }
        proof {
            assert(self.state() =~= md_step(st, *ev, theme@));
        }
    }
}

/// Render markdown events to styled lines, highlighting code blocks with
/// the syntect theme `theme`.
pub fn render_md_events(events: &Vec<MdEvent>, theme: &str) -> (r: Vec<Vec<(String, MdStyle)>>)
    ensures
        md_line_views(r@) == md_render(events@, theme@),
{
    let mut rd = Renderer {
        lines: Vec::new(),
        spans: Vec::new(),
        para_sep: false,
        in_code: false,
        code_lang: String::new(),
        code_text: String::new(),
        in_heading: false,
        level: 0,
        in_quote: false,
        depth: 0,
        first_item: false,
        bold: false,
        italic: false,
        strike: false,
    };
    proof {
        assert(md_line_views(rd.lines@) =~= Seq::<Seq<MdSpan>>::empty());
        assert(md_span_views(rd.spans@) =~= Seq::<MdSpan>::empty());
        assert(rd.code_lang@ =~= Seq::<char>::empty());
        assert(rd.code_text@ =~= Seq::<char>::empty());
        assert(rd.state() =~= md_start());
        assert(events@.take(0) =~= Seq::<MdEvent>::empty());
    }
    let mut i: usize = 0;
    while i < events.len()
        invariant
            i <= events.len(),
            rd.depth <= i,
            rd.state() == md_fold(events@.take(i as int), theme@),
        decreases events.len() - i,
    {
        proof {
            assert(events@.take(i + 1).drop_last() =~= events@.take(i as int));
            assert(events@.take(i + 1).last() == events@[i as int]);
        }
        rd.step(&events[i], theme);
        i += 1;
    }
    proof {
        assert(events@.take(events.len() as int) =~= events@);
    }
    if rd.spans.len() > 0 {
        let mut taken: Vec<(String, MdStyle)> = Vec::new();
        std::mem::swap(&mut rd.spans, &mut taken);
        rd.push_line(taken);
    }
    let mut out = rd.lines;
    if out.len() == 0 {
        let mut e: Vec<(String, MdStyle)> = Vec::new();
        e.push((String::new(), plain_style_exec()));
        proof {
            assert(md_span_views(e@) =~= seq![(Seq::<char>::empty(), plain_style())]);
        }
        out.push(e);
        proof {
            assert(md_line_views(out@) =~= seq![seq![(Seq::<char>::empty(), plain_style())]]);
        }
    }
    out
}

/// `pulldown_cmark::Event`, carried through opaquely.
#[verifier::external_type_specification]
#[verifier::external_body]
pub struct ExMdEvent<'a>(Event<'a>);

/// The codes of one parsed event: its kind (see `md_kind`), the tag it
/// starts with the heading level (see `md_start_tag`), the tag it ends (see
/// `md_end_tag`), and its text (see `md_text`).
pub type MdCodes = (u8, (u8, u32), u8, Seq<char>);

/// Named result of parsing `text` with `pulldown_cmark::Parser::new_ext`
/// (strikethrough and tables enabled): the codes of each event, in order.
pub uninterp spec fn spec_md_events(text: Seq<char>) -> Seq<MdCodes>;

/// Calls `pulldown_cmark::Parser::new_ext` on `text` with strikethrough and
/// tables enabled and reads each event (`Event::into_static`) through
/// `md_kind`, `md_start_tag`, `md_end_tag` and `md_text`; the codes are
/// named `spec_md_events`.
#[verifier::external_body]
fn md_event_codes(text: &str) -> (r: Vec<(u8, (u8, u32), u8, String)>)
    ensures
        code_views(r@) == spec_md_events(text@),
{
    let mut o = pulldown_cmark::Options::empty();
    o.insert(pulldown_cmark::Options::ENABLE_STRIKETHROUGH);
    o.insert(pulldown_cmark::Options::ENABLE_TABLES);
    pulldown_cmark::Parser::new_ext(text, o).map(|e| {
        let e = e.into_static();
        (md_kind(&e), md_start_tag(&e), md_end_tag(&e), md_text(&e))
    }).collect()
}

/// Tells the variants of a `pulldown_cmark::Event` apart, one code each: 0
/// start of a tag, 1 end of a tag, 2 text, 3 inline code, 4 inline math, 5
/// display math, 6 HTML, 7 inline HTML, 8 footnote reference, 9 soft break,
/// 10 hard break, 11 rule, 12 task list marker.
#[verifier::external_body]
fn md_kind(e: &Event<'static>) -> (r: u8)
    ensures
        r <= 12,
{
    match e {
        Event::Start(_) => 0,
        Event::End(_) => 1,
        Event::Text(_) => 2,
        Event::Code(_) => 3,
        Event::InlineMath(_) => 4,
        Event::DisplayMath(_) => 5,
        Event::Html(_) => 6,
        Event::InlineHtml(_) => 7,
        Event::FootnoteReference(_) => 8,
        Event::SoftBreak => 9,
        Event::HardBreak => 10,
        Event::Rule => 11,
        Event::TaskListMarker(_) => 12,
    }
}

/// Tells apart the tag a `pulldown_cmark::Event::Start` opens: 0
/// paragraph, 1 heading (with its level), 2 block quote, 3 code block, 4
/// list, 5 item, 6 emphasis, 7 strong, 8 strikethrough, 9 any other.
#[verifier::external_body]
fn md_start_tag(e: &Event<'static>) -> (r: (u8, u32))
    ensures
        r.0 <= 9,
{
    match e {
        Event::Start(Tag::Paragraph) => (0, 0),
        Event::Start(Tag::Heading { level, .. }) => (1, *level as u32),
        Event::Start(Tag::BlockQuote(_)) => (2, 0),
        Event::Start(Tag::CodeBlock(_)) => (3, 0),
        Event::Start(Tag::List(_)) => (4, 0),
        Event::Start(Tag::Item) => (5, 0),
        Event::Start(Tag::Emphasis) => (6, 0),
        Event::Start(Tag::Strong) => (7, 0),
        Event::Start(Tag::Strikethrough) => (8, 0),
        _ => (9, 0),
    }
}

/// Tells apart the tag a `pulldown_cmark::Event::End` closes, with the
/// codes of `md_start_tag`.
#[verifier::external_body]
fn md_end_tag(e: &Event<'static>) -> (r: u8)
    ensures
        r <= 9,
{
    match e {
        Event::End(TagEnd::Paragraph) => 0,
        Event::End(TagEnd::Heading(_)) => 1,
        Event::End(TagEnd::BlockQuote(_)) => 2,
        Event::End(TagEnd::CodeBlock) => 3,
        Event::End(TagEnd::List(_)) => 4,
        Event::End(TagEnd::Item) => 5,
        Event::End(TagEnd::Emphasis) => 6,
        Event::End(TagEnd::Strong) => 7,
        Event::End(TagEnd::Strikethrough) => 8,
        _ => 9,
    }
}

/// The text a `pulldown_cmark::Event` carries: that of text, inline code or
/// HTML, or a fenced code block's language; empty otherwise.
#[verifier::external_body]
fn md_text(e: &Event<'static>) -> String {
    match e {
        Event::Text(t) | Event::Code(t) | Event::Html(t) => t.to_string(),
        Event::Start(Tag::CodeBlock(CodeBlockKind::Fenced(lang))) => lang.to_string(),
        _ => String::new(),
    }
}

/// The renderer's event for an event's kind (see `md_kind`), tag code and
/// heading level (see `md_start_tag`, `md_end_tag`) and text (see
/// `md_text`): soft and hard breaks both break the line; math, inline
/// HTML, footnote references and task markers are not drawn.
pub open spec fn event_from(kind: u8, tag: u8, level: u32, text: String) -> MdEvent {
    if kind == 0 {
        if tag == 0 {
            MdEvent::StartParagraph
        } else if tag == 1 {
            MdEvent::StartHeading(level)
        } else if tag == 2 {
            MdEvent::StartBlockQuote
        } else if tag == 3 {
            MdEvent::StartCodeBlock(text)
        } else if tag == 4 {
            MdEvent::StartList
        } else if tag == 5 {
            MdEvent::StartItem
        } else if tag == 6 {
            MdEvent::StartEmphasis
        } else if tag == 7 {
            MdEvent::StartStrong
        } else if tag == 8 {
            MdEvent::StartStrikethrough
        } else {
            MdEvent::Other
        }
    } else if kind == 1 {
        if tag == 0 {
            MdEvent::EndParagraph
        } else if tag == 1 {
            MdEvent::EndHeading
        } else if tag == 2 {
            MdEvent::EndBlockQuote
        } else if tag == 3 {
            MdEvent::EndCodeBlock
        } else if tag == 4 {
            MdEvent::EndList
        } else if tag == 5 {
            MdEvent::EndItem
        } else if tag == 6 {
            MdEvent::EndEmphasis
        } else if tag == 7 {
            MdEvent::EndStrong
        } else if tag == 8 {
            MdEvent::EndStrikethrough
        } else {
            MdEvent::Other
        }
    } else if kind == 2 {
        MdEvent::Text(text)
    } else if kind == 3 {
        MdEvent::Code(text)
    } else if kind == 6 {
        MdEvent::Html(text)
    } else if kind == 9 || kind == 10 {
        MdEvent::Break
    } else if kind == 11 {
        MdEvent::Rule
    } else {
        MdEvent::Other
    }
}

/// The renderer's event from an event's codes and text.
pub fn event_from_codes(kind: u8, tag: u8, level: u32, text: String) -> (r: MdEvent)
    ensures
        r == event_from(kind, tag, level, text),
{
    if kind == 0 {
        if tag == 0 {
            MdEvent::StartParagraph
        } else if tag == 1 {
            MdEvent::StartHeading(level)
        } else if tag == 2 {
            MdEvent::StartBlockQuote
        } else if tag == 3 {
            MdEvent::StartCodeBlock(text)
        } else if tag == 4 {
            MdEvent::StartList
        } else if tag == 5 {
            MdEvent::StartItem
        } else if tag == 6 {
            MdEvent::StartEmphasis
        } else if tag == 7 {
            MdEvent::StartStrong
        } else if tag == 8 {
            MdEvent::StartStrikethrough
        } else {
            MdEvent::Other
        }
    } else if kind == 1 {
        if tag == 0 {
            MdEvent::EndParagraph
        } else if tag == 1 {
            MdEvent::EndHeading
        } else if tag == 2 {
            MdEvent::EndBlockQuote
        } else if tag == 3 {
            MdEvent::EndCodeBlock
        } else if tag == 4 {
            MdEvent::EndList
        } else if tag == 5 {
            MdEvent::EndItem
        } else if tag == 6 {
            MdEvent::EndEmphasis
        } else if tag == 7 {
            MdEvent::EndStrong
        } else if tag == 8 {
            MdEvent::EndStrikethrough
        } else {
            MdEvent::Other
        }
    } else if kind == 2 {
        MdEvent::Text(text)
    } else if kind == 3 {
        MdEvent::Code(text)
    } else if kind == 6 {
        MdEvent::Html(text)
    } else if kind == 9 || kind == 10 {
        MdEvent::Break
    } else if kind == 11 {
        MdEvent::Rule
    } else {
        MdEvent::Other
    }
}

/// What the renderer reads of an event: which variant (start tags 0 to 8,
/// end tags 10 to 18, text 20, inline code 21, HTML 22, break 23, rule 24,
/// anything else 25), the heading level, and the text it carries.
pub open spec fn md_event_view(e: MdEvent) -> (int, u32, Seq<char>) {
    match e {
        MdEvent::StartParagraph => (0, 0, seq![]),
        MdEvent::StartHeading(l) => (1, l, seq![]),
        MdEvent::StartBlockQuote => (2, 0, seq![]),
        MdEvent::StartCodeBlock(s) => (3, 0, s@),
        MdEvent::StartList => (4, 0, seq![]),
        MdEvent::StartItem => (5, 0, seq![]),
        MdEvent::StartEmphasis => (6, 0, seq![]),
        MdEvent::StartStrong => (7, 0, seq![]),
        MdEvent::StartStrikethrough => (8, 0, seq![]),
        MdEvent::EndParagraph => (10, 0, seq![]),
        MdEvent::EndHeading => (11, 0, seq![]),
        MdEvent::EndBlockQuote => (12, 0, seq![]),
        MdEvent::EndCodeBlock => (13, 0, seq![]),
        MdEvent::EndList => (14, 0, seq![]),
        MdEvent::EndItem => (15, 0, seq![]),
        MdEvent::EndEmphasis => (16, 0, seq![]),
        MdEvent::EndStrong => (17, 0, seq![]),
        MdEvent::EndStrikethrough => (18, 0, seq![]),
        MdEvent::Text(s) => (20, 0, s@),
        MdEvent::Code(s) => (21, 0, s@),
        MdEvent::Html(s) => (22, 0, s@),
        MdEvent::Break => (23, 0, seq![]),
        MdEvent::Rule => (24, 0, seq![]),
        MdEvent::Other => (25, 0, seq![]),
    }
}

/// The view of the event `event_from` makes of a kind, tag, level and text.
pub open spec fn coded_view(kind: u8, tag: u8, level: u32, text: Seq<char>) -> (int, u32, Seq<char>) {
    if kind == 0 {
        if tag <= 8 {
            (tag as int, if tag == 1 { level } else { 0 }, if tag == 3 { text } else { seq![] })
        } else {
            (25, 0, seq![])
        }
    } else if kind == 1 {
        if tag <= 8 {
            (10 + tag, 0, seq![])
        } else {
            (25, 0, seq![])
        }
    } else if kind == 2 {
        (20, 0, text)
    } else if kind == 3 {
        (21, 0, text)
    } else if kind == 6 {
        (22, 0, text)
    } else if kind == 9 || kind == 10 {
        (23, 0, seq![])
    } else if kind == 11 {
        (24, 0, seq![])
    } else {
        (25, 0, seq![])
    }
}

/// The renderer's event for one parsed event: a start reads the start tag
/// and level, an end the end tag, anything else neither.
pub open spec fn event_of_codes(c: MdCodes) -> (int, u32, Seq<char>) {
    if c.0 == 0 {
        coded_view(c.0, c.1.0, c.1.1, c.3)
    } else if c.0 == 1 {
        coded_view(c.0, c.2, 0, c.3)
    } else {
        coded_view(c.0, 9, 0, c.3)
    }
}

/// The views of the renderer's events for markdown text.
pub open spec fn text_events(text: Seq<char>) -> Seq<(int, u32, Seq<char>)> {
    spec_md_events(text).map_values(|c: MdCodes| event_of_codes(c))
}

/// The views of a list of events.
pub open spec fn event_views(evs: Seq<MdEvent>) -> Seq<(int, u32, Seq<char>)> {
    evs.map_values(|e: MdEvent| md_event_view(e))
}

/// The codes of parsed events, each text taken by its view.
pub open spec fn code_views(codes: Seq<(u8, (u8, u32), u8, String)>) -> Seq<MdCodes> {
    codes.map_values(|c: (u8, (u8, u32), u8, String)| (c.0, c.1, c.2, c.3@))
}

/// The renderer's events for a list of parsed event codes, one for each,
/// in order (see `event_of_codes`).
pub fn events_from_code_list(codes: &Vec<(u8, (u8, u32), u8, String)>) -> (r: Vec<MdEvent>)
    ensures
        event_views(r@) == code_views(codes@).map_values(|c: MdCodes| event_of_codes(c)),
{
    let ghost cv = code_views(codes@);
    let ghost target = cv.map_values(|c: MdCodes| event_of_codes(c));
    let mut out: Vec<MdEvent> = Vec::new();
    let mut i: usize = 0;
    while i < codes.len()
        invariant
            i <= codes.len(),
            cv == code_views(codes@),
            target == cv.map_values(|c: MdCodes| event_of_codes(c)),
            event_views(out@) == target.take(i as int),
        decreases codes.len() - i,
    {
        let kind: u8 = codes[i].0;
        let start: (u8, u32) = codes[i].1;
        let end: u8 = codes[i].2;
        let t = codes[i].3.clone();
        let ghost tv = t@;
        let (tag, level) = if kind == 0 {
            start
        } else if kind == 1 {
            (end, 0)
        } else {
            (9, 0)
        };
        let ev = event_from_codes(kind, tag, level, t);
        proof {
            assert(cv[i as int] == (kind, start, end, tv));
            assert(md_event_view(ev) == event_of_codes(cv[i as int]));
        }
        let ghost before = out@;
        out.push(ev);
        proof {
            assert(event_views(out@) =~= event_views(before).push(md_event_view(ev)));
            assert(target[i as int] == event_of_codes(cv[i as int]));
            assert(target.take(i + 1) =~= target.take(i as int).push(target[i as int]));
        }
        i += 1;
    }
    proof {
        assert(target.take(codes.len() as int) =~= target);
    }
    out
}

/// The renderer's events for markdown text: one for each event that
/// pulldown-cmark yields for it, in order, read from that event's codes
/// (see `event_of_codes`).
pub fn markdown_events(text: &str) -> (r: Vec<MdEvent>)
    ensures
        event_views(r@) == text_events(text@),
{
    let codes = md_event_codes(text);
    let r = events_from_code_list(&codes);
    proof {
        assert(code_views(codes@) == spec_md_events(text@));
    }
    r
}

/// Two events that read the same render the same.
#[verifier::spinoff_prover]
#[verifier::rlimit(60)]
proof fn lemma_step_by_view(st: MdState, a: MdEvent, b: MdEvent, theme: Seq<char>)
    requires
        md_event_view(a) == md_event_view(b),
    ensures
        md_step(st, a, theme) == md_step(st, b, theme),
{
}

/// Event lists that read the same render the same lines.
pub proof fn lemma_render_by_views(a: Seq<MdEvent>, b: Seq<MdEvent>, theme: Seq<char>)
    requires
        event_views(a) == event_views(b),
    ensures
        md_render(a, theme) == md_render(b, theme),
    decreases a.len(),
{
    lemma_fold_by_views(a, b, theme);
}

proof fn lemma_fold_by_views(a: Seq<MdEvent>, b: Seq<MdEvent>, theme: Seq<char>)
    requires
        event_views(a) == event_views(b),
    ensures
        md_fold(a, theme) == md_fold(b, theme),
    decreases a.len(),
{
    assert(a.len() == event_views(a).len());
    if a.len() > 0 {
        assert(event_views(a.drop_last()) =~= event_views(a).drop_last());
        assert(event_views(b.drop_last()) =~= event_views(b).drop_last());
        lemma_fold_by_views(a.drop_last(), b.drop_last(), theme);
        assert(event_views(a)[a.len() - 1] == md_event_view(a.last()));
        assert(event_views(b)[b.len() - 1] == md_event_view(b.last()));
        lemma_step_by_view(md_fold(a.drop_last(), theme), a.last(), b.last(), theme);
    }
}

/// The lines markdown text renders to: the rendering of the events that
/// read as the parsed events (`text_events`), code highlighted with `theme`.
/// Which list is chosen does not matter (see `lemma_render_by_views`).
pub open spec fn rendered_markdown(text: Seq<char>, theme: Seq<char>) -> Seq<Seq<MdSpan>> {
    md_render(choose|evs: Seq<MdEvent>| event_views(evs) == text_events(text), theme)
}

/// Markdown text as styled lines: what the renderer makes of the parsed
/// events (see `render_md_events`), code highlighted with `syntect_theme`.
pub fn render_markdown(text: &str, syntect_theme: &str) -> (r: Vec<Vec<(String, MdStyle)>>)
    ensures
        md_line_views(r@) == rendered_markdown(text@, syntect_theme@),
{
    let evs = markdown_events(text);
    let r = render_md_events(&evs, syntect_theme);
    proof {
        let c = choose|e: Seq<MdEvent>| event_views(e) == text_events(text@);
        assert(event_views(evs@) == text_events(text@));
        lemma_render_by_views(c, evs@, syntect_theme@);
    }
    r
}

/// Palette colors of markdown roles.
#[derive(Debug, Clone, Copy, PartialEq, Eq, Structural)]
pub struct MarkdownStyle {
    pub heading1: Color,
    pub heading2: Color,
    pub heading3: Color,
    pub blockquote: Color,
    pub inline_code: Color,
    pub rule: Color,
    pub code_gutter: Color,
    pub text: Color,
}

impl MarkdownStyle {
    /// Markdown colors from a palette: headings in the assistant, accent and
    /// text colors, quotes and gutter in overlay, code in the tool color,
    /// rules in the border color.
    pub fn from_palette(p: &Palette) -> (r: MarkdownStyle)
        ensures
            r.heading1 == p.assistant,
            r.heading2 == p.accent,
            r.heading3 == p.text,
            r.blockquote == p.overlay0,
            r.inline_code == p.tool,
            r.rule == p.border,
            r.code_gutter == p.overlay0,
            r.text == p.text,
    {
        MarkdownStyle {
            heading1: p.assistant,
            heading2: p.accent,
            heading3: p.text,
            blockquote: p.overlay0,
            inline_code: p.tool,
            rule: p.border,
            code_gutter: p.overlay0,
            text: p.text,
        }
    }
}

/// Rendering always gives at least one line.
pub proof fn lemma_render_nonempty(evs: Seq<MdEvent>, theme: Seq<char>)
    ensures
        md_render(evs, theme).len() >= 1,
{
}

/// Folding one more event is one more step.
proof fn lemma_fold_push(evs: Seq<MdEvent>, e: MdEvent, theme: Seq<char>)
    ensures
        md_fold(evs.push(e), theme) == md_step(md_fold(evs, theme), e, theme),
{
    assert(evs.push(e).drop_last() =~= evs);
}

/// The style of a span of text in a paragraph.
pub open spec fn text_span_style(bold: bool, italic: bool, crossed: bool) -> MdStyle {
    MdStyle { color: MdColor::Text, bold, italic, crossed }
}

/// A paragraph of text renders as one line of that text: plain text in the
/// text color, `**strong**` text bold, `*emphasised*` text italic and
/// `~~struck~~` text crossed out, and nothing else changed.
pub proof fn lemma_paragraph_styles(t: String, theme: Seq<char>)
    ensures
        md_render(seq![MdEvent::StartParagraph, MdEvent::Text(t), MdEvent::EndParagraph], theme)
            == seq![seq![(t@, text_span_style(false, false, false))]],
        md_render(
            seq![MdEvent::StartParagraph, MdEvent::StartStrong, MdEvent::Text(t), MdEvent::EndStrong, MdEvent::EndParagraph],
            theme,
        ) == seq![seq![(t@, text_span_style(true, false, false))]],
        md_render(
            seq![MdEvent::StartParagraph, MdEvent::StartEmphasis, MdEvent::Text(t), MdEvent::EndEmphasis, MdEvent::EndParagraph],
            theme,
        ) == seq![seq![(t@, text_span_style(false, true, false))]],
        md_render(
            seq![
                MdEvent::StartParagraph,
                MdEvent::StartStrikethrough,
                MdEvent::Text(t),
                MdEvent::EndStrikethrough,
                MdEvent::EndParagraph,
            ],
            theme,
        ) == seq![seq![(t@, text_span_style(false, false, true))]],
{
    let e0 = Seq::<MdEvent>::empty();
    let p = e0.push(MdEvent::StartParagraph);
    lemma_fold_push(e0, MdEvent::StartParagraph, theme);
    let plain = p.push(MdEvent::Text(t));
    lemma_fold_push(p, MdEvent::Text(t), theme);
    lemma_fold_push(plain, MdEvent::EndParagraph, theme);
    assert(plain.push(MdEvent::EndParagraph) =~= seq![MdEvent::StartParagraph, MdEvent::Text(t), MdEvent::EndParagraph]);
    assert(md_render(plain.push(MdEvent::EndParagraph), theme) =~= seq![seq![(t@, text_span_style(false, false, false))]]);
    lemma_wrapped_text(p, MdEvent::StartStrong, t, MdEvent::EndStrong, theme);
    assert(p.push(MdEvent::StartStrong).push(MdEvent::Text(t)).push(MdEvent::EndStrong).push(MdEvent::EndParagraph)
        =~= seq![MdEvent::StartParagraph, MdEvent::StartStrong, MdEvent::Text(t), MdEvent::EndStrong, MdEvent::EndParagraph]);
    lemma_wrapped_text(p, MdEvent::StartEmphasis, t, MdEvent::EndEmphasis, theme);
    assert(p.push(MdEvent::StartEmphasis).push(MdEvent::Text(t)).push(MdEvent::EndEmphasis).push(MdEvent::EndParagraph)
        =~= seq![MdEvent::StartParagraph, MdEvent::StartEmphasis, MdEvent::Text(t), MdEvent::EndEmphasis, MdEvent::EndParagraph]);
    lemma_wrapped_text(p, MdEvent::StartStrikethrough, t, MdEvent::EndStrikethrough, theme);
    assert(p.push(MdEvent::StartStrikethrough).push(MdEvent::Text(t)).push(MdEvent::EndStrikethrough).push(
        MdEvent::EndParagraph,
    ) =~= seq![
        MdEvent::StartParagraph,
        MdEvent::StartStrikethrough,
        MdEvent::Text(t),
        MdEvent::EndStrikethrough,
        MdEvent::EndParagraph,
    ]);
}

proof fn lemma_wrapped_text(p: Seq<MdEvent>, open: MdEvent, t: String, close: MdEvent, theme: Seq<char>)
    requires
        p == seq![MdEvent::StartParagraph],
        open == MdEvent::StartStrong || open == MdEvent::StartEmphasis || open == MdEvent::StartStrikethrough,
        close == (if open == MdEvent::StartStrong {
            MdEvent::EndStrong
        } else if open == MdEvent::StartEmphasis {
            MdEvent::EndEmphasis
        } else {
            MdEvent::EndStrikethrough
        }),
    ensures
        md_render(p.push(open).push(MdEvent::Text(t)).push(close).push(MdEvent::EndParagraph), theme) == seq![
            seq![
                (
                    t@,
                    text_span_style(
                        open == MdEvent::StartStrong,
                        open == MdEvent::StartEmphasis,
                        open == MdEvent::StartStrikethrough,
                    ),
                ),
            ],
        ],
{
    let e0 = Seq::<MdEvent>::empty();
    assert(e0.push(MdEvent::StartParagraph) =~= p);
    lemma_fold_push(e0, MdEvent::StartParagraph, theme);
    let a = p.push(open);
    lemma_fold_push(p, open, theme);
    let b = a.push(MdEvent::Text(t));
    lemma_fold_push(a, MdEvent::Text(t), theme);
    let c = b.push(close);
    lemma_fold_push(b, close, theme);
    let d = c.push(MdEvent::EndParagraph);
    lemma_fold_push(c, MdEvent::EndParagraph, theme);
    assert(md_render(d, theme) =~= seq![
        seq![
            (
                t@,
                text_span_style(
                    open == MdEvent::StartStrong,
                    open == MdEvent::StartEmphasis,
                    open == MdEvent::StartStrikethrough,
                ),
            ),
        ],
    ]);
}

/// No code block is open after events that start none.
proof fn lemma_no_code_open(evs: Seq<MdEvent>, theme: Seq<char>)
    requires
        forall|i: int| 0 <= i < evs.len() ==> !(#[trigger] evs[i] is StartCodeBlock),
    ensures
        !md_fold(evs, theme).in_code,
    decreases evs.len(),
{
    if evs.len() > 0 {
        lemma_no_code_open(evs.drop_last(), theme);
        assert(!(evs[evs.len() - 1] is StartCodeBlock));
    }
}

/// Text inside strong emphasis is bold, inside emphasis italic, inside
/// strikethrough crossed out, after any events outside a code block: the
/// last span rendered is the text, so styled.
pub proof fn lemma_emphasis_styles_text(pre: Seq<MdEvent>, t: String, theme: Seq<char>)
    requires
        forall|i: int| 0 <= i < pre.len() ==> !(#[trigger] pre[i] is StartCodeBlock),
    ensures
        ({
            let r = md_render(pre.push(MdEvent::StartStrong).push(MdEvent::Text(t)), theme);
            r.last().last().0 == t@ && r.last().last().1.bold
        }),
        ({
            let r = md_render(pre.push(MdEvent::StartEmphasis).push(MdEvent::Text(t)), theme);
            r.last().last().0 == t@ && r.last().last().1.italic
        }),
        ({
            let r = md_render(pre.push(MdEvent::StartStrikethrough).push(MdEvent::Text(t)), theme);
            r.last().last().0 == t@ && r.last().last().1.crossed
        }),
{
    lemma_no_code_open(pre, theme);
    lemma_fold_push(pre, MdEvent::StartStrong, theme);
    lemma_fold_push(pre.push(MdEvent::StartStrong), MdEvent::Text(t), theme);
    lemma_fold_push(pre, MdEvent::StartEmphasis, theme);
    lemma_fold_push(pre.push(MdEvent::StartEmphasis), MdEvent::Text(t), theme);
    lemma_fold_push(pre, MdEvent::StartStrikethrough, theme);
    lemma_fold_push(pre.push(MdEvent::StartStrikethrough), MdEvent::Text(t), theme);
}

/// A heading renders as one bold line in its level's color: the first
/// level, the second, and the rest alike.
pub proof fn lemma_heading_style(level: u32, t: String, theme: Seq<char>)
    ensures
        md_render(seq![MdEvent::StartHeading(level), MdEvent::Text(t), MdEvent::EndHeading], theme) == seq![
            seq![
                (
                    t@,
                    MdStyle {
                        color: if level == 1 {
                            MdColor::Heading1
                        } else if level == 2 {
                            MdColor::Heading2
                        } else {
                            MdColor::Heading3
                        },
                        bold: true,
                        italic: false,
                        crossed: false,
                    },
                ),
            ],
        ],
{
    let e0 = Seq::<MdEvent>::empty();
    let a = e0.push(MdEvent::StartHeading(level));
    lemma_fold_push(e0, MdEvent::StartHeading(level), theme);
    let b = a.push(MdEvent::Text(t));
    lemma_fold_push(a, MdEvent::Text(t), theme);
    let c = b.push(MdEvent::EndHeading);
    lemma_fold_push(b, MdEvent::EndHeading, theme);
    assert(c =~= seq![MdEvent::StartHeading(level), MdEvent::Text(t), MdEvent::EndHeading]);
    assert(md_render(c, theme) =~= seq![
        seq![
            (
                t@,
                MdStyle {
                    color: if level == 1 {
                        MdColor::Heading1
                    } else if level == 2 {
                        MdColor::Heading2
                    } else {
                        MdColor::Heading3
                    },
                    bold: true,
                    italic: false,
                    crossed: false,
                },
            ),
        ],
    ]);
}

/// Two paragraphs render as their two lines with an empty line between;
/// a list item renders as a bullet before its text; a rule renders as a
/// line of forty box-drawing dashes in the rule color.
pub proof fn lemma_blocks_layout(a: String, b: String, theme: Seq<char>)
    ensures
        md_render(
            seq![
                MdEvent::StartParagraph,
                MdEvent::Text(a),
                MdEvent::EndParagraph,
                MdEvent::StartParagraph,
                MdEvent::Text(b),
                MdEvent::EndParagraph,
            ],
            theme,
        ) == seq![
            seq![(a@, text_span_style(false, false, false))],
            seq![(Seq::<char>::empty(), plain_style())],
            seq![(b@, text_span_style(false, false, false))],
        ],
        md_render(
            seq![MdEvent::StartList, MdEvent::StartItem, MdEvent::Text(a), MdEvent::EndItem, MdEvent::EndList],
            theme,
        ) == seq![seq![("\u{2022} "@, plain_style()), (a@, text_span_style(false, false, false))]],
        md_render(seq![MdEvent::Rule], theme) == seq![
            seq![
                (
                    Seq::new(40, |i: int| '\u{2500}'),
                    MdStyle { color: MdColor::Rule, bold: false, italic: false, crossed: false },
                ),
            ],
        ],
{
    let e0 = Seq::<MdEvent>::empty();
    let p1 = e0.push(MdEvent::StartParagraph);
    lemma_fold_push(e0, MdEvent::StartParagraph, theme);
    let p2 = p1.push(MdEvent::Text(a));
    lemma_fold_push(p1, MdEvent::Text(a), theme);
    let p3 = p2.push(MdEvent::EndParagraph);
    lemma_fold_push(p2, MdEvent::EndParagraph, theme);
    let p4 = p3.push(MdEvent::StartParagraph);
    lemma_fold_push(p3, MdEvent::StartParagraph, theme);
    let p5 = p4.push(MdEvent::Text(b));
    lemma_fold_push(p4, MdEvent::Text(b), theme);
    let p6 = p5.push(MdEvent::EndParagraph);
    lemma_fold_push(p5, MdEvent::EndParagraph, theme);
    assert(p6 =~= seq![
        MdEvent::StartParagraph,
        MdEvent::Text(a),
        MdEvent::EndParagraph,
        MdEvent::StartParagraph,
        MdEvent::Text(b),
        MdEvent::EndParagraph,
    ]);
    assert(md_render(p6, theme) =~= seq![
        seq![(a@, text_span_style(false, false, false))],
        seq![(Seq::<char>::empty(), plain_style())],
        seq![(b@, text_span_style(false, false, false))],
    ]);
    let l1 = e0.push(MdEvent::StartList);
    lemma_fold_push(e0, MdEvent::StartList, theme);
    let l2 = l1.push(MdEvent::StartItem);
    lemma_fold_push(l1, MdEvent::StartItem, theme);
    let l3 = l2.push(MdEvent::Text(a));
    lemma_fold_push(l2, MdEvent::Text(a), theme);
    let l4 = l3.push(MdEvent::EndItem);
    lemma_fold_push(l3, MdEvent::EndItem, theme);
    let l5 = l4.push(MdEvent::EndList);
    lemma_fold_push(l4, MdEvent::EndList, theme);
    assert(l5 =~= seq![MdEvent::StartList, MdEvent::StartItem, MdEvent::Text(a), MdEvent::EndItem, MdEvent::EndList]);
    assert(bullet(1) =~= "\u{2022} "@) by {
        reveal_strlit("\u{2022} ");
        assert(Seq::new(0, |i: int| ' ') =~= Seq::<char>::empty());
    }
    assert(md_render(l5, theme) =~= seq![seq![("\u{2022} "@, plain_style()), (a@, text_span_style(false, false, false))]]);
    let r1 = e0.push(MdEvent::Rule);
    lemma_fold_push(e0, MdEvent::Rule, theme);
    assert(r1 =~= seq![MdEvent::Rule]);
    assert(md_render(r1, theme) =~= seq![
        seq![
            (
                Seq::new(40, |i: int| '\u{2500}'),
                MdStyle { color: MdColor::Rule, bold: false, italic: false, crossed: false },
            ),
        ],
    ]);
}

} // verus!
