//! Kitty graphics protocol helpers: spotting image paths in text and
//! framing image bytes as Kitty escape sequences.

use vstd::prelude::*;
use base64::Engine;
use crate::text::{
    chars_of, contains, decimal, ends_with, ends_with_exec, push_decimal, spec_to_lowercase, str_eq,
    string_of, string_views, to_lowercase, views, words, words_of, str_contains,
};
use crate::keys::{eq_ignore_ascii_case, KeyInput};

verus! {

/// The common raster image extensions (matched on lowercased text).
pub open spec fn has_image_extension(lower: Seq<char>) -> bool {
    ends_with(lower, ".png"@) || ends_with(lower, ".jpg"@) || ends_with(lower, ".jpeg"@) || ends_with(
        lower,
        ".gif"@,
    ) || ends_with(lower, ".webp"@)
}

/// A path looks like an image when its lowercased text has an image
/// extension.
pub open spec fn image_path(path: Seq<char>) -> bool {
    has_image_extension(spec_to_lowercase(path))
}

fn ends(v: &Vec<char>, lit: &str) -> (r: bool)
    ensures
        r == ends_with(v@, lit@),
{
    let p = chars_of(lit);
    ends_with_exec(v, &p)
}

/// True if `path` looks like a common raster image by extension.
pub fn is_image_path(path: &str) -> (r: bool)
    ensures
        r == image_path(path@),
{
    let lower = to_lowercase(path);
    let v = chars_of(lower.as_str());
    ends(&v, ".png") || ends(&v, ".jpg") || ends(&v, ".jpeg") || ends(&v, ".gif") || ends(&v, ".webp")
}

/// Quotes, brackets and separators stripped around a path token.
pub open spec fn is_wrapper_char(c: char) -> bool {
    c == '"' || c == '\'' || c == '`' || c == ',' || c == ';' || c == ')' || c == '(' || c == '['
        || c == ']' || c == '{' || c == '}'
}

fn is_wrapper_exec(c: char) -> (r: bool)
    ensures
        r == is_wrapper_char(c),
{
    c == '"' || c == '\'' || c == '`' || c == ',' || c == ';' || c == ')' || c == '(' || c == '['
        || c == ']' || c == '{' || c == '}'
}

/// The token with wrapper characters removed at the start.
pub open spec fn unwrap_start(s: Seq<char>) -> Seq<char>
    decreases s.len(),
{
    if s.len() > 0 && is_wrapper_char(s[0]) {
        unwrap_start(s.drop_first())
    } else {
        s
    }
}

/// The token with wrapper characters removed at the end.
pub open spec fn unwrap_end(s: Seq<char>) -> Seq<char>
    decreases s.len(),
{
    if s.len() > 0 && is_wrapper_char(s.last()) {
        unwrap_end(s.drop_last())
    } else {
        s
    }
}

/// `trim_matches` of the wrapper characters.
pub open spec fn unwrap_token(s: Seq<char>) -> Seq<char> {
    unwrap_end(unwrap_start(s))
}

/// A whitespace-separated token with its wrapper characters removed.
pub fn unwrap_token_exec(v: &Vec<char>) -> (r: Vec<char>)
    ensures
        r@ == unwrap_token(v@),
{
    let n = v.len();
    let mut lo: usize = 0;
    proof {
        assert(v@.subrange(0, n as int) =~= v@);
    }
    while lo < n && is_wrapper_exec(v[lo])
        invariant
            lo <= n == v@.len(),
            unwrap_start(v@) == unwrap_start(v@.subrange(lo as int, n as int)),
        decreases n - lo,
    {
        proof {
            assert(v@.subrange(lo as int, n as int).drop_first() =~= v@.subrange(lo + 1, n as int));
        }
        lo += 1;
    }
    let mut hi: usize = n;
    while hi > lo && is_wrapper_exec(v[hi - 1])
        invariant
            lo <= hi <= n == v@.len(),
            unwrap_start(v@) == v@.subrange(lo as int, n as int),
            unwrap_token(v@) == unwrap_end(v@.subrange(lo as int, hi as int)),
        decreases hi - lo,
    {
        proof {
            assert(v@.subrange(lo as int, hi as int).drop_last() =~= v@.subrange(lo as int, hi - 1));
        }
        hi -= 1;
    }
    crate::text::sub_vec(v, lo, hi)
}

/// Distinct cleaned image-like tokens of `toks` in first-occurrence order.
pub open spec fn image_candidates(toks: Seq<Seq<char>>) -> Seq<Seq<char>>
    decreases toks.len(),
{
    if toks.len() == 0 {
        seq![]
    } else {
        let prev = image_candidates(toks.drop_last());
        let c = unwrap_token(toks.last());
        if image_path(c) && !prev.contains(c) {
            prev.push(c)
        } else {
            prev
        }
    }
}

/// Image-looking paths mentioned in `text` (each once, in order), before
/// checking that they exist.
pub fn image_path_candidates(text: &str) -> (r: Vec<String>)
    ensures
        string_views(r@) == image_candidates(words(text@)),
{
    let v = chars_of(text);
    let toks = words_of(&v);
    let ghost tv = views(toks@);
    let mut out: Vec<String> = Vec::new();
    let mut i: usize = 0;
    proof {
        assert(tv.take(0) =~= Seq::<Seq<char>>::empty());
    }
    while i < toks.len()
        invariant
            i <= toks@.len(),
            tv == views(toks@),
            string_views(out@) == image_candidates(tv.take(i as int)),
        decreases toks@.len() - i,
    {
        let c = unwrap_token_exec(&toks[i]);
        let cs = string_of(&c, 0, c.len());
        proof {
            assert(c@.subrange(0, c@.len() as int) =~= c@);
            assert(tv.take(i + 1).drop_last() =~= tv.take(i as int));
            assert(tv.take(i + 1).last() == toks@[i as int]@);
        }
        if is_image_path(cs.as_str()) {
            let mut j: usize = 0;
            while j < out.len() && !str_eq(out[j].as_str(), cs.as_str())
                invariant
                    j <= out@.len(),
                    forall|k: int| 0 <= k < j ==> out@[k]@ != cs@,
                decreases out@.len() - j,
            {
                j += 1;
            }
            let seen = j < out.len();
            proof {
                let sv = string_views(out@);
                if seen {
                    assert(sv[j as int] == cs@);
                } else {
                    assert forall|k: int| 0 <= k < sv.len() implies sv[k] != cs@ by {
                        assert(sv[k] == out@[k]@);
                    }
                }
            }
            if !seen {
                let ghost old_out = string_views(out@);
                out.push(cs);
                proof {
                    assert(string_views(out@) =~= old_out.push(c@));
                }
            }
        }
        i += 1;
    }
    proof {
        assert(tv.take(toks@.len() as int) =~= tv);
    }
    out
}

/// The candidates that exist, in order; `exists[i]` says whether
/// `candidates[i]` names an existing file.
pub fn find_image_paths(candidates: &[String], exists: &[bool]) -> (r: Vec<String>)
    requires
        candidates@.len() == exists@.len(),
    ensures
        string_views(r@) == kept_where(string_views(candidates@), exists@),
{
    let ghost cv = string_views(candidates@);
    let mut out: Vec<String> = Vec::new();
    let mut i: usize = 0;
    proof {
        assert(cv.take(0) =~= Seq::<Seq<char>>::empty());
        assert(exists@.take(0) =~= Seq::<bool>::empty());
    }
    while i < candidates.len()
        invariant
            i <= candidates@.len() == exists@.len(),
            cv == string_views(candidates@),
            string_views(out@) == kept_where(cv.take(i as int), exists@.take(i as int)),
        decreases candidates@.len() - i,
    {
        proof {
            assert(cv.take(i + 1).drop_last() =~= cv.take(i as int));
            assert(exists@.take(i + 1).drop_last() =~= exists@.take(i as int));
        }
        if exists[i] {
            let ghost old_out = string_views(out@);
            out.push(candidates[i].clone());
            proof {
                assert(string_views(out@) =~= old_out.push(cv[i as int]));
            }
        }
        i += 1;
    }
    proof {
        assert(cv.take(candidates@.len() as int) =~= cv);
        assert(exists@.take(candidates@.len() as int) =~= exists@);
    }
    out
}

/// The elements of `s` whose flag in `keep` is set, in order.
pub open spec fn kept_where(s: Seq<Seq<char>>, keep: Seq<bool>) -> Seq<Seq<char>>
    decreases s.len(),
{
    if s.len() == 0 || keep.len() == 0 {
        seq![]
    } else {
        let prev = kept_where(s.drop_last(), keep.drop_last());
        if keep.last() {
            prev.push(s.last())
        } else {
            prev
        }
    }
}

/// The character of a 6-bit value in the standard base64 alphabet:
/// `A`–`Z`, `a`–`z`, `0`–`9`, `+`, `/`.
pub open spec fn base64_char(v: int) -> char {
    if v < 26 {
        ('A' as int + v) as char
    } else if v < 52 {
        ('a' as int + (v - 26)) as char
    } else if v < 62 {
        ('0' as int + (v - 52)) as char
    } else if v == 62 {
        '+'
    } else {
        '/'
    }
}

/// The standard base64 encoding with padding (RFC 4648): each group of
/// three bytes becomes four characters of six bits each; a last group of
/// one or two bytes is padded with `=` to four characters.
pub open spec fn spec_base64_standard(bytes: Seq<u8>) -> Seq<char>
    decreases bytes.len(),
{
    if bytes.len() == 0 {
        seq![]
    } else if bytes.len() == 1 {
        let b0 = bytes[0] as int;
        seq![base64_char(b0 / 4), base64_char((b0 % 4) * 16), '=', '=']
    } else if bytes.len() == 2 {
        let (b0, b1) = (bytes[0] as int, bytes[1] as int);
        seq![base64_char(b0 / 4), base64_char((b0 % 4) * 16 + b1 / 16), base64_char((b1 % 16) * 4), '=']
    } else {
        let (b0, b1, b2) = (bytes[0] as int, bytes[1] as int, bytes[2] as int);
        seq![
            base64_char(b0 / 4),
            base64_char((b0 % 4) * 16 + b1 / 16),
            base64_char((b1 % 16) * 4 + b2 / 64),
            base64_char(b2 % 64),
        ] + spec_base64_standard(bytes.skip(3))
    }
}

/// Characters of the standard base64 alphabet and its padding.
pub open spec fn is_base64_char(c: char) -> bool {
    ('A' <= c <= 'Z') || ('a' <= c <= 'z') || ('0' <= c <= '9') || c == '+' || c == '/' || c == '='
}

/// Calls `base64::engine::general_purpose::STANDARD.encode`: the standard
/// base64 encoding with padding (`spec_base64_standard`), made of base64
/// alphabet characters.
#[verifier::external_body]
fn base64_encode(bytes: &[u8]) -> (r: String)
    ensures
        r@ == spec_base64_standard(bytes@),
        forall|i: int| 0 <= i < r@.len() ==> is_base64_char(#[trigger] r@[i]),
{
    base64::engine::general_purpose::STANDARD.encode(bytes)
}

/// Column count used for an image: `max_cols` clamped to 20..=120.
pub open spec fn image_cols(max_cols: u16) -> u16 {
    if max_cols < 20 {
        20
    } else if max_cols > 120 {
        120
    } else {
        max_cols
    }
}

/// Size of one transmitted chunk of base64 text.
pub open spec fn kitty_chunk() -> nat {
    4096
}

/// One escape sequence: the first also places the image (`a=T`, PNG
/// auto-detect `f=100`, `c` columns); `m` says whether more chunks follow.
pub open spec fn kitty_frame(first: bool, more: bool, cols: u16, chunk: Seq<char>) -> Seq<char> {
    let m = if more {
        '1'
    } else {
        '0'
    };
    if first {
        "\u{1b}_Ga=T,f=100,m="@ + seq![m] + ",c="@ + decimal(cols as nat) + ";"@ + chunk
            + "\u{1b}\\"@
    } else {
        "\u{1b}_Gm="@ + seq![m] + ";"@ + chunk + "\u{1b}\\"@
    }
}

/// The escape sequences for the chunks of `b` from offset `off` on.
pub open spec fn kitty_frames_from(b: Seq<char>, cols: u16, off: nat, first: bool) -> Seq<char>
    decreases b.len() - off,
{
    if off >= b.len() {
        seq![]
    } else {
        let end = if off + kitty_chunk() < b.len() {
            off + kitty_chunk()
        } else {
            b.len()
        };
        kitty_frame(first, end < b.len(), cols, b.subrange(off as int, end as int))
            + kitty_frames_from(b, cols, end, false)
    }
}

/// Everything written for one image: the chunked escape sequences, then a
/// newline.
pub open spec fn kitty_payload(bytes: Seq<u8>, max_cols: u16) -> Seq<char> {
    kitty_frames_from(spec_base64_standard(bytes), image_cols(max_cols), 0, true) + "\n"@
}

/// Text to write for an image with the given bytes, in Kitty graphics
/// protocol chunks of at most 4096 base64 characters.
pub fn kitty_image_payload(bytes: &[u8], max_cols: u16) -> (r: String)
    ensures
        r@ == kitty_payload(bytes@, max_cols),
{
    let b64 = base64_encode(bytes);
    let b = chars_of(b64.as_str());
    let cols: u16 = if max_cols < 20 {
        20
    } else if max_cols > 120 {
        120
    } else {
        max_cols
    };
    let mut out = String::new();
    let mut off: usize = 0;
    let mut first = true;
    proof {
        assert(out@ + kitty_frames_from(b@, cols, 0, true) =~= kitty_frames_from(b@, cols, 0, true));
    }
    while off < b.len()
        invariant
            off <= b@.len(),
            first == (off == 0),
            out@ + kitty_frames_from(b@, cols, off as nat, first) == kitty_frames_from(
                b@,
                cols,
                0,
                true,
            ),
        decreases b@.len() - off,
    {
        let end = if b.len() - off > 4096 {
            off + 4096
        } else {
            b.len()
        };
        let more = end < b.len();
        let ghost before = out@;
        if first {
            out.append("\u{1b}_Ga=T,f=100,m=");
            out.push(if more { '1' } else { '0' });
            out.append(",c=");
            push_decimal(&mut out, cols as u64);
            out.append(";");
        } else {
            out.append("\u{1b}_Gm=");
            out.push(if more { '1' } else { '0' });
            out.append(";");
        }
        let chunk = string_of(&b, off, end);
        out.append(chunk.as_str());
        out.append("\u{1b}\\");
        proof {
            assert(out@ =~= before + kitty_frame(first, more, cols, b@.subrange(off as int, end as int)));
        }
        first = false;
        off = end;
    }
    out.append("\n");
    proof {
        assert(kitty_frames_from(b@, cols, off as nat, first) =~= Seq::<char>::empty());
    }
    out
}

/// Whether the terminal likely shows Kitty graphics, from `TERM`,
/// `TERM_PROGRAM`, whether `KITTY_WINDOW_ID` is set, and `RS_AGENT_KITTY`.
pub open spec fn kitty_likely(
    term: Seq<char>,
    program: Seq<char>,
    has_window_id: bool,
    force: Option<Seq<char>>,
) -> bool {
    let t = spec_to_lowercase(term);
    let p = spec_to_lowercase(program);
    contains(t, "kitty"@) || contains(p, "kitty"@) || contains(p, "wezterm"@) || contains(
        p,
        "ghostty"@,
    ) || has_window_id || match force {
        Some(v) => v == "1"@ || eq_ignore_ascii_case(v, "true"@),
        None => false,
    }
}

/// Detects a Kitty-compatible graphics terminal from the environment
/// values (an unset `TERM` / `TERM_PROGRAM` reads as empty).
pub fn kitty_graphics_likely(
    term: &str,
    program: &str,
    has_window_id: bool,
    force: Option<&str>,
) -> (r: bool)
    ensures
        r == kitty_likely(
            term@,
            program@,
            has_window_id,
            match force {
                Some(v) => Some(v@),
                None => None,
            },
        ),
{
    let t = to_lowercase(term);
    let p = to_lowercase(program);
    let forced = match force {
        Some(v) => str_eq(v, "1") || eq_ignore_case(v, "true"),
        None => false,
    };
    str_contains(t.as_str(), "kitty") || str_contains(p.as_str(), "kitty") || str_contains(
        p.as_str(),
        "wezterm",
    ) || str_contains(p.as_str(), "ghostty") || has_window_id || forced
}

fn eq_ignore_case(a: &str, b: &str) -> (r: bool)
    ensures
        r == eq_ignore_ascii_case(a@, b@),
{
    crate::keys::eq_ignore_case_str(a, b)
}

} // verus!
