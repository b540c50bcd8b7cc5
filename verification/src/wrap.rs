//! Wrapping a line of styled spans to a width, cutting spans where needed
//! and keeping every span's style.

use vstd::prelude::*;
use crate::text::{chars_of, string_of};

verus! {

/// A span: its text and its style.
pub type SpanView<T> = (Seq<char>, T);

/// Views of spans.
pub open spec fn span_views<T>(s: Seq<(String, T)>) -> Seq<SpanView<T>> {
    s.map_values(|p: (String, T)| (p.0@, p.1))
}

/// Views of wrapped lines.
pub open spec fn line_views<T>(s: Seq<Vec<(String, T)>>) -> Seq<Seq<SpanView<T>>> {
    s.map_values(|l: Vec<(String, T)>| span_views(l@))
}

/// Total characters of a line.
pub open spec fn width<T>(spans: Seq<SpanView<T>>) -> nat
    decreases spans.len(),
{
    if spans.len() == 0 {
        0
    } else {
        width(spans.drop_last()) + spans.last().0.len()
    }
}

/// Wrapping state: finished lines, the line being filled, and its width.
pub type WrapState<T> = (Seq<Seq<SpanView<T>>>, Seq<SpanView<T>>, nat);

/// `a - b`, or 0.
pub open spec fn room(max: nat, used: nat) -> nat {
    if used >= max {
        0
    } else {
        (max - used) as nat
    }
}

/// Cut `text[i..]` into pieces that fill the current line, starting a new
/// line each time one is full.
pub open spec fn split_span<T>(st: WrapState<T>, text: Seq<char>, style: T, i: nat, max: nat) -> WrapState<T>
    decreases text.len() - i, if st.2 >= max {
            1int
        } else {
            0int
        },
{
    if max == 0 || i >= text.len() {
        st
    } else {
        let r = room(max, st.2);
        let take: nat = if r < text.len() - i {
            r
        } else {
            (text.len() - i) as nat
        };
        let cur = st.1.push((text.subrange(i as int, (i + take) as int), style));
        if st.2 + take >= max {
            split_span((st.0.push(cur), seq![], 0), text, style, i + take, max)
        } else {
            split_span((st.0, cur, st.2 + take), text, style, i + take, max)
        }
    }
}

/// One span added: whole when it fits the room left, else cut.
pub open spec fn add_span<T>(st: WrapState<T>, span: SpanView<T>, max: nat) -> WrapState<T> {
    if span.0.len() <= room(max, st.2) {
        (st.0, st.1.push(span), st.2 + span.0.len())
    } else {
        split_span(st, span.0, span.1, 0, max)
    }
}

/// All spans added in order.
pub open spec fn wrap_fold<T>(spans: Seq<SpanView<T>>, max: nat) -> WrapState<T>
    decreases spans.len(),
{
    if spans.len() == 0 {
        (seq![], seq![], 0)
    } else {
        add_span(wrap_fold(spans.drop_last(), max), spans.last(), max)
    }
}

/// The wrapped lines: the line itself when it fits, else the lines cut
/// from it (a last, partly filled line included).
pub open spec fn wrapped<T>(spans: Seq<SpanView<T>>, max: nat) -> Seq<Seq<SpanView<T>>> {
    if width(spans) <= max {
        seq![spans]
    } else {
        let st = wrap_fold(spans, max);
        if st.1.len() > 0 {
            st.0.push(st.1)
        } else {
            st.0
        }
    }
}

proof fn lemma_width_push<T>(s: Seq<SpanView<T>>, x: SpanView<T>)
    ensures
        width(s.push(x)) == width(s) + x.0.len(),
{
    assert(s.push(x).drop_last() =~= s);
}

/// Wrap a line of spans to `max_width` characters.
pub fn wrap_spans<T: Copy>(spans: &Vec<(String, T)>, max_width: usize) -> (r: Vec<Vec<(String, T)>>)
    requires
        max_width > 0,
    ensures
        line_views(r@) == wrapped(span_views(spans@), max_width as nat),
{
    let ghost sv = span_views(spans@);
    let mut total: usize = 0;
    let mut k: usize = 0;
    let mut capped = false;
    proof {
        assert(sv.take(0) =~= Seq::<SpanView<T>>::empty());
    }
    while k < spans.len() && !capped
        invariant
            k <= spans.len(),
            sv == span_views(spans@),
            !capped ==> total as nat == width(sv.take(k as int)),
            capped ==> width(sv) > max_width,
            total <= max_width,
        decreases spans.len() - k + (if capped {
            0int
        } else {
            1int
        }),
    {
        let n = chars_of(spans[k].0.as_str()).len();
        proof {
            assert(sv.take(k + 1) =~= sv.take(k as int).push(sv[k as int]));
            lemma_width_push(sv.take(k as int), sv[k as int]);
            lemma_width_prefix(sv, k + 1);
        }
        if n > max_width - total {
            capped = true;
        } else {
            total = total + n;
            k += 1;
        }
    }
    if !capped {
        proof {
            assert(sv.take(spans.len() as int) =~= sv);
        }
        let mut one: Vec<(String, T)> = Vec::new();
        let mut j: usize = 0;
        while j < spans.len()
            invariant
                j <= spans.len(),
                sv == span_views(spans@),
                span_views(one@) == sv.take(j as int),
            decreases spans.len() - j,
        {
            let p = (spans[j].0.clone(), spans[j].1);
            let ghost before = one@;
            one.push(p);
            proof {
                assert(span_views(one@) =~= span_views(before).push(sv[j as int]));
                assert(sv.take(j + 1) =~= sv.take(j as int).push(sv[j as int]));
            }
            j += 1;
        }
        proof {
            assert(sv.take(spans.len() as int) =~= sv);
        }
        let mut r: Vec<Vec<(String, T)>> = Vec::new();
        r.push(one);
        proof {
            assert(line_views(r@) =~= seq![sv]);
        }
        return r;
    }
    let mut done: Vec<Vec<(String, T)>> = Vec::new();
    let mut cur: Vec<(String, T)> = Vec::new();
    let mut cur_w: usize = 0;
    let mut s: usize = 0;
    proof {
        assert(line_views(done@) =~= Seq::<Seq<SpanView<T>>>::empty());
        assert(span_views(cur@) =~= Seq::<SpanView<T>>::empty());
        assert(sv.take(0) =~= Seq::<SpanView<T>>::empty());
    }
    while s < spans.len()
        invariant
            s <= spans.len(),
            max_width > 0,
            sv == span_views(spans@),
            cur_w <= max_width,
            (line_views(done@), span_views(cur@), cur_w as nat) == wrap_fold(sv.take(s as int), max_width as nat),
        decreases spans.len() - s,
    {
        let text = chars_of(spans[s].0.as_str());
        let style = spans[s].1;
        let len = text.len();
        let ghost st0: WrapState<T> = (line_views(done@), span_views(cur@), cur_w as nat);
        proof {
            assert(sv.take(s + 1).drop_last() =~= sv.take(s as int));
            assert(sv.take(s + 1).last() == sv[s as int]);
            assert(sv[s as int] == (text@, style));
        }
        if len <= max_width - cur_w {
            let ghost before = cur@;
            cur.push((spans[s].0.clone(), style));
            cur_w = cur_w + len;
            proof {
                assert(span_views(cur@) =~= span_views(before).push(sv[s as int]));
            }
        } else {
            let mut i: usize = 0;
            while i < len
                invariant
                    i <= len == text@.len(),
                    max_width > 0,
                    cur_w <= max_width,
                    split_span(st0, text@, style, 0, max_width as nat) == split_span(
                        (line_views(done@), span_views(cur@), cur_w as nat),
                        text@,
                        style,
                        i as nat,
                        max_width as nat,
                    ),
                decreases len - i, if cur_w >= max_width {
                    1int
                } else {
                    0int
                },
            {
                let r = max_width - cur_w;
                let take = if r < len - i {
                    r
                } else {
                    len - i
                };
                let seg = string_of(&text, i, i + take);
                let ghost before = cur@;
                cur.push((seg, style));
                proof {
                    assert(span_views(cur@) =~= span_views(before).push((text@.subrange(i as int, (i + take) as int), style)));
                }
                cur_w = cur_w + take;
                i = i + take;
                if cur_w >= max_width {
                    let full = cur;
                    cur = Vec::new();
                    let ghost dbefore = done@;
                    done.push(full);
                    proof {
                        assert(line_views(done@) =~= line_views(dbefore).push(span_views(full@)));
                        assert(span_views(cur@) =~= Seq::<SpanView<T>>::empty());
                    }
                    cur_w = 0;
                }
            }
        }
        s += 1;
    }
    proof {
        assert(sv.take(spans.len() as int) =~= sv);
    }
    if cur.len() > 0 {
        let ghost dbefore = done@;
        let c = cur;
        done.push(c);
        proof {
            assert(line_views(done@) =~= line_views(dbefore).push(span_views(c@)));
        }
    }
    done
}

proof fn lemma_width_prefix<T>(s: Seq<SpanView<T>>, k: int)
    requires
        0 <= k <= s.len(),
    ensures
        width(s.take(k)) <= width(s),
    decreases s.len() - k,
{
    if k < s.len() {
        lemma_width_prefix(s, k + 1);
        assert(s.take(k + 1) =~= s.take(k).push(s[k]));
        lemma_width_push(s.take(k), s[k]);
    } else {
        assert(s.take(k) =~= s);
    }
}

/// The text of a line (its spans' texts, in order).
pub open spec fn text_of<T>(spans: Seq<SpanView<T>>) -> Seq<char>
    decreases spans.len(),
{
    if spans.len() == 0 {
        seq![]
    } else {
        text_of(spans.drop_last()) + spans.last().0
    }
}

/// The text of several lines, one after the other.
pub open spec fn text_of_lines<T>(lines: Seq<Seq<SpanView<T>>>) -> Seq<char>
    decreases lines.len(),
{
    if lines.len() == 0 {
        seq![]
    } else {
        text_of_lines(lines.drop_last()) + text_of(lines.last())
    }
}

/// Every line is at most `max` characters wide.
pub open spec fn all_fit<T>(lines: Seq<Seq<SpanView<T>>>, max: nat) -> bool {
    forall|i: int| 0 <= i < lines.len() ==> width(#[trigger] lines[i]) <= max
}

/// A wrapping state whose lines fit and whose width count is right.
pub open spec fn state_ok<T>(st: WrapState<T>, max: nat) -> bool {
    all_fit(st.0, max) && width(st.1) == st.2 && st.2 <= max
}

proof fn lemma_text_push<T>(s: Seq<SpanView<T>>, x: SpanView<T>)
    ensures
        text_of(s.push(x)) == text_of(s) + x.0,
{
    assert(s.push(x).drop_last() =~= s);
}

proof fn lemma_lines_push<T>(ls: Seq<Seq<SpanView<T>>>, l: Seq<SpanView<T>>)
    ensures
        text_of_lines(ls.push(l)) == text_of_lines(ls) + text_of(l),
{
    assert(ls.push(l).drop_last() =~= ls);
}

proof fn lemma_split_span<T>(st: WrapState<T>, text: Seq<char>, style: T, i: nat, max: nat)
    requires
        max > 0,
        i <= text.len(),
        state_ok(st, max),
    ensures
        state_ok(split_span(st, text, style, i, max), max),
        text_of_lines(split_span(st, text, style, i, max).0) + text_of(split_span(st, text, style, i, max).1)
            == text_of_lines(st.0) + text_of(st.1) + text.subrange(i as int, text.len() as int),
    decreases text.len() - i, if st.2 >= max {
            1int
        } else {
            0int
        },
{
    if i >= text.len() {
        assert(text.subrange(i as int, text.len() as int) =~= Seq::<char>::empty());
        assert(text_of_lines(st.0) + text_of(st.1) + Seq::<char>::empty() =~= text_of_lines(st.0) + text_of(st.1));
    } else {
        let r = room(max, st.2);
        let take: nat = if r < text.len() - i {
            r
        } else {
            (text.len() - i) as nat
        };
        let seg = text.subrange(i as int, (i + take) as int);
        let cur = st.1.push((seg, style));
        lemma_width_push(st.1, (seg, style));
        lemma_text_push(st.1, (seg, style));
        assert(text.subrange(i as int, text.len() as int) =~= seg + text.subrange((i + take) as int, text.len() as int));
        if st.2 + take >= max {
            let nst: WrapState<T> = (st.0.push(cur), seq![], 0);
            assert(all_fit(nst.0, max)) by {
                assert forall|k: int| 0 <= k < nst.0.len() implies width(#[trigger] nst.0[k]) <= max by {
                    if k < st.0.len() {
                        assert(nst.0[k] == st.0[k]);
                    }
                }
            }
            lemma_lines_push(st.0, cur);
            lemma_split_span(nst, text, style, i + take, max);
            assert(text_of(Seq::<SpanView<T>>::empty()) == Seq::<char>::empty());
            assert(text_of_lines(nst.0) + text_of(nst.1) =~= text_of_lines(st.0) + text_of(st.1) + seg);
        } else {
            let nst: WrapState<T> = (st.0, cur, st.2 + take);
            lemma_split_span(nst, text, style, i + take, max);
        }
    }
}

proof fn lemma_wrap_fold<T>(spans: Seq<SpanView<T>>, max: nat)
    requires
        max > 0,
    ensures
        state_ok(wrap_fold(spans, max), max),
        text_of_lines(wrap_fold(spans, max).0) + text_of(wrap_fold(spans, max).1) == text_of(spans),
    decreases spans.len(),
{
    if spans.len() == 0 {
        assert(text_of_lines(Seq::<Seq<SpanView<T>>>::empty()) + text_of(Seq::<SpanView<T>>::empty()) =~= Seq::<char>::empty());
    } else {
        let st = wrap_fold(spans.drop_last(), max);
        lemma_wrap_fold(spans.drop_last(), max);
        let x = spans.last();
        if x.0.len() <= room(max, st.2) {
            lemma_width_push(st.1, x);
            lemma_text_push(st.1, x);
        } else {
            lemma_split_span(st, x.0, x.1, 0, max);
            assert(x.0.subrange(0, x.0.len() as int) =~= x.0);
        }
    }
}

/// Wrapping loses and adds no character (the lines' texts, one after the
/// other, are the line's text) and no wrapped line is wider than `max`.
pub proof fn lemma_wrapped_fits_and_keeps_text<T>(spans: Seq<SpanView<T>>, max: nat)
    requires
        max > 0,
    ensures
        text_of_lines(wrapped(spans, max)) == text_of(spans),
        all_fit(wrapped(spans, max), max),
{
    let w = wrapped(spans, max);
    if width(spans) <= max {
        lemma_lines_push(Seq::<Seq<SpanView<T>>>::empty(), spans);
        assert(seq![spans] =~= Seq::<Seq<SpanView<T>>>::empty().push(spans));
        assert(text_of_lines(Seq::<Seq<SpanView<T>>>::empty()) == Seq::<char>::empty());
        assert(Seq::<char>::empty() + text_of(spans) =~= text_of(spans));
    } else {
        let st = wrap_fold(spans, max);
        lemma_wrap_fold(spans, max);
        if st.1.len() > 0 {
            lemma_lines_push(st.0, st.1);
            assert forall|k: int| 0 <= k < w.len() implies width(#[trigger] w[k]) <= max by {
                if k < st.0.len() {
                    assert(w[k] == st.0[k]);
                }
            }
        } else {
            assert(st.1 =~= Seq::<SpanView<T>>::empty());
            assert(text_of(st.1) == Seq::<char>::empty());
            assert(text_of_lines(st.0) + Seq::<char>::empty() =~= text_of_lines(st.0));
        }
    }
}

} // verus!
