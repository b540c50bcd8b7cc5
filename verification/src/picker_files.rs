//! Which files and directories the `@` / `#` pickers offer: entries to
//! skip while walking, and the ignore patterns (built in, and read from a
//! `.gitignore`).

use vstd::prelude::*;
use crate::dir_summary::{sort_names, sorted_names};
use globset::{Glob, GlobSetBuilder};
use crate::text::{chars_of, contains, lines, lines_of, starts_with, string_of, string_of_all, string_views, trim, trim_bounds, views};

verus! {

/// Directories never entered.
pub open spec fn skipped_dir(name: Seq<char>) -> bool {
    name == "target"@ || name == "node_modules"@ || name == ".git"@ || name == "__pycache__"@
}

/// A walked entry is kept unless it is hidden (below the top) or a skipped
/// directory.
pub open spec fn keeps_entry(name: Seq<char>, depth: nat, is_dir: bool) -> bool {
    !(depth > 0 && starts_with(name, "."@)) && !(is_dir && skipped_dir(name))
}

/// Whether the walk keeps an entry named `name` at `depth`.
pub fn picker_keeps(name: &str, depth: usize, is_dir: bool) -> (r: bool)
    ensures
        r == keeps_entry(name@, depth as nat, is_dir),
{
    let hidden = depth > 0 && crate::text::str_starts_with(name, ".");
    let skipped = is_dir && (crate::text::str_eq(name, "target") || crate::text::str_eq(name, "node_modules")
        || crate::text::str_eq(name, ".git") || crate::text::str_eq(name, "__pycache__"));
    !hidden && !skipped
}

/// Ignore patterns that always apply.
pub open spec fn builtin_patterns() -> Seq<Seq<char>> {
    seq!["**/target/**"@, "**/node_modules/**"@, "**/.git/**"@, "**/__pycache__/**"@, "**/*.o"@]
}

/// `s` without trailing `/`s.
pub open spec fn strip_slashes(s: Seq<char>) -> Seq<char>
    decreases s.len(),
{
    if s.len() > 0 && s.last() == '/' {
        strip_slashes(s.drop_last())
    } else {
        s
    }
}

/// The glob for one `.gitignore` pattern: anchored at the root when it
/// starts with `/`, matched at any depth when it has no `/`.
pub open spec fn gitignore_glob(line: Seq<char>) -> Seq<char> {
    let p = strip_slashes(trim(line));
    if p.len() > 0 && p[0] == '/' {
        p.drop_first()
    } else if !contains(p, "/"@) {
        "**/"@ + p
    } else {
        p
    }
}

/// Whether a `.gitignore` line holds a pattern (not blank, a comment or a
/// negation, which is not supported).
pub open spec fn is_pattern_line(line: Seq<char>) -> bool {
    let t = trim(line);
    t.len() > 0 && t[0] != '#' && t[0] != '!'
}

/// The globs of `.gitignore` lines: each pattern, and everything under it.
pub open spec fn gitignore_globs(ls: Seq<Seq<char>>) -> Seq<Seq<char>>
    decreases ls.len(),
{
    if ls.len() == 0 {
        seq![]
    } else {
        let prev = gitignore_globs(ls.drop_last());
        if is_pattern_line(ls.last()) {
            let g = gitignore_glob(ls.last());
            prev.push(g).push(g + "/**"@)
        } else {
            prev
        }
    }
}

/// All ignore globs: the built-in ones, then those of the `.gitignore`
/// text when there is one.
pub open spec fn ignore_globs(gitignore: Option<Seq<char>>) -> Seq<Seq<char>> {
    builtin_patterns() + match gitignore {
        Some(t) => gitignore_globs(lines(t)),
        None => seq![],
    }
}

fn glob_of_line(line: &Vec<char>) -> (r: String)
    ensures
        r@ == gitignore_glob(line@),
{
    let (lo, hi) = trim_bounds(line);
    let mut end = hi;
    proof {
        assert(line@.subrange(lo as int, hi as int) == trim(line@));
    }
    while end > lo && line[end - 1] == '/'
        invariant
            lo <= end <= hi <= line@.len(),
            strip_slashes(trim(line@)) == strip_slashes(line@.subrange(lo as int, end as int)),
        decreases end - lo,
    {
        proof {
            assert(line@.subrange(lo as int, end as int).drop_last() =~= line@.subrange(lo as int, end - 1));
        }
        end -= 1;
    }
    let p = crate::text::sub_vec(line, lo, end);
    proof {
        assert(strip_slashes(p@) == p@);
    }
    if p.len() > 0 && p[0] == '/' {
        let r = string_of(&p, 1, p.len());
        proof {
            assert(p@.subrange(1, p@.len() as int) =~= p@.drop_first());
        }
        r
    } else if !crate::text::contains_exec(&p, &chars_of("/")) {
        let mut s = "**/".to_string();
        s.append(string_of_all(&p).as_str());
        s
    } else {
        string_of_all(&p)
    }
}

/// The ignore globs for the picker, given the project's `.gitignore` text
/// (if any).
pub fn ignore_patterns(gitignore: Option<&str>) -> (r: Vec<String>)
    ensures
        string_views(r@) == ignore_globs(match gitignore {
            Some(t) => Some(t@),
            None => None,
        }),
{
    let mut out: Vec<String> = Vec::new();
    out.push("**/target/**".to_string());
    out.push("**/node_modules/**".to_string());
    out.push("**/.git/**".to_string());
    out.push("**/__pycache__/**".to_string());
    out.push("**/*.o".to_string());
    let ghost base = string_views(out@);
    proof {
        assert(base =~= builtin_patterns());
    }
    match gitignore {
        Some(t) => {
            let v = chars_of(t);
            let ls = lines_of(&v);
            let ghost lv = views(ls@);
            let mut i: usize = 0;
            proof {
                assert(lv.take(0) =~= Seq::<Seq<char>>::empty());
                assert(string_views(out@) =~= base + gitignore_globs(lv.take(0)));
            }
            while i < ls.len()
                invariant
                    i <= ls.len(),
                    lv == views(ls@),
                    lv == lines(t@),
                    string_views(out@) == base + gitignore_globs(lv.take(i as int)),
                decreases ls.len() - i,
            {
                let line = &ls[i];
                let (lo, hi) = trim_bounds(line);
                let keep = lo < hi && line[lo] != '#' && line[lo] != '!';
                proof {
                    assert(lv.take(i + 1).drop_last() =~= lv.take(i as int));
                    assert(lv.take(i + 1).last() == line@);
                    assert(line@.subrange(lo as int, hi as int) == trim(line@));
                    if lo < hi {
                        assert(trim(line@)[0] == line@[lo as int]);
                    }
                }
                if keep {
                    let g = glob_of_line(line);
                    let mut g2 = g.clone();
                    g2.append("/**");
                    let ghost before = string_views(out@);
                    let ghost gv = g@;
                    out.push(g);
                    out.push(g2);
                    proof {
                        assert(string_views(out@) =~= before.push(gv).push(gv + "/**"@));
                    }
                }
                i += 1;
            }
            proof {
                assert(lv.take(ls.len() as int) =~= lv);
            }
        },
        None => {
            proof {
                assert(string_views(out@) =~= base + Seq::<Seq<char>>::empty());
            }
        },
    }
    out
}

/// Named result of matching `path` against the set of globs compiled
/// from `patterns` with globset (patterns that do not compile left out).
pub uninterp spec fn spec_glob_match(patterns: Seq<Seq<char>>, path: Seq<char>) -> bool;

/// No backslash in any path or pattern (they are written with `/`).
pub open spec fn slash_paths(paths: Seq<Seq<char>>) -> bool {
    forall|i: int, j: int| 0 <= i < paths.len() && 0 <= j < paths[i].len() ==> #[trigger] paths[i][j] != '\\'
}

/// Builds a `globset::GlobSet` from the patterns (`Glob::new` on each, the
/// ones that fail left out) and calls `GlobSet::is_match` on each path.
/// The answers are named `spec_glob_match`; neither the paths nor the
/// patterns hold a backslash (which `Glob::new` reads as an escape on Unix
/// and as a separator on Windows), so they read the same on every platform.
#[verifier::external_body]
fn glob_matches(patterns: &Vec<String>, paths: &Vec<String>) -> (r: Vec<bool>)
    requires
        slash_paths(string_views(paths@)),
        slash_paths(string_views(patterns@)),
    ensures
        r@.len() == paths@.len(),
        forall|i: int| 0 <= i < r@.len() ==> r@[i] == spec_glob_match(string_views(patterns@), #[trigger] paths@[i]@),
{
    let mut b = GlobSetBuilder::new();
    for p in patterns {
        if let Ok(g) = Glob::new(p) {
            b.add(g);
        }
    }
    let set = b.build().unwrap_or_else(|_| GlobSetBuilder::new().build().unwrap());
    paths.iter().map(|p| set.is_match(p.as_str())).collect()
}

/// A path with `\` written as `/`.
pub open spec fn slashed(p: Seq<char>) -> Seq<char> {
    p.map_values(|c: char| if c == '\\' { '/' } else { c })
}

/// Files the picker offers: non-empty and not ignored.
pub open spec fn kept_file(patterns: Seq<Seq<char>>) -> spec_fn(Seq<char>) -> bool {
    |p: Seq<char>| p.len() > 0 && !spec_glob_match(patterns, p)
}

/// Directories the picker offers: non-empty, and neither the path nor the
/// path with a trailing `/` ignored.
pub open spec fn kept_dir(patterns: Seq<Seq<char>>) -> spec_fn(Seq<char>) -> bool {
    |p: Seq<char>| p.len() > 0 && !spec_glob_match(patterns, p) && !spec_glob_match(patterns, p + "/"@)
}

/// The picker's list from walked paths (in walk order): separators as `/`,
/// the kept ones, at most `cap` of them, in order.
pub open spec fn picker_list(walked: Seq<Seq<char>>, keep: spec_fn(Seq<char>) -> bool, cap: nat) -> Seq<Seq<char>> {
    let kept = walked.map_values(|p: Seq<char>| slashed(p)).filter(keep);
    sorted_names(if kept.len() > cap { kept.take(cap as int) } else { kept })
}

fn slashed_exec(p: &str) -> (r: String)
    ensures
        r@ == slashed(p@),
{
    let v = chars_of(p);
    let mut out: Vec<char> = Vec::new();
    let mut i: usize = 0;
    while i < v.len()
        invariant
            i <= v.len(),
            v@ == p@,
            out@ == slashed(p@).take(i as int),
        decreases v.len() - i,
    {
        let c = v[i];
        out.push(if c == '\\' { '/' } else { c });
        proof {
            assert(out@ =~= slashed(p@).take(i + 1));
        }
        i += 1;
    }
    proof {
        assert(slashed(p@).take(v.len() as int) =~= slashed(p@));
    }
    string_of_all(&out)
}

fn slashed_all(walked: &Vec<String>, also_dir_form: bool) -> (r: (Vec<String>, Vec<String>))
    ensures
        string_views(r.0@) == string_views(walked@).map_values(|p: Seq<char>| slashed(p)),
        also_dir_form ==> string_views(r.1@) == string_views(walked@).map_values(|p: Seq<char>| slashed(p) + "/"@),
        slash_paths(string_views(r.0@)),
        also_dir_form ==> slash_paths(string_views(r.1@)),
        r.0@.len() == walked@.len(),
        also_dir_form ==> r.1@.len() == walked@.len(),
{
    let ghost target = string_views(walked@).map_values(|p: Seq<char>| slashed(p));
    let ghost target2 = string_views(walked@).map_values(|p: Seq<char>| slashed(p) + "/"@);
    let mut a: Vec<String> = Vec::new();
    let mut b: Vec<String> = Vec::new();
    let mut i: usize = 0;
    while i < walked.len()
        invariant
            i <= walked.len(),
            target == string_views(walked@).map_values(|p: Seq<char>| slashed(p)),
            target2 == string_views(walked@).map_values(|p: Seq<char>| slashed(p) + "/"@),
            string_views(a@) == target.take(i as int),
            also_dir_form ==> string_views(b@) == target2.take(i as int),
        decreases walked.len() - i,
    {
        let s = slashed_exec(walked[i].as_str());
        let ghost before_a = a@;
        let ghost before_b = b@;
        if also_dir_form {
            let mut d = s.clone();
            d.append("/");
            b.push(d);
            proof {
                assert(string_views(b@) =~= string_views(before_b).push(slashed(walked@[i as int]@) + "/"@));
                assert(target2.take(i + 1) =~= target2.take(i as int).push(slashed(walked@[i as int]@) + "/"@));
            }
        }
        a.push(s);
        proof {
            assert(string_views(a@) =~= string_views(before_a).push(slashed(walked@[i as int]@)));
            assert(target.take(i + 1) =~= target.take(i as int).push(slashed(walked@[i as int]@)));
        }
        i += 1;
    }
    proof {
        assert(target.take(walked.len() as int) =~= target);
        assert(target2.take(walked.len() as int) =~= target2);
        assert forall|i: int, j: int| 0 <= i < target.len() && 0 <= j < target[i].len() implies #[trigger] target[i][j] != '\\' by {}
        assert forall|i: int, j: int| 0 <= i < target2.len() && 0 <= j < target2[i].len() implies #[trigger] target2[i][j] != '\\' by {
            reveal_strlit("/");
            let x = slashed(string_views(walked@)[i]);
            assert(target2[i] == x + "/"@);
            if j < x.len() {
                assert(target2[i][j] == x[j]);
            } else {
                assert(target2[i][j] == '/');
            }
        }
    }
    (a, b)
}

fn keep_listed(
    paths: &Vec<String>,
    hit: &Vec<bool>,
    hit_dir: &Vec<bool>,
    dirs: bool,
    cap: usize,
    patterns: Ghost<Seq<Seq<char>>>,
) -> (r: Vec<String>)
    requires
        hit@.len() == paths@.len(),
        dirs ==> hit_dir@.len() == paths@.len(),
        forall|i: int| 0 <= i < hit@.len() ==> hit@[i] == spec_glob_match(patterns@, #[trigger] paths@[i]@),
        dirs ==> forall|i: int| 0 <= i < hit_dir@.len() ==> hit_dir@[i] == spec_glob_match(patterns@, #[trigger] paths@[i]@ + "/"@),
    ensures
        string_views(r@) == ({
            let kept = string_views(paths@).filter(if dirs { kept_dir(patterns@) } else { kept_file(patterns@) });
            if kept.len() > cap { kept.take(cap as int) } else { kept }
        }),
{
    let ghost pv = string_views(paths@);
    let ghost keep = if dirs { kept_dir(patterns@) } else { kept_file(patterns@) };
    let mut out: Vec<String> = Vec::new();
    let mut i: usize = 0;
    proof {
        assert(pv.take(0).filter(keep) =~= Seq::<Seq<char>>::empty());
    }
    while i < paths.len() && out.len() < cap
        invariant
            i <= paths.len(),
            hit@.len() == paths@.len(),
            dirs ==> hit_dir@.len() == paths@.len(),
            forall|i: int| 0 <= i < hit@.len() ==> hit@[i] == spec_glob_match(patterns@, #[trigger] paths@[i]@),
            dirs ==> forall|i: int| 0 <= i < hit_dir@.len() ==> hit_dir@[i] == spec_glob_match(patterns@, #[trigger] paths@[i]@ + "/"@),
            pv == string_views(paths@),
            keep == (if dirs { kept_dir(patterns@) } else { kept_file(patterns@) }),
            string_views(out@) == pv.take(i as int).filter(keep),
            out.len() <= cap,
        decreases paths.len() - i,
    {
        let p = &paths[i];
        let ok = !p.as_str().is_empty() && !hit[i] && (!dirs || !hit_dir[i]);
        proof {
            assert(pv[i as int] == p@);
            assert(pv.take(i + 1) =~= pv.take(i as int).push(p@));
            pv.take(i as int).lemma_filter_push(p@, keep);
            assert(ok == keep(p@));
        }
        let ghost before = out@;
        if ok {
            out.push(p.clone());
            proof {
                assert(string_views(out@) =~= string_views(before).push(p@));
            }
        }
        i += 1;
    }
    proof {
        let kept = pv.filter(keep);
        if i == paths.len() {
            assert(pv.take(i as int) =~= pv);
            if kept.len() > cap {
                assert(false);
            }
        } else {
            assert(out.len() == cap);
            lemma_filter_prefix(pv, keep, i as int);
            assert(kept.take(cap as int) =~= pv.take(i as int).filter(keep));
        }
    }
    out
}

proof fn lemma_filter_prefix(s: Seq<Seq<char>>, keep: spec_fn(Seq<char>) -> bool, i: int)
    requires
        0 <= i <= s.len(),
    ensures
        s.take(i).filter(keep).len() <= s.filter(keep).len(),
        s.filter(keep).take(s.take(i).filter(keep).len() as int) == s.take(i).filter(keep),
    decreases s.len() - i,
{
    if i == s.len() {
        assert(s.take(i) =~= s);
        assert(s.filter(keep).take(s.filter(keep).len() as int) =~= s.filter(keep));
    } else {
        lemma_filter_prefix(s, keep, i + 1);
        let a = s.take(i).filter(keep);
        let b = s.take(i + 1).filter(keep);
        assert(s.take(i + 1) =~= s.take(i).push(s[i]));
        s.take(i).lemma_filter_push(s[i], keep);
        assert(b.take(a.len() as int) =~= a);
        assert(s.filter(keep).take(a.len() as int) =~= s.filter(keep).take(b.len() as int).take(a.len() as int));
    }
}

/// The files the `@` picker offers, from the walked relative paths of
/// files (in walk order) and the ignore globs: at most 8000, in order.
pub fn picker_file_list(patterns: &Vec<String>, walked: &Vec<String>) -> (r: Vec<String>)
    requires
        slash_paths(string_views(patterns@)),
    ensures
        string_views(r@) == picker_list(string_views(walked@), kept_file(string_views(patterns@)), 8000),
{
    let (paths, _unused) = slashed_all(walked, false);
    let hit = glob_matches(patterns, &paths);
    let none: Vec<bool> = Vec::new();
    let kept = keep_listed(&paths, &hit, &none, false, 8000, Ghost(string_views(patterns@)));
    sort_names(kept)
}

/// The directories the `#` picker offers, from the walked relative paths
/// of directories below the top (in walk order) and the ignore globs: at
/// most 4000, in order.
pub fn picker_dir_list(patterns: &Vec<String>, walked: &Vec<String>) -> (r: Vec<String>)
    requires
        slash_paths(string_views(patterns@)),
    ensures
        string_views(r@) == picker_list(string_views(walked@), kept_dir(string_views(patterns@)), 4000),
{
    let (paths, with_slash) = slashed_all(walked, true);
    let hit = glob_matches(patterns, &paths);
    let hit_dir = glob_matches(patterns, &with_slash);
    proof {
        assert forall|i: int| 0 <= i < hit_dir@.len() implies hit_dir@[i] == spec_glob_match(string_views(patterns@), #[trigger] paths@[i]@ + "/"@) by {
            let w = string_views(walked@)[i];
            assert(string_views(with_slash@)[i] == with_slash@[i]@);
            assert(string_views(paths@)[i] == paths@[i]@);
            assert(with_slash@[i]@ == slashed(w) + "/"@);
            assert(paths@[i]@ == slashed(w));
        }
    }
    let kept = keep_listed(&paths, &hit, &hit_dir, true, 4000, Ghost(string_views(patterns@)));
    sort_names(kept)
}


/// Whether no pattern holds a backslash.
pub fn patterns_portable(patterns: &Vec<String>) -> (r: bool)
    ensures
        r == slash_paths(string_views(patterns@)),
{
    let mut i: usize = 0;
    while i < patterns.len()
        invariant
            i <= patterns.len(),
            forall|a: int, j: int|
                0 <= a < i && 0 <= j < string_views(patterns@)[a].len() ==> #[trigger] string_views(patterns@)[a][j] != '\\',
        decreases patterns.len() - i,
    {
        let v = chars_of(patterns[i].as_str());
        let mut k: usize = 0;
        while k < v.len()
            invariant
                k <= v.len(),
                i < patterns.len(),
                v@ == patterns@[i as int]@,
                string_views(patterns@)[i as int] == v@,
                forall|j: int| 0 <= j < k ==> v@[j] != '\\',
            decreases v.len() - k,
        {
            if v[k] == '\\' {
                proof {
                    assert(string_views(patterns@)[i as int][k as int] == '\\');
                    assert(!slash_paths(string_views(patterns@)));
                }
                return false;
            }
            k += 1;
        }
        proof {
            assert(string_views(patterns@)[i as int] == patterns@[i as int]@);
        }
        i += 1;
    }
    true
}

/// `picker_file_list` where the patterns read the same on every platform;
/// `None` when a pattern holds a backslash.
pub fn picker_file_list_checked(patterns: &Vec<String>, walked: &Vec<String>) -> (r: Option<Vec<String>>)
    ensures
        r is Some <==> slash_paths(string_views(patterns@)),
        r matches Some(v) ==> string_views(v@) == picker_list(string_views(walked@), kept_file(string_views(patterns@)), 8000),
{
    if patterns_portable(patterns) {
        Some(picker_file_list(patterns, walked))
    } else {
        None
    }
}

/// `picker_dir_list` where the patterns read the same on every platform;
/// `None` when a pattern holds a backslash.
pub fn picker_dir_list_checked(patterns: &Vec<String>, walked: &Vec<String>) -> (r: Option<Vec<String>>)
    ensures
        r is Some <==> slash_paths(string_views(patterns@)),
        r matches Some(v) ==> string_views(v@) == picker_list(string_views(walked@), kept_dir(string_views(patterns@)), 4000),
{
    if patterns_portable(patterns) {
        Some(picker_dir_list(patterns, walked))
    } else {
        None
    }
}

/// A pattern with no backslash.
pub open spec fn no_backslash(p: Seq<char>) -> bool {
    forall|j: int| 0 <= j < p.len() ==> #[trigger] p[j] != '\\'
}

/// The patterns that hold no backslash.
pub open spec fn portable_pred() -> spec_fn(Seq<char>) -> bool {
    |p: Seq<char>| no_backslash(p)
}

fn has_no_backslash(s: &str) -> (r: bool)
    ensures
        r == no_backslash(s@),
{
    let v = chars_of(s);
    let mut k: usize = 0;
    while k < v.len()
        invariant
            k <= v.len(),
            v@ == s@,
            forall|j: int| 0 <= j < k ==> v@[j] != '\\',
        decreases v.len() - k,
    {
        if v[k] == '\\' {
            return false;
        }
        k += 1;
    }
    true
}

/// The patterns that hold no backslash, in order: the ones that read the
/// same on every platform.
pub fn portable_patterns(patterns: &Vec<String>) -> (r: Vec<String>)
    ensures
        string_views(r@) == string_views(patterns@).filter(portable_pred()),
        slash_paths(string_views(r@)),
{
    let ghost pv = string_views(patterns@);
    let mut out: Vec<String> = Vec::new();
    let mut i: usize = 0;
    proof {
        assert(pv.take(0).filter(portable_pred()) =~= Seq::<Seq<char>>::empty());
        assert(string_views(out@) =~= Seq::<Seq<char>>::empty());
    }
    while i < patterns.len()
        invariant
            i <= patterns.len(),
            pv == string_views(patterns@),
            string_views(out@) == pv.take(i as int).filter(portable_pred()),
        decreases patterns.len() - i,
    {
        proof {
            assert(pv.take(i + 1) =~= pv.take(i as int).push(pv[i as int]));
            pv.take(i as int).lemma_filter_push(pv[i as int], portable_pred());
        }
        if has_no_backslash(patterns[i].as_str()) {
            let ghost before = out@;
            out.push(patterns[i].clone());
            proof {
                assert(string_views(out@) =~= string_views(before).push(pv[i as int]));
            }
        }
        i += 1;
    }
    proof {
        assert(pv.take(patterns.len() as int) =~= pv);
        let f = pv.filter(portable_pred());
        assert forall|a: int, j: int| 0 <= a < f.len() && 0 <= j < f[a].len() implies #[trigger] f[a][j] != '\\' by {
            pv.lemma_filter_pred(portable_pred(), a);
        }
    }
    out
}

} // verus!

