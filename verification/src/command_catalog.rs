//! Slash / palette command catalog.

use vstd::prelude::*;
use crate::text::{
    chars_of, contains, contains_exec, spec_to_lowercase, string_views, to_lowercase, trim, trim_str,
};

verus! {

/// Commands shown in the Ctrl+K palette, in order.
pub open spec fn palette_command_list() -> Seq<Seq<char>> {
    seq![
        "/help"@, "/keys"@, "/settings"@, "/theme"@, "/tree"@, "/timeline"@, "/output"@,
        "/city"@, "/fleet"@, "/wish"@, "/mode"@, "/model"@, "/provider"@, "/goal"@, "/route"@,
        "/handoff"@, "/seat"@, "/beads"@, "/city"@, "/compact"@, "/new"@, "/fork"@,
        "/sessions"@, "/export"@, "/clear"@, "/context"@, "/skills"@, "/skill"@, "/prompt"@,
        "/reload"@, "/worker"@, "/marshal"@, "/detach"@, "/mail"@, "/wish"@, "/brain"@,
        "/trust"@, "/rename"@, "/history"@, "/lsp"@, "/image"@,
    ]
}

/// Commands shown in the Ctrl+K palette and used for discovery.
pub fn palette_commands() -> (r: Vec<&'static str>)
    ensures
        r@.map_values(|s: &str| s@) == palette_command_list(),
{
    let v: Vec<&'static str> = vec![
        "/help", "/keys", "/settings", "/theme", "/tree", "/timeline", "/output", "/city",
        "/fleet", "/wish", "/mode", "/model", "/provider", "/goal", "/route", "/handoff", "/seat",
        "/beads", "/city", "/compact", "/new", "/fork", "/sessions", "/export", "/clear",
        "/context", "/skills", "/skill", "/prompt", "/reload", "/worker", "/marshal", "/detach",
        "/mail", "/wish", "/brain", "/trust", "/rename", "/history", "/lsp", "/image",
    ];
    proof {
        assert(v@.map_values(|s: &str| s@) =~= palette_command_list());
    }
    v
}

/// The commands kept for a query: all for an empty (trimmed) query,
/// otherwise those whose lowercased text contains the lowercased query.
pub open spec fn filtered_commands(cmds: Seq<Seq<char>>, query: Seq<char>) -> Seq<Seq<char>> {
    let q = spec_to_lowercase(trim(query));
    cmds.filter(|c: Seq<char>| q.len() == 0 || contains(spec_to_lowercase(c), q))
}

/// Palette commands matching `query`, in catalog order.
pub fn filter_commands(query: &str) -> (r: Vec<String>)
    ensures
        string_views(r@) == filtered_commands(palette_command_list(), query@),
{
    let t = trim_str(query);
    let q = to_lowercase(t.as_str());
    let qv = chars_of(q.as_str());
    let cmds = palette_commands();
    let ghost cv = cmds@.map_values(|s: &str| s@);
    let ghost pred = |c: Seq<char>| qv@.len() == 0 || contains(spec_to_lowercase(c), qv@);
    let mut out: Vec<String> = Vec::new();
    let mut i: usize = 0;
    proof {
        assert(cv.take(0) =~= Seq::<Seq<char>>::empty());
        assert(cv.take(0).filter(pred) =~= Seq::<Seq<char>>::empty());
    }
    while i < cmds.len()
        invariant
            i <= cmds@.len(),
            cv == cmds@.map_values(|s: &str| s@),
            pred == (|c: Seq<char>| qv@.len() == 0 || contains(spec_to_lowercase(c), qv@)),
            string_views(out@) == cv.take(i as int).filter(pred),
        decreases cmds@.len() - i,
    {
        let c = cmds[i];
        let keep = if qv.len() == 0 {
            true
        } else {
            let lc = to_lowercase(c);
            let lv = chars_of(lc.as_str());
            contains_exec(&lv, &qv)
        };
        proof {
            assert(cv[i as int] == c@);
            assert(cv.take(i + 1).drop_last() =~= cv.take(i as int));
            assert(cv.take(i + 1).last() == c@);
            assert(keep == pred(c@));
            cv.take(i as int).lemma_filter_push(c@, pred);
            assert(cv.take(i as int).push(c@) =~= cv.take(i + 1));
        }
        if keep {
            let ghost old_out = string_views(out@);
            let cv2 = chars_of(c);
            out.push(crate::text::string_of_all(&cv2));
            proof {
                assert(string_views(out@) =~= old_out.push(c@));
            }
        }
        i += 1;
    }
    proof {
        assert(cv.take(cmds@.len() as int) =~= cv);
    }
    out
}

} // verus!
