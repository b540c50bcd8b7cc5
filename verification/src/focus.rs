//! Zone-local focus: which pane receives keys, and Tab cycling through the
//! zones of the city cockpit.

use vstd::prelude::*;

verus! {

/// A focusable zone.
#[derive(Debug, Clone, Copy, PartialEq, Eq, Structural, Default)]
pub enum FocusZone {
    #[default]
    Chat,
    CityWish,
    CityBoard,
    CityInspector,
    CitySteer,
    CitySpawn,
    Sessions,
    Tree,
}

/// Whether a zone belongs to the city cockpit.
pub open spec fn is_city_zone(z: FocusZone) -> bool {
    match z {
        FocusZone::CityWish | FocusZone::CityBoard | FocusZone::CityInspector
        | FocusZone::CitySteer | FocusZone::CitySpawn => true,
        _ => false,
    }
}

/// Short label of a zone.
pub open spec fn zone_label(z: FocusZone) -> Seq<char> {
    match z {
        FocusZone::Chat => "chat"@,
        FocusZone::CityWish => "wish"@,
        FocusZone::CityBoard => "city"@,
        FocusZone::CityInspector => "inspect"@,
        FocusZone::CitySteer => "steer"@,
        FocusZone::CitySpawn => "spawn"@,
        FocusZone::Sessions => "sessions"@,
        FocusZone::Tree => "tree"@,
    }
}

impl FocusZone {
    /// Short label of the zone.
    pub fn label(self) -> (r: &'static str)
        ensures
            r@ == zone_label(self),
    {
        match self {
            FocusZone::Chat => "chat",
            FocusZone::CityWish => "wish",
            FocusZone::CityBoard => "city",
            FocusZone::CityInspector => "inspect",
            FocusZone::CitySteer => "steer",
            FocusZone::CitySpawn => "spawn",
            FocusZone::Sessions => "sessions",
            FocusZone::Tree => "tree",
        }
    }

    /// Whether the zone belongs to the city cockpit.
    pub fn is_city(self) -> (r: bool)
        ensures
            r == is_city_zone(self),
    {
        match self {
            FocusZone::CityWish | FocusZone::CityBoard | FocusZone::CityInspector
            | FocusZone::CitySteer | FocusZone::CitySpawn => true,
            _ => false,
        }
    }
}

/// City zones in Tab order; inspector and steer only with a selected seat.
pub open spec fn city_zones(has_selection: bool) -> Seq<FocusZone> {
    if has_selection {
        seq![
            FocusZone::CityWish,
            FocusZone::CityBoard,
            FocusZone::CityInspector,
            FocusZone::CitySteer,
            FocusZone::CitySpawn,
        ]
    } else {
        seq![FocusZone::CityWish, FocusZone::CityBoard, FocusZone::CitySpawn]
    }
}

/// City zones in Tab cycle order when City is open.
pub fn visible_city_zones(has_selection: bool) -> (r: Vec<FocusZone>)
    ensures
        r@ == city_zones(has_selection),
{
    let mut z: Vec<FocusZone> = Vec::new();
    z.push(FocusZone::CityWish);
    z.push(FocusZone::CityBoard);
    if has_selection {
        z.push(FocusZone::CityInspector);
        z.push(FocusZone::CitySteer);
    }
    z.push(FocusZone::CitySpawn);
    proof {
        assert(z@ =~= city_zones(has_selection));
    }
    z
}

/// Index of the first occurrence of `z`, or 0 when absent.
pub open spec fn index_or_zero(s: Seq<FocusZone>, z: FocusZone) -> int {
    if exists|i: int| 0 <= i < s.len() && s[i] == z {
        choose|i: int| 0 <= i < s.len() && s[i] == z && forall|j: int| 0 <= j < i ==> s[j] != z
    } else {
        0
    }
}

/// Focus after moving `dir` steps (wrapping) from `current` within
/// `visible`; a zone not in `visible` counts as the first one.
pub open spec fn cycled(current: FocusZone, visible: Seq<FocusZone>, dir: int) -> FocusZone {
    if visible.len() == 0 {
        current
    } else {
        visible[(index_or_zero(visible, current) + dir) % (visible.len() as int)]
    }
}

/// Euclidean remainder (`i64::rem_euclid`), always in `0..n`.
pub fn rem_euclid(x: i64, n: i64) -> (r: i64)
    requires
        n > 0,
        x > i64::MIN,
    ensures
        r == x % n,
        0 <= r < n,
{
    if x >= 0 {
        x % n
    } else {
        let y: i64 = -x;
        let m = y % n;
        if m == 0 {
            proof {
                let q = y / n;
                vstd::arithmetic::div_mod::lemma_fundamental_div_mod(y as int, n as int);
                assert(x == (-q) * n + 0) by (nonlinear_arith)
                    requires
                        y == -x,
                        y == n * q + 0,
                ;
                vstd::arithmetic::div_mod::lemma_fundamental_div_mod_converse(x as int, n as int, -q, 0);
            }
            0
        } else {
            proof {
                let q = y / n;
                vstd::arithmetic::div_mod::lemma_fundamental_div_mod(y as int, n as int);
                assert(x == (-q - 1) * n + (n - m)) by (nonlinear_arith)
                    requires
                        y == -x,
                        y == n * q + m,
                ;
                vstd::arithmetic::div_mod::lemma_fundamental_div_mod_converse(
                    x as int,
                    n as int,
                    -q - 1,
                    (n - m) as int,
                );
            }
            n - m
        }
    }
}

/// Cycle focus among `visible` zones (forward if `dir > 0`).
pub fn cycle_focus(current: FocusZone, visible: &[FocusZone], dir: i32) -> (r: FocusZone)
    requires
        visible@.len() <= i32::MAX,
        i32::MIN <= index_or_zero(visible@, current) + dir <= i32::MAX,
    ensures
        r == cycled(current, visible@, dir as int),
{
    if visible.len() == 0 {
        return current;
    }
    let mut idx: usize = 0;
    while idx < visible.len() && visible[idx] != current
        invariant
            idx <= visible@.len(),
            forall|j: int| 0 <= j < idx ==> visible@[j] != current,
        decreases visible@.len() - idx,
    {
        idx += 1;
    }
    let found = idx < visible.len();
    let pos: usize = if found {
        idx
    } else {
        0
    };
    proof {
        if found {
            assert(visible@[idx as int] == current);
            let w = choose|i: int|
                0 <= i < visible@.len() && visible@[i] == current && forall|j: int|
                    0 <= j < i ==> visible@[j] != current;
            assert(0 <= w < visible@.len() && visible@[w] == current && forall|j: int|
                0 <= j < w ==> visible@[j] != current);
            if w < idx {
            } else if w > idx {
                assert(visible@[idx as int] != current);
            }
            assert(index_or_zero(visible@, current) == idx);
        } else {
            assert(index_or_zero(visible@, current) == 0);
        }
    }
    let n = visible.len() as i64;
    let next = rem_euclid(pos as i64 + dir as i64, n) as usize;
    visible[next]
}

proof fn lemma_index_of_distinct(s: Seq<FocusZone>, j: int)
    requires
        s.no_duplicates(),
        0 <= j < s.len(),
    ensures
        index_or_zero(s, s[j]) == j,
{
    let z = s[j];
    assert(exists|i: int| 0 <= i < s.len() && s[i] == z);
    let w = choose|i: int| 0 <= i < s.len() && s[i] == z && forall|k: int| 0 <= k < i ==> s[k] != z;
    if !(0 <= w < s.len() && s[w] == z && forall|k: int| 0 <= k < w ==> s[k] != z) {
        assert(0 <= j < s.len() && s[j] == z && forall|k: int| 0 <= k < j ==> s[k] != z);
    }
}

/// The city zones are distinct, start at the wish composer, and include
/// inspector and steer exactly when a seat is selected.
pub proof fn lemma_city_zones_shape(has_selection: bool)
    ensures
        city_zones(has_selection).no_duplicates(),
        city_zones(has_selection)[0] == FocusZone::CityWish,
        forall|i: int| 0 <= i < city_zones(has_selection).len() ==> is_city_zone(
            #[trigger] city_zones(has_selection)[i],
        ),
        city_zones(has_selection).contains(FocusZone::CityInspector) == has_selection,
{
    let s = city_zones(has_selection);
    if !has_selection {
        assert(s[0] != FocusZone::CityInspector && s[1] != FocusZone::CityInspector && s[2]
            != FocusZone::CityInspector);
    } else {
        assert(s[2] == FocusZone::CityInspector);
    }
}

/// Tab then Shift-Tab (or any `dir` then `-dir`) returns to the starting
/// zone, when that zone is among distinct visible zones; and the focus
/// always lands on a visible zone.
pub proof fn lemma_cycle_round_trip(current: FocusZone, visible: Seq<FocusZone>, dir: int)
    requires
        visible.no_duplicates(),
        visible.contains(current),
    ensures
        visible.contains(cycled(current, visible, dir)),
        cycled(cycled(current, visible, dir), visible, -dir) == current,
{
    let n = visible.len() as int;
    let i = choose|i: int| 0 <= i < n && visible[i] == current;
    lemma_index_of_distinct(visible, i);
    let j = (i + dir) % n;
    let z = visible[j];
    lemma_index_of_distinct(visible, j);
    let q = (i + dir) / n;
    vstd::arithmetic::div_mod::lemma_fundamental_div_mod(i + dir, n);
    assert(j - dir == (-q) * n + i) by (nonlinear_arith)
        requires
            i + dir == n * q + j,
    ;
    vstd::arithmetic::div_mod::lemma_fundamental_div_mod_converse(j - dir, n, -q, i);
    assert(visible[j] == z);
}

} // verus!
