//! City cockpit operations: spawn seat lists, spawn options, zone focus and
//! log diversion.

use vstd::prelude::*;
use crate::fleet_panel::CityPanelState;
use crate::focus::{city_zones, cycle_focus, cycled, index_or_zero, is_city_zone, visible_city_zones, FocusZone};
use crate::text::{decimal, parse_usize, parse_usize_exec, push_decimal};

verus! {

/// Most fleet workers spawned at once.
pub open spec fn max_fleet() -> nat {
    16
}

/// Most crew workers spawned at once.
pub open spec fn max_crew() -> nat {
    8
}

/// `<prefix>1`, `<prefix>2`, ... `<prefix>n`.
pub open spec fn numbered(prefix: Seq<char>, n: nat) -> Seq<Seq<char>> {
    Seq::new(n, |i: int| prefix + decimal((i + 1) as nat))
}

/// Seat names for a spawn: `Fleet-1..` (at most 16) then `Crew-1..` (at
/// most 8).
pub open spec fn spawn_seats(fleet_n: nat, crew_n: nat) -> Seq<Seq<char>> {
    numbered("Fleet-"@, if fleet_n < max_fleet() { fleet_n } else { max_fleet() }) + numbered(
        "Crew-"@,
        if crew_n < max_crew() { crew_n } else { max_crew() },
    )
}

/// Appends `<prefix>1..<prefix>n` to `out`.
fn push_numbered(out: &mut Vec<String>, prefix: &str, n: usize)
    requires
        n <= 16,
    ensures
        crate::text::string_views(final(out)@) == crate::text::string_views(old(out)@) + numbered(
            prefix@,
            n as nat,
        ),
{
    let ghost start = crate::text::string_views(out@);
    let mut i: usize = 1;
    while i <= n
        invariant
            1 <= i <= n + 1,
            n <= 16,
            crate::text::string_views(out@) == start + numbered(prefix@, (i - 1) as nat),
        decreases n + 1 - i,
    {
        let mut name = prefix.to_string();
        push_decimal(&mut name, i as u64);
        let ghost before = out@;
        out.push(name);
        proof {
            assert(crate::text::string_views(out@) =~= crate::text::string_views(before).push(name@));
            assert(numbered(prefix@, i as nat) =~= numbered(prefix@, (i - 1) as nat).push(
                prefix@ + decimal(i as nat),
            ));
        }
        i += 1;
    }
}

/// Seat names for spawning `fleet_n` fleet and `crew_n` crew workers.
pub fn seats_for_spawn(fleet_n: usize, crew_n: usize) -> (r: Vec<String>)
    ensures
        crate::text::string_views(r@) == spawn_seats(fleet_n as nat, crew_n as nat),
{
    let mut seats: Vec<String> = Vec::new();
    proof {
        assert(crate::text::string_views(seats@) =~= Seq::<Seq<char>>::empty());
    }
    let f = if fleet_n < 16 {
        fleet_n
    } else {
        16
    };
    let c = if crew_n < 8 {
        crew_n
    } else {
        8
    };
    push_numbered(&mut seats, "Fleet-", f);
    push_numbered(&mut seats, "Crew-", c);
    proof {
        assert(Seq::<Seq<char>>::empty() + numbered("Fleet-"@, f as nat) =~= numbered("Fleet-"@, f as nat));
    }
    seats
}

/// The count in `s`, or `default` when `s` is not an unsigned decimal.
pub fn parse_count(s: &str, default: usize) -> (r: usize)
    ensures
        r == (match parse_usize(s@) {
            Some(n) => n,
            None => default,
        }),
{
    match parse_usize_exec(s) {
        Some(n) => n,
        None => default,
    }
}

/// Options for bringing a fleet up.
#[derive(Debug, Clone)]
pub struct FleetUpOpts {
    pub seats: Vec<String>,
    pub budget_minutes: u64,
    pub sleep_secs: u64,
    pub quiet: bool,
    pub provider: Option<String>,
    pub model: Option<String>,
    pub approve: bool,
    pub fail_fast: bool,
}

/// Fleet options from the cockpit: an 8-hour budget, 5 s between polls,
/// not quiet, tool calls approved, no fail-fast.
pub fn fleet_up_opts(seats: Vec<String>, provider: Option<String>, model: Option<String>) -> (r:
    FleetUpOpts)
    ensures
        r.seats@ == seats@,
        r.budget_minutes == 480,
        r.sleep_secs == 5,
        !r.quiet,
        r.provider == provider,
        r.model == model,
        r.approve,
        !r.fail_fast,
{
    FleetUpOpts {
        seats,
        budget_minutes: 480,
        sleep_secs: 5,
        quiet: false,
        provider,
        model,
        approve: true,
        fail_fast: false,
    }
}

/// Move focus `dir` steps among the cockpit zones visible for the panel.
#[verifier::rlimit(50)]
pub fn cycle_city_focus(panel: &CityPanelState, current: FocusZone, dir: i32) -> (r: FocusZone)
    requires
        i32::MIN <= index_or_zero(city_zones(panel.selected_seat is Some), current) + dir <= i32::MAX,
    ensures
        r == cycled(current, city_zones(panel.selected_seat is Some), dir as int),
{
    let has = panel.has_selection();
    let visible = visible_city_zones(has);
    let sl = visible.as_slice();
    assert(sl@ == city_zones(has));
    assert(sl@.len() <= 5);
    cycle_focus(current, sl, dir)
}

/// A cockpit zone stays; any other zone becomes the wish composer.
pub fn ensure_city_focus(current: FocusZone) -> (r: FocusZone)
    ensures
        r == (if is_city_zone(current) {
            current
        } else {
            FocusZone::CityWish
        }),
{
    if current.is_city() {
        current
    } else {
        FocusZone::CityWish
    }
}

/// Follow logs go to the panel when the city shows the attached seat.
pub fn should_divert_logs(show_city: bool, selected: Option<&str>, attach_seat: Option<&str>) -> (r:
    bool)
    ensures
        r == (show_city && selected is Some && attach_seat is Some && selected.unwrap()@
            == attach_seat.unwrap()@),
{
    match (selected, attach_seat) {
        (Some(a), Some(b)) => show_city && crate::text::str_eq(a, b),
        _ => false,
    }
}

} // verus!
