use vstd::prelude::*;

verus! {

/// Whether `zone` names a known IANA time zone, as the `chrono-tz` table
/// decides it.
pub uninterp spec fn zone_ok(zone: Seq<char>) -> bool;

/// Whether `expr` is a well-formed cron expression, as `cron`'s parser
/// decides it.
pub uninterp spec fn cron_ok(expr: Seq<char>) -> bool;

/// Whether the instant `t` (UTC epoch seconds), viewed in `zone`, matches
/// the cron expression `expr`.  Meaningful only when `cron_ok(expr)` and
/// `zone_ok(zone)` hold.
pub uninterp spec fn cron_match(expr: Seq<char>, zone: Seq<char>, t: int) -> bool;

/// The fire time of `expr` in `zone` that the schedule's backward
/// iterator yields from the instant `t`, or None when none precedes it.
/// Meaningful only when `cron_ok(expr)` and `zone_ok(zone)` hold.
pub uninterp spec fn prev_fire_before(expr: Seq<char>, zone: Seq<char>, t: int) -> Option<int>;

/// Instants this module accepts: comfortably inside the range for which
/// chrono's epoch conversion is defined (about ±262,000 years).
pub open spec fn ts_in_range(t: int) -> bool {
    -8000000000000 <= t <= 8000000000000
}

/// Relies on `str::parse::<chrono_tz::Tz>`: succeeds exactly on the names
/// in the compiled-in IANA table.
#[verifier::external_body]
pub fn zone_is_valid(zone: &str) -> (r: bool)
    ensures
        r == zone_ok(zone@),
{
    zone.parse::<chrono_tz::Tz>().is_ok()
}

/// Relies on `cron::Schedule::includes` over a `chrono` instant converted
/// into a `chrono-tz` zone: whether `t` matches `expr` in `zone`.  None
/// exactly when the expression or the zone does not parse.
#[verifier::external_body]
pub fn cron_matches_at(expr: &str, zone: &str, t: i64) -> (r: Option<bool>)
    requires
        ts_in_range(t as int),
    ensures
        (r is Some) <==> (cron_ok(expr@) && zone_ok(zone@)),
        r is Some ==> r->0 == cron_match(expr@, zone@, t as int),
{
    let schedule = match <cron::Schedule as std::str::FromStr>::from_str(expr) {
        Ok(s) => s,
        Err(_) => return None,
    };
    let tz = match zone.parse::<chrono_tz::Tz>() {
        Ok(z) => z,
        Err(_) => return None,
    };
    let utc = chrono::DateTime::<chrono::Utc>::from_timestamp(t, 0).unwrap();
    Some(schedule.includes(utc.with_timezone(&tz)))
}

/// Relies on the double-ended iterator of `cron::Schedule::after`, whose
/// backward step yields the schedule's preceding fire times, latest first,
/// searching backwards from one second before the starting instant.  None
/// exactly when the expression or the zone does not parse; an inner None
/// when no fire time precedes `t`.
#[verifier::external_body]
pub fn cron_prev_before(expr: &str, zone: &str, t: i64) -> (r: Option<Option<i64>>)
    requires
        ts_in_range(t as int),
    ensures
        (r is Some) <==> (cron_ok(expr@) && zone_ok(zone@)),
        r is Some ==> ((r->0 is Some) <==> (prev_fire_before(expr@, zone@, t as int) is Some)),
        r is Some && r->0 is Some ==> r->0->0 == prev_fire_before(expr@, zone@, t as int)->0,
{
    let schedule = match <cron::Schedule as std::str::FromStr>::from_str(expr) {
        Ok(s) => s,
        Err(_) => return None,
    };
    let tz = match zone.parse::<chrono_tz::Tz>() {
        Ok(z) => z,
        Err(_) => return None,
    };
    let utc = chrono::DateTime::<chrono::Utc>::from_timestamp(t, 0).unwrap();
    let zoned = utc.with_timezone(&tz);
    Some(schedule.after(&zoned).rev().next().map(|dt| dt.timestamp()))
}

} // verus!
