//! Time-zone lookup through `chrono-tz`.

use vstd::prelude::*;

verus! {

/// An IANA time zone.
#[verifier::external_type_specification]
#[verifier::external_body]
pub struct ExTz(chrono_tz::Tz);

/// Whether `chrono-tz` knows the IANA time-zone name `name`.
pub uninterp spec fn is_known_timezone(name: Seq<char>) -> bool;

/// Looks up an IANA time-zone name (`<chrono_tz::Tz as FromStr>::from_str`).
/// The lookup succeeds exactly for the names `chrono-tz` knows; which names
/// those are is the crate's table and is left to the name
/// `is_known_timezone`.
#[verifier::external_body]
pub(crate) fn parse_timezone(name: &str) -> (r: Option<chrono_tz::Tz>)
    ensures
        r is Some <==> is_known_timezone(name@),
{
    name.parse::<chrono_tz::Tz>().ok()
}

/// Whether `name` is a known IANA time-zone name.
pub fn timezone_is_known(name: &str) -> (b: bool)
    ensures
        b == is_known_timezone(name@),
{
    parse_timezone(name).is_some()
}

/// The zone a time is read in: the configured zone when it is a known
/// IANA name, otherwise UTC.
pub open spec fn effective_zone(tz: Option<Seq<char>>) -> Seq<char> {
    match tz {
        Some(name) => if is_known_timezone(name) {
            name
        } else {
            "UTC"@
        },
        None => "UTC"@,
    }
}

/// The characters of an optional name.
pub open spec fn opt_str(name: Option<&str>) -> Option<Seq<char>> {
    match name {
        Some(n) => Some(n@),
        None => None,
    }
}

/// The name of the zone to read times in: `tz` when it is a known IANA
/// name, otherwise `UTC`.
pub fn effective_zone_name(tz: Option<&str>) -> (r: String)
    ensures
        r@ == effective_zone(opt_str(tz)),
{
    match tz {
        Some(name) => if timezone_is_known(name) {
            name.to_owned()
        } else {
            "UTC".to_owned()
        },
        None => "UTC".to_owned(),
    }
}

/// The current time as whole Unix seconds (`Utc::now().timestamp()`). It is
/// the system clock, so nothing is stated of it.
#[verifier::external_body]
pub(crate) fn unix_now() -> (t: i64) {
    chrono::Utc::now().timestamp()
}

/// The hour of the day at Unix second `t` in the zone named `zone`.
pub uninterp spec fn zone_hour(zone: Seq<char>, t: i64) -> Option<u32>;

/// The hour (`Timelike::hour`, 0 to 23) of Unix second `t`
/// (`DateTime::from_timestamp`) seen in the zone named `zone` (parsed with
/// `chrono-tz`, converted with `with_timezone`); `None` when the zone is
/// unknown or `t` lies outside chrono's range. Which hour that is, is the
/// zone's rules, left to the name `zone_hour`.
#[verifier::external_body]
pub(crate) fn zone_hour_at(zone: &str, t: i64) -> (h: Option<u32>)
    ensures
        h == zone_hour(zone@, t),
        h matches Some(x) ==> x < 24,
{
    let tz = zone.parse::<chrono_tz::Tz>().ok()?;
    let dt = chrono::DateTime::from_timestamp(t, 0)?;
    Some(chrono::Timelike::hour(&dt.with_timezone(&tz)))
}

} // verus!
