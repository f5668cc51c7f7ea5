//! The fire weather summary of one forecast: how its hours fall into days, and what its file is
//! called.

use crate::model::Model;
use crate::text::{push_two_digits, zero_padded};
use crate::time::{civil_of, year_text, CivilTime, Timestamp};
use vstd::prelude::*;
use vstd::string::*;

verus! {

/// The instant twelve hours before `valid_time`.
pub open spec fn half_day_before(valid_time: Timestamp) -> Timestamp {
    Timestamp { secs: (valid_time.secs - 43200) as i64 }
}

/// The day that a valid time counts for in the daily statistics. The days of the statistics
/// run from 12Z to 12Z: the day is the date, in UTC, of the instant twelve hours before the
/// valid time. `None` where the calendar cannot name that instant.
pub fn stats_day(valid_time: Timestamp) -> (day: Option<CivilTime>)
    ensures
        day.is_some() <==> valid_time.secs - 43200 >= i64::MIN && half_day_before(
            valid_time,
        ).representable(),
        day matches Some(d) ==> d == civil_of(half_day_before(valid_time).secs),
{
    match valid_time.checked_add_hours(-12) {
        Some(earlier) => earlier.civil(),
        None => None,
    }
}

/// The name of the file that the statistics of a forecast are saved to:
/// `<site>_<model>_<YYYYMMDDHH>.csv`, with the date and the hour of the first valid time.
pub open spec fn stats_name(site_id: Seq<char>, model: Model, first: CivilTime) -> Seq<char> {
    site_id + "_"@ + model.name() + "_"@ + year_text(first.year as int) + zero_padded(
        first.month as nat,
    ) + zero_padded(first.day as nat) + zero_padded(first.hour as nat) + ".csv"@
}

/// The name of the file that the statistics of a forecast are saved to.
pub fn stats_file_name(site_id: &str, model: Model, first: &CivilTime) -> (name: String)
    ensures
        name@ == stats_name(site_id@, model, *first),
{
    let mut name = site_id.to_owned();
    name.append("_");
    name.append(model.as_static_str());
    name.append("_");
    let year = first.year_to_text();
    name.append(year.as_str());
    push_two_digits(&mut name, first.month);
    push_two_digits(&mut name, first.day);
    push_two_digits(&mut name, first.hour);
    name.append(".csv");
    assert(name@ =~= stats_name(site_id@, model, *first));
    name
}

} // verus!
