//! Finding the station that a site identifier stands for.

use crate::site::StationNumber;
use vstd::prelude::*;

verus! {

/// An error that is a message.
#[derive(Clone, Copy, Debug)]
pub struct StrErr {
    pub msg: &'static str,
}

impl StrErr {
    /// The message of the error.
    pub fn to_string(&self) -> (text: String)
        ensures
            text@ == self.msg@,
    {
        self.msg.to_owned()
    }
}

/// Whether a station was found, and has a number.
pub open spec fn numbered(entry: Option<StationNumber>) -> bool {
    match entry {
        Some(station) => station.num != 0,
        None => false,
    }
}

/// Whether a station was found at `later` that is not the one found at `earlier`.
pub open spec fn differ(earlier: Option<StationNumber>, later: Option<StationNumber>) -> bool {
    match (earlier, later) {
        (Some(first), Some(second)) => first != second,
        _ => false,
    }
}

/// Whether two of the stations found differ: a station with a number is followed by another
/// one.
pub open spec fn ambiguous(found: Seq<Option<StationNumber>>) -> bool {
    exists|i: int, j: int|
        0 <= i < j < found.len() && numbered(#[trigger] found[i]) && differ(
            found[i],
            #[trigger] found[j],
        )
}

/// Whether `station` is the station found: it has a number, and it is one of those found.
pub open spec fn is_found(found: Seq<Option<StationNumber>>, station: StationNumber) -> bool {
    station.num != 0 && found.contains(Some(station))
}

/// The station that a site identifier stands for. `found` holds, for each model in turn, the
/// station that the archive has for the identifier under that model, if it has one. Where all
/// that were found are one station, it is that station. It is an error where none was found,
/// and where two differ: the identifier is then ambiguous.
pub fn site_id_to_station_num(
    found: &Vec<Option<StationNumber>>,
) -> (station: Result<StationNumber, StrErr>)
    ensures
        match station {
            Ok(station) => !ambiguous(found@) && is_found(found@, station),
            Err(err) => if ambiguous(found@) {
                err.msg@ == "ambigous id, multiple matches found"@
            } else {
                err.msg@ == "no matching station found for id"@ && forall|station: StationNumber|
                    !is_found(found@, station)
            },
        },
{
    let mut value: u32 = 0;
    let mut i: usize = 0;
    while i < found.len()
        invariant
            i <= found.len(),
            forall|a: int, b: int|
                0 <= a < b < i ==> !(numbered(#[trigger] found@[a]) && differ(
                    found@[a],
                    #[trigger] found@[b],
                )),
            value == 0 ==> forall|a: int| 0 <= a < i ==> !numbered(#[trigger] found@[a]),
            value != 0 ==> exists|a: int|
                0 <= a < i && #[trigger] found@[a] == Some(StationNumber { num: value }),
            value != 0 ==> forall|a: int|
                0 <= a < i && numbered(#[trigger] found@[a]) ==> found@[a] == Some(
                    StationNumber { num: value },
                ),
            value != 0 ==> forall|a: int, b: int|
                0 <= a < b < i && numbered(#[trigger] found@[a]) ==> !differ(
                    found@[a],
                    #[trigger] found@[b],
                ),
        decreases found.len() - i,
    {
        match found[i] {
            Some(station) => {
                if value == 0 || value == station.num {
                    value = station.num;
                } else {
                    let ghost first = choose|a: int|
                        0 <= a < i && #[trigger] found@[a] == Some(StationNumber { num: value });
                    assert(numbered(found@[first]) && differ(found@[first], found@[i as int]));
                    return Err(StrErr { msg: "ambigous id, multiple matches found" });
                }
            },
            None => {},
        }
        i = i + 1;
    }
    if value == 0 {
        assert forall|station: StationNumber| !is_found(found@, station) by {
            if is_found(found@, station) {
                let a = choose|a: int| 0 <= a < found@.len() && found@[a] == Some(station);
                assert(numbered(found@[a]));
            }
        }
        return Err(StrErr { msg: "no matching station found for id" });
    }
    let ghost at = choose|a: int|
        0 <= a < i && #[trigger] found@[a] == Some(StationNumber { num: value });
    assert(found@.contains(Some(StationNumber { num: value })));
    Ok(StationNumber { num: value })
}

} // verus!
