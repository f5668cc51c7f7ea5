//! What the tools decide before they change the archive, and what they call the files that
//! they write.

use crate::model::Model;
use crate::site::StationNumber;
use crate::text::{push_two_digits, to_uppercase, uppercase_of, zero_padded};
use crate::time::{year_text, CivilTime, Timestamp};
use vstd::prelude::*;
use vstd::string::*;

verus! {

/// The station that a site identifier stands for under a model, with the latest
/// initialization time at which a file was added for them.
#[derive(Clone, Copy, Debug, PartialEq, Eq, Structural)]
pub struct IdBinding {
    pub station: StationNumber,
    pub most_recent_init_time: Timestamp,
}

/// What adding a file means for the binding of its site identifier.
#[derive(Clone, Copy, Debug, PartialEq, Eq, Structural)]
pub enum BindingOutcome {
    /// The identifier is bound to the station of the file, as it was or for the first time.
    Bound,
    /// The identifier moved from station `old` to station `new`, the station of the file.
    Rebound { old: StationNumber, new: StationNumber },
    /// The identifier is bound to station `old`, and the file of station `new` is too old to
    /// show that it has moved: the file is rejected, and the binding stays.
    IdMovedStation { old: StationNumber, new: StationNumber },
}

/// The binding after a file was offered, and what it meant for the binding.
#[derive(Clone, Copy, Debug, PartialEq, Eq, Structural)]
pub struct Rebinding {
    pub binding: IdBinding,
    pub outcome: BindingOutcome,
}

/// The later of two instants.
pub open spec fn later(a: Timestamp, b: Timestamp) -> Timestamp {
    if a.secs >= b.secs {
        a
    } else {
        b
    }
}

/// What adding a file of `station`, initialized at `init_time`, means for the binding of its
/// site identifier. An identifier that is not bound yet is bound to the station. One that is
/// bound to the station stays so, with the later of the two times. One that is bound to
/// another station moves only for a file that is younger than every file before it; an older
/// file is rejected, and the binding stays as it is.
pub open spec fn rebound(
    existing: Option<IdBinding>,
    station: StationNumber,
    init_time: Timestamp,
) -> Rebinding {
    match existing {
        None => Rebinding {
            binding: IdBinding { station, most_recent_init_time: init_time },
            outcome: BindingOutcome::Bound,
        },
        Some(bound) => if bound.station == station {
            Rebinding {
                binding: IdBinding {
                    station,
                    most_recent_init_time: later(bound.most_recent_init_time, init_time),
                },
                outcome: BindingOutcome::Bound,
            }
        } else if init_time.secs > bound.most_recent_init_time.secs {
            Rebinding {
                binding: IdBinding { station, most_recent_init_time: init_time },
                outcome: BindingOutcome::Rebound { old: bound.station, new: station },
            }
        } else {
            Rebinding {
                binding: bound,
                outcome: BindingOutcome::IdMovedStation { old: bound.station, new: station },
            }
        },
    }
}

/// What adding a file of `station`, initialized at `init_time`, means for the binding of its
/// site identifier: see `rebound`. A binding never goes back in time, and an identifier that
/// moves to another station does so at a later time than that of its binding before.
pub fn rebind(
    existing: Option<IdBinding>,
    station: StationNumber,
    init_time: Timestamp,
) -> (next: Rebinding)
    ensures
        next == rebound(existing, station, init_time),
        existing matches Some(bound) ==> next.binding.most_recent_init_time.secs
            >= bound.most_recent_init_time.secs,
        existing matches Some(bound) ==> (next.outcome is Rebound
            ==> next.binding.most_recent_init_time.secs > bound.most_recent_init_time.secs),
        next.outcome is IdMovedStation ==> Some(next.binding) == existing,
        !(next.outcome is IdMovedStation) ==> next.binding.station == station,
{
    match existing {
        None => Rebinding {
            binding: IdBinding { station, most_recent_init_time: init_time },
            outcome: BindingOutcome::Bound,
        },
        Some(bound) => {
            if bound.station == station {
                let most_recent_init_time = if bound.most_recent_init_time.secs
                    >= init_time.secs {
                    bound.most_recent_init_time
                } else {
                    init_time
                };
                Rebinding {
                    binding: IdBinding { station, most_recent_init_time },
                    outcome: BindingOutcome::Bound,
                }
            } else if init_time.secs > bound.most_recent_init_time.secs {
                Rebinding {
                    binding: IdBinding { station, most_recent_init_time: init_time },
                    outcome: BindingOutcome::Rebound { old: bound.station, new: station },
                }
            } else {
                Rebinding {
                    binding: bound,
                    outcome: BindingOutcome::IdMovedStation { old: bound.station, new: station },
                }
            }
        },
    }
}

/// Adding a file twice binds as adding it once: the binding after the second time is the binding
/// after the first.
pub proof fn lemma_rebound_twice(
    existing: Option<IdBinding>,
    station: StationNumber,
    init_time: Timestamp,
)
    ensures
        rebound(Some(rebound(existing, station, init_time).binding), station, init_time).binding
            == rebound(existing, station, init_time).binding,
{
}

/// What is done when the user asks for a new archive.
#[derive(Clone, Copy, Debug, PartialEq, Eq, Structural)]
pub enum CreatePlan {
    /// Nothing is in the way: create the archive.
    Create,
    /// Remove the archive that is there, then create the new one.
    Overwrite,
    /// An archive is there, and the user did not ask to overwrite it: refuse.
    Refuse,
}

/// What is done when the user asks for a new archive: an archive that is there already is
/// overwritten only where the user forces it.
pub fn create(already_exists: bool, force: bool) -> (plan: CreatePlan)
    ensures
        plan == (if !already_exists {
            CreatePlan::Create
        } else if force {
            CreatePlan::Overwrite
        } else {
            CreatePlan::Refuse
        }),
{
    if !already_exists {
        CreatePlan::Create
    } else if force {
        CreatePlan::Overwrite
    } else {
        CreatePlan::Refuse
    }
}

/// What is done when the user asks to mend the archive.
#[derive(Clone, Copy, Debug, PartialEq, Eq, Structural)]
pub enum FixPlan {
    /// There is no directory at the root of the archive: give up.
    InvalidRoot,
    /// There is no directory of data under the root: the archive is empty; give up.
    InvalidDataDirectory,
    /// The index cannot be opened: make a new one, then clean.
    CreateIndexAndClean,
    /// Clean: drop from the index the files that are gone, and from the data the files that
    /// the index does not know.
    Clean,
}

/// What is done when the user asks to mend the archive. The root is looked at first, then the
/// directory of data, then the index.
pub fn fix(root_is_dir: bool, data_is_dir: bool, index_connects: bool) -> (plan: FixPlan)
    ensures
        plan == (if !root_is_dir {
            FixPlan::InvalidRoot
        } else if !data_is_dir {
            FixPlan::InvalidDataDirectory
        } else if !index_connects {
            FixPlan::CreateIndexAndClean
        } else {
            FixPlan::Clean
        }),
{
    if !root_is_dir {
        FixPlan::InvalidRoot
    } else if !data_is_dir {
        FixPlan::InvalidDataDirectory
    } else if !index_connects {
        FixPlan::CreateIndexAndClean
    } else {
        FixPlan::Clean
    }
}

/// Which runs an export is to write.
#[derive(Debug)]
pub enum ExportSelection {
    /// The most recent run in the archive.
    MostRecent,
    /// The runs at these times.
    Runs(Vec<Timestamp>),
}

/// Whether `selection` is what the user asks to export. With no time, it is the most recent
/// run. With a start, it is every run of the model from the start to the end, and the run at
/// the start alone where no end is given.
pub open spec fn exported(
    model: Model,
    start: Option<Timestamp>,
    end: Option<Timestamp>,
    selection: ExportSelection,
) -> bool {
    match start {
        None => selection is MostRecent,
        Some(start) => selection matches ExportSelection::Runs(runs) && runs@ == model.run_times(
            start,
            match end {
                Some(end) => end,
                None => start,
            },
        ),
    }
}

/// Which runs an export is to write. `None` where an end is given without a start, or where
/// the calendar cannot name one of the two.
pub fn export(
    model: Model,
    start: Option<Timestamp>,
    end: Option<Timestamp>,
) -> (selection: Option<ExportSelection>)
    ensures
        selection.is_some() <==> (match start {
            None => end.is_none(),
            Some(start) => start.representable() && (end matches Some(end)
                ==> end.representable()),
        }),
        selection matches Some(s) ==> exported(model, start, end, s),
{
    match start {
        None => match end {
            None => Some(ExportSelection::MostRecent),
            Some(_) => None,
        },
        Some(start) => {
            let end = match end {
                Some(end) => end,
                None => start,
            };
            if start.is_representable() && end.is_representable() {
                Some(ExportSelection::Runs(model.all_runs(start, end)))
            } else {
                None
            }
        },
    }
}

/// The date and the hour of a run as the name of a file has them: `YYYYMMDDHH`, and a `Z`.
pub open spec fn run_stamp(init_time: CivilTime) -> Seq<char> {
    year_text(init_time.year as int) + zero_padded(init_time.month as nat) + zero_padded(
        init_time.day as nat,
    ) + zero_padded(init_time.hour as nat) + "Z"@
}

/// The name of the file that an export writes: `<run>_<model>_<SITE>.buf` for the run at
/// `init_time`, and `<SITE>_<model>.buf` for the most recent run. `site` is the identifier of
/// the site as it is to stand in the name.
pub open spec fn export_name(
    site: Seq<char>,
    model: Model,
    init_time: Option<CivilTime>,
) -> Seq<char> {
    match init_time {
        Some(init_time) => run_stamp(init_time) + "_"@ + model.name() + "_"@ + site + ".buf"@,
        None => site + "_"@ + model.name() + ".buf"@,
    }
}

/// The name of the file that an export writes. The identifier of the site stands in it in
/// upper case.
pub fn save_file(site_id: &str, model: Model, init_time: Option<CivilTime>) -> (name: String)
    ensures
        name@ == export_name(uppercase_of(site_id@), model, init_time),
{
    let site = to_uppercase(site_id);
    export_file_name(site.as_str(), model, init_time)
}

/// The name of the file that an export writes, for a site whose identifier is to stand in it
/// as it is.
pub fn export_file_name(site: &str, model: Model, init_time: Option<CivilTime>) -> (name: String)
    ensures
        name@ == export_name(site@, model, init_time),
{
    let mut name = String::new();
    match init_time {
        Some(init_time) => {
            push_run_stamp(&mut name, &init_time);
            name.append("_");
            name.append(model.as_static_str());
            name.append("_");
            name.append(site);
            name.append(".buf");
        },
        None => {
            name.append(site);
            name.append("_");
            name.append(model.as_static_str());
            name.append(".buf");
        },
    }
    assert(name@ =~= export_name(site@, model, init_time));
    name
}

/// Appends the date and the hour of a run to `out`, as the name of a file has them.
fn push_run_stamp(out: &mut String, init_time: &CivilTime)
    ensures
        final(out)@ == old(out)@ + run_stamp(*init_time),
{
    let year = init_time.year_to_text();
    out.append(year.as_str());
    push_two_digits(out, init_time.month);
    push_two_digits(out, init_time.day);
    push_two_digits(out, init_time.hour);
    out.append("Z");
    assert(out@ =~= old(out)@ + run_stamp(*init_time));
}

/// Whether the numbers ascend, none twice.
pub open spec fn strictly_ascending(stations: Seq<StationNumber>) -> bool {
    forall|i: int, j: int|
        0 <= i < j < stations.len() ==> (#[trigger] stations[i]).num < (#[trigger] stations[j]).num
}

/// The stations of a list, each once, in the order of their numbers.
pub fn sorted_stations(stations: &Vec<StationNumber>) -> (sorted: Vec<StationNumber>)
    ensures
        strictly_ascending(sorted@),
        forall|station: StationNumber|
            #![trigger sorted@.contains(station)]
            #![trigger stations@.contains(station)]
            sorted@.contains(station) <==> stations@.contains(station),
{
    let mut sorted: Vec<StationNumber> = Vec::new();
    let mut i: usize = 0;
    while i < stations.len()
        invariant
            i <= stations.len(),
            strictly_ascending(sorted@),
            forall|station: StationNumber|
                #![trigger sorted@.contains(station)]
                sorted@.contains(station) <==> stations@.take(i as int).contains(station),
        decreases stations.len() - i,
    {
        let station = stations[i];
        let ghost earlier = sorted@;
        let mut at: usize = 0;
        while at < sorted.len() && sorted[at].num < station.num
            invariant
                at <= sorted.len(),
                sorted@ == earlier,
                forall|j: int| 0 <= j < at ==> (#[trigger] sorted@[j]).num < station.num,
            decreases sorted.len() - at,
        {
            at = at + 1;
        }
        let present = at < sorted.len() && sorted[at].num == station.num;
        if !present {
            sorted.insert(at, station);
            assert(sorted@ == earlier.insert(at as int, station));
            assert(strictly_ascending(sorted@)) by {
                assert forall|a: int, b: int| 0 <= a < b < sorted@.len() implies (
                #[trigger] sorted@[a]).num < (#[trigger] sorted@[b]).num by {
                    if a < at && b > at {
                        assert(earlier[a].num < station.num);
                        assert(earlier[b - 1].num > station.num) by {
                            assert(earlier[at as int].num <= earlier[b - 1].num);
                        }
                    } else if b == at {
                        assert(earlier[a].num < station.num);
                    } else if a == at {
                        assert(earlier[at as int].num <= earlier[b - 1].num);
                    } else if a > at {
                        assert(earlier[a - 1].num < earlier[b - 1].num);
                    }
                }
            }
        }
        proof {
            let before = stations@.take(i as int);
            let now = stations@.take(i + 1);
            assert(now =~= before.push(station));
            assert forall|other: StationNumber|
                #![trigger sorted@.contains(other)]
                sorted@.contains(other) <==> now.contains(other) by {
                if sorted@.contains(other) {
                    let k = choose|k: int| 0 <= k < sorted@.len() && sorted@[k] == other;
                    if present {
                        assert(earlier.contains(other));
                        let b = choose|b: int| 0 <= b < before.len() && before[b] == other;
                        assert(now[b] == other);
                    } else if k == at {
                        assert(now[i as int] == other);
                    } else {
                        if k < at {
                            assert(earlier[k] == other);
                        } else {
                            assert(earlier[k - 1] == other);
                        }
                        assert(earlier.contains(other));
                        let b = choose|b: int| 0 <= b < before.len() && before[b] == other;
                        assert(now[b] == other);
                    }
                }
                if now.contains(other) {
                    let b = choose|b: int| 0 <= b < now.len() && now[b] == other;
                    if b == i {
                        if present {
                            assert(sorted@[at as int] == other);
                        } else {
                            assert(sorted@[at as int] == other);
                        }
                    } else {
                        assert(before[b] == other);
                        assert(earlier.contains(other));
                        let k = choose|k: int| 0 <= k < earlier.len() && earlier[k] == other;
                        if present {
                            assert(sorted@[k] == other);
                        } else if k < at {
                            assert(sorted@[k] == other);
                        } else {
                            assert(sorted@[k + 1] == other);
                        }
                    }
                }
            }
        }
        i = i + 1;
    }
    assert(stations@.take(i as int) =~= stations@);
    sorted
}

} // verus!
