//! What the archive holds of a station under a model, and what it lacks.

use crate::model::Model;
use crate::text::{push_signed_decimal, signed_decimal};
use crate::time::{div_toward_zero, quotient_toward_zero, Timestamp};
use vstd::string::*;
use vstd::prelude::*;

verus! {

/// Whether `time` is one of `times`.
pub fn has_time(times: &Vec<Timestamp>, time: Timestamp) -> (yes: bool)
    ensures
        yes == times@.contains(time),
{
    let mut i: usize = 0;
    while i < times.len()
        invariant
            i <= times.len(),
            forall|j: int| 0 <= j < i ==> times@[j] != time,
        decreases times.len() - i,
    {
        if times[i].secs == time.secs {
            return true;
        }
        i = i + 1;
    }
    false
}

/// The earliest of the first `n` of `times`, which are not none.
pub open spec fn earliest(times: Seq<Timestamp>, n: int) -> Timestamp
    decreases n,
{
    if n <= 1 {
        times[0]
    } else {
        let before = earliest(times, n - 1);
        if times[n - 1].secs < before.secs {
            times[n - 1]
        } else {
            before
        }
    }
}

/// The latest of the first `n` of `times`, which are not none.
pub open spec fn latest(times: Seq<Timestamp>, n: int) -> Timestamp
    decreases n,
{
    if n <= 1 {
        times[0]
    } else {
        let before = latest(times, n - 1);
        if times[n - 1].secs > before.secs {
            times[n - 1]
        } else {
            before
        }
    }
}

/// The earliest and the latest of `times`, or `None` where there are none.
pub fn first_and_last(times: &Vec<Timestamp>) -> (ends: Option<(Timestamp, Timestamp)>)
    ensures
        times@.len() == 0 ==> ends.is_none(),
        times@.len() > 0 ==> ends == Some(
            (earliest(times@, times@.len() as int), latest(times@, times@.len() as int)),
        ),
{
    if times.len() == 0 {
        return None;
    }
    let mut first = times[0];
    let mut last = times[0];
    let mut i: usize = 1;
    while i < times.len()
        invariant
            1 <= i <= times.len(),
            first == earliest(times@, i as int),
            last == latest(times@, i as int),
        decreases times.len() - i,
    {
        if times[i].secs < first.secs {
            first = times[i];
        }
        if times[i].secs > last.secs {
            last = times[i];
        }
        i = i + 1;
    }
    Some((first, last))
}

/// The earliest of `times` is one of them, and none of them is earlier.
pub proof fn lemma_earliest_is_least(times: Seq<Timestamp>, n: int)
    requires
        1 <= n <= times.len(),
    ensures
        exists|i: int| 0 <= i < n && times[i] == earliest(times, n),
        forall|i: int| 0 <= i < n ==> earliest(times, n).secs <= (#[trigger] times[i]).secs,
    decreases n,
{
    if n > 1 {
        lemma_earliest_is_least(times, n - 1);
        let i0 = choose|i: int| 0 <= i < n - 1 && times[i] == earliest(times, n - 1);
        if times[n - 1].secs < earliest(times, n - 1).secs {
            assert(times[n - 1] == earliest(times, n));
        } else {
            assert(times[i0] == earliest(times, n));
        }
    } else {
        assert(times[0] == earliest(times, n));
    }
}

/// The run times that are expected from `first` on, one every `step` seconds, among the first
/// `n` of them, and that are not in `present`; in ascending order.
pub open spec fn gaps(present: Seq<Timestamp>, first: int, step: int, n: int) -> Seq<Timestamp>
    decreases n,
{
    if n <= 0 {
        Seq::empty()
    } else {
        let earlier = gaps(present, first, step, n - 1);
        let expected = Timestamp { secs: (first + (n - 1) * step) as i64 };
        if present.contains(expected) {
            earlier
        } else {
            earlier.push(expected)
        }
    }
}

/// The number of run times from `first` to `bound`, both included, one every `step` seconds.
pub open spec fn expected_runs(first: int, step: int, bound: int) -> int {
    if bound < first {
        0
    } else {
        (bound - first) / step + 1
    }
}

/// What `missing_inventory` returns.
pub open spec fn missing_runs(
    present: Seq<Timestamp>,
    model: Model,
    upper_bound: Option<Timestamp>,
) -> Seq<Timestamp> {
    if present.len() == 0 {
        Seq::empty()
    } else {
        let first = earliest(present, present.len() as int).secs as int;
        let bound = match upper_bound {
            Some(bound) => bound.secs as int,
            None => latest(present, present.len() as int).secs as int,
        };
        gaps(
            present,
            first,
            model.step_seconds(),
            expected_runs(first, model.step_seconds(), bound),
        )
    }
}

/// The runs that are missing from an inventory: the initialization times that are expected
/// from the earliest one present up to `upper_bound` (up to the latest one present, where no
/// bound is given), one every cadence of the model, and that are not present; in ascending
/// order. Nothing is missing from an empty inventory.
pub fn missing_inventory(
    present: &Vec<Timestamp>,
    model: Model,
    upper_bound: Option<Timestamp>,
) -> (missing: Vec<Timestamp>)
    ensures
        missing@ == missing_runs(present@, model, upper_bound),
{
    let mut missing: Vec<Timestamp> = Vec::new();
    let (first, last) = match first_and_last(present) {
        Some(ends) => ends,
        None => {
            return missing;
        },
    };
    let bound = match upper_bound {
        Some(bound) => bound,
        None => last,
    };
    let step: i64 = model.hours_between_runs() * 3600;
    let ghost total = expected_runs(first.secs as int, step as int, bound.secs as int);
    if bound.secs < first.secs {
        return missing;
    }
    let mut current: i64 = first.secs;
    let mut n: u64 = 0;
    loop
        invariant
            first.secs <= current <= bound.secs,
            step == model.step_seconds(),
            0 < step <= 21600,
            total == expected_runs(first.secs as int, step as int, bound.secs as int),
            missing_runs(present@, model, upper_bound) == gaps(
                present@,
                first.secs as int,
                step as int,
                total,
            ),
            0 <= n < total,
            current == first.secs + n * step,
            missing@ == gaps(present@, first.secs as int, step as int, n as int),
        decreases bound.secs - current,
    {
        proof {
            assert((n + 1) * step == n * step + step) by (nonlinear_arith);
        }
        if !has_time(present, Timestamp { secs: current }) {
            missing.push(Timestamp { secs: current });
        }
        assert(missing@ == gaps(present@, first.secs as int, step as int, n + 1));
        if (bound.secs as i128) - (current as i128) < step as i128 {
            proof {
                let d = bound.secs - first.secs;
                assert(d / (step as int) == n as int) by (nonlinear_arith)
                    requires
                        d - step < n * step,
                        n * step <= d,
                        step > 0,
                        n >= 0,
                ;
            }
            return missing;
        }
        proof {
            let d = bound.secs - first.secs;
            assert(n + 1 <= d / (step as int)) by (nonlinear_arith)
                requires
                    (n + 1) * step <= d,
                    step > 0,
            ;
        }
        current = current + step;
        n = n + 1;
    }
}

/// Whether `time` is one of the first `n` run times that are expected from `first` on, one
/// every `step` seconds.
pub open spec fn is_expected(first: int, step: int, n: int, time: Timestamp) -> bool {
    exists|k: int| 0 <= k < n && time.secs == #[trigger] run_at(first, step, k)
}

/// The run time `k` steps of `step` seconds after `first`.
pub open spec fn run_at(first: int, step: int, k: int) -> int {
    first + k * step
}

/// What is in `gaps`: the expected run times that are not present, each once, in ascending
/// order.
pub proof fn lemma_gaps(present: Seq<Timestamp>, first: int, step: int, n: int)
    requires
        step > 0,
        n >= 0,
        i64::MIN <= first,
        first + n * step <= i64::MAX + step,
    ensures
        forall|time: Timestamp|
            #![trigger gaps(present, first, step, n).contains(time)]
            #![trigger is_expected(first, step, n, time)]
            gaps(present, first, step, n).contains(time) <==> !present.contains(time)
                && is_expected(first, step, n, time),
        forall|i: int, j: int|
            0 <= i < j < gaps(present, first, step, n).len() ==> (#[trigger] gaps(
                present,
                first,
                step,
                n,
            )[i]).secs < (#[trigger] gaps(present, first, step, n)[j]).secs,
        forall|i: int|
            0 <= i < gaps(present, first, step, n).len() ==> (#[trigger] gaps(
                present,
                first,
                step,
                n,
            )[i]).secs < first + n * step,
    decreases n,
{
    let all = gaps(present, first, step, n);
    if n == 0 {
        assert forall|time: Timestamp| !is_expected(first, step, n, time) by {}
    } else {
        let earlier = gaps(present, first, step, n - 1);
        assert((n - 1) * step + step == n * step) by (nonlinear_arith);
        assert((n - 1) * step >= 0) by (nonlinear_arith)
            requires
                n >= 1,
                step > 0,
        ;
        lemma_gaps(present, first, step, n - 1);
        let expected = Timestamp { secs: (first + (n - 1) * step) as i64 };
        assert(expected.secs == first + (n - 1) * step);
        assert forall|time: Timestamp|
            #![trigger all.contains(time)]
            #![trigger is_expected(first, step, n, time)]
            all.contains(time) <==> !present.contains(time) && is_expected(
                first,
                step,
                n,
                time,
            ) by {
            if all.contains(time) {
                let i = choose|i: int| 0 <= i < all.len() && all[i] == time;
                if i < earlier.len() {
                    assert(earlier[i] == time);
                    assert(earlier.contains(time));
                    assert(is_expected(first, step, n - 1, time));
                    let k = choose|k: int|
                        0 <= k < n - 1 && time.secs == #[trigger] run_at(first, step, k);
                    assert(0 <= k < n && time.secs == run_at(first, step, k));
                } else {
                    assert(time == expected);
                    assert(0 <= n - 1 < n && time.secs == run_at(first, step, n - 1));
                }
            }
            if !present.contains(time) && is_expected(first, step, n, time) {
                let k = choose|k: int|
                    0 <= k < n && time.secs == #[trigger] run_at(first, step, k);
                if k == n - 1 {
                    assert(time == expected);
                    assert(all == earlier.push(expected));
                    assert(all[earlier.len() as int] == time);
                } else {
                    assert(0 <= k < n - 1 && time.secs == run_at(first, step, k));
                    assert(is_expected(first, step, n - 1, time));
                    assert(earlier.contains(time));
                    let i = choose|i: int| 0 <= i < earlier.len() && earlier[i] == time;
                    assert(all[i] == time);
                }
            }
        }
    }
}

/// Whether `time` is a run that is missing from the inventory `present`: it is not present,
/// it lies between the earliest time present and the bound (the latest time present, where no
/// bound is given), and a whole number of cadences after the earliest time present.
pub open spec fn is_missing_run(
    present: Seq<Timestamp>,
    model: Model,
    upper_bound: Option<Timestamp>,
    time: Timestamp,
) -> bool {
    let first = earliest(present, present.len() as int).secs as int;
    let bound = match upper_bound {
        Some(bound) => bound.secs as int,
        None => latest(present, present.len() as int).secs as int,
    };
    &&& !present.contains(time)
    &&& first <= time.secs <= bound
    &&& (time.secs - first) % model.step_seconds() == 0
}

/// Completeness of the missing inventory. For an inventory that is not empty, the missing
/// inventory holds exactly the gaps of the arithmetic progression that begins at the earliest
/// time present, steps by the cadence of the model and ends at the bound: every such run time
/// that is not present, no other instant, none twice, in ascending order.
pub proof fn lemma_missing_inventory_complete(
    present: Seq<Timestamp>,
    model: Model,
    upper_bound: Option<Timestamp>,
)
    requires
        present.len() > 0,
    ensures
        forall|time: Timestamp|
            #![trigger missing_runs(present, model, upper_bound).contains(time)]
            #![trigger is_missing_run(present, model, upper_bound, time)]
            missing_runs(present, model, upper_bound).contains(time) <==> is_missing_run(
                present,
                model,
                upper_bound,
                time,
            ),
        forall|i: int, j: int|
            0 <= i < j < missing_runs(present, model, upper_bound).len() ==> (
            #[trigger] missing_runs(present, model, upper_bound)[i]).secs < (
            #[trigger] missing_runs(present, model, upper_bound)[j]).secs,
{
    let first = earliest(present, present.len() as int).secs as int;
    let bound = match upper_bound {
        Some(bound) => bound.secs as int,
        None => latest(present, present.len() as int).secs as int,
    };
    let step = model.step_seconds();
    let n = expected_runs(first, step, bound);
    assert(step == 3600 || step == 21600);
    lemma_gaps(present, first, step, n);
    assert forall|time: Timestamp|
        #![trigger missing_runs(present, model, upper_bound).contains(time)]
        #![trigger is_missing_run(present, model, upper_bound, time)]
        missing_runs(present, model, upper_bound).contains(time) <==> is_missing_run(
            present,
            model,
            upper_bound,
            time,
        ) by {
        assert(gaps(present, first, step, n).contains(time) <==> !present.contains(time)
            && is_expected(first, step, n, time));
        if is_expected(first, step, n, time) {
            let k = choose|k: int| 0 <= k < n && time.secs == #[trigger] run_at(first, step, k);
            assert(first <= time.secs <= bound && (time.secs - first) % step == 0);
        }
        if first <= time.secs <= bound && (time.secs - first) % step == 0 {
            let k = (time.secs - first) / step;
            assert(0 <= k < n && time.secs == run_at(first, step, k));
            assert(is_expected(first, step, n, time));
        }
    }
}

/// A stretch of consecutive runs that are missing from an inventory.
#[derive(Clone, Copy, Debug, PartialEq, Eq, Structural)]
pub struct MissingRun {
    /// The first missing run of the stretch.
    pub start: Timestamp,
    /// The last missing run of the stretch.
    pub end: Timestamp,
    /// The number of runs from `start` to `end`.
    pub cycles: i64,
}

/// Whether the run at `next` is the one after the run at `prev`: the whole hours between
/// them, by the cadence, make one.
pub open spec fn follows(prev: Timestamp, next: Timestamp, cadence: int) -> bool {
    div_toward_zero(next.spec_hours_since(prev), cadence) == 1
}

/// The stretch from `start` to `end`, with the number of its runs.
pub open spec fn stretch(start: Timestamp, end: Timestamp, cadence: int) -> MissingRun {
    MissingRun {
        start,
        end,
        cycles: (div_toward_zero(end.spec_hours_since(start), cadence) + 1) as i64,
    }
}

/// The stretches that `missing` falls into: a stretch goes on as long as each run follows the
/// one before it, and a new one begins where it does not.
pub open spec fn stretches(missing: Seq<Timestamp>, cadence: int) -> Seq<MissingRun>
    decreases missing.len(),
{
    if missing.len() == 0 {
        Seq::empty()
    } else if missing.len() == 1 {
        seq![stretch(missing[0], missing[0], cadence)]
    } else {
        let earlier = stretches(missing.drop_last(), cadence);
        if follows(missing[missing.len() - 2], missing.last(), cadence) {
            earlier.drop_last().push(stretch(earlier.last().start, missing.last(), cadence))
        } else {
            earlier.push(stretch(missing.last(), missing.last(), cadence))
        }
    }
}

/// The stretch from `start` to `end`.
fn make_stretch(start: Timestamp, end: Timestamp, cadence: i64) -> (run: MissingRun)
    requires
        1 <= cadence <= 6,
    ensures
        run == stretch(start, end, cadence as int),
{
    let hours = end.hours_since(start);
    let whole = quotient_toward_zero(hours, cadence);
    assert(-5124095576030432 <= hours <= 5124095576030432);
    MissingRun { start, end, cycles: whole + 1 }
}

/// The stretches of consecutive runs that the missing runs of `model` fall into, in the order
/// of `missing`.
pub fn group_missing(missing: &Vec<Timestamp>, model: Model) -> (runs: Vec<MissingRun>)
    ensures
        runs@ == stretches(missing@, model.cadence_hours()),
{
    let cadence = model.hours_between_runs();
    let mut runs: Vec<MissingRun> = Vec::new();
    if missing.len() == 0 {
        return runs;
    }
    let mut start_run = missing[0];
    let mut last_round = missing[0];
    let mut i: usize = 1;
    assert(missing@.take(1) =~= seq![missing@[0]]);
    assert(runs@.push(stretch(start_run, last_round, cadence as int)) =~= stretches(
        missing@.take(1),
        cadence as int,
    ));
    while i < missing.len()
        invariant
            1 <= i <= missing.len(),
            cadence == model.cadence_hours(),
            1 <= cadence <= 6,
            last_round == missing@[i - 1],
            runs@.push(stretch(start_run, last_round, cadence as int)) == stretches(
                missing@.take(i as int),
                cadence as int,
            ),
        decreases missing.len() - i,
    {
        let next = missing[i];
        let ghost so_far = stretches(missing@.take(i as int), cadence as int);
        assert(missing@.take(i + 1).drop_last() =~= missing@.take(i as int));
        assert(missing@.take(i + 1).last() == next);
        assert(missing@.take(i + 1)[i - 1] == last_round);
        assert(so_far.last() == stretch(start_run, last_round, cadence as int));
        assert(so_far.drop_last() =~= runs@);
        if quotient_toward_zero(next.hours_since(last_round), cadence) == 1 {
            last_round = next;
        } else {
            runs.push(make_stretch(start_run, last_round, cadence));
            start_run = next;
            last_round = next;
        }
        i = i + 1;
    }
    assert(missing@.take(i as int) =~= missing@);
    runs.push(make_stretch(start_run, last_round, cadence));
    runs
}

/// The number of runs in all of the first `n` of `runs`.
pub open spec fn total_cycles(runs: Seq<MissingRun>, n: int) -> int
    decreases n,
{
    if n <= 0 {
        0
    } else {
        total_cycles(runs, n - 1) + runs[n - 1].cycles
    }
}

/// The columns of the table of missing runs: for each stretch the number of its runs, its
/// first and its last run, and below them the total.
#[derive(Clone, Debug)]
pub struct MissingColumns {
    pub cycles: Vec<String>,
    pub start: Vec<String>,
    pub end: Vec<String>,
}

impl MissingColumns {
    /// Whether the columns show `runs`, with `total` as the total.
    pub open spec fn shows(&self, runs: Seq<MissingRun>, total: int) -> bool {
        &&& self.cycles@.len() == runs.len() + 1
        &&& self.start@.len() == runs.len() + 1
        &&& self.end@.len() == runs.len() + 1
        &&& forall|i: int|
            0 <= i < runs.len() ==> {
                &&& (#[trigger] self.cycles@[i])@ == signed_decimal(runs[i].cycles as int)
                &&& self.start@[i]@ == runs[i].start.text()
                &&& self.end@[i]@ == runs[i].end.text()
            }
        &&& self.cycles@[runs.len() as int]@ == "-- "@ + signed_decimal(total) + " --"@
        &&& self.start@[runs.len() as int]@ == " -- Total -- "@
        &&& self.end@[runs.len() as int]@ == ""@
    }
}

/// The columns of the table of missing runs, or `None` where the total does not fit.
pub fn missing_columns(runs: &Vec<MissingRun>) -> (columns: Option<MissingColumns>)
    ensures
        columns.is_some() <==> (forall|n: int|
            0 <= n <= runs@.len() ==> i64::MIN <= #[trigger] total_cycles(runs@, n) <= i64::MAX),
        columns matches Some(c) ==> c.shows(runs@, total_cycles(runs@, runs@.len() as int)),
{
    let mut cycles: Vec<String> = Vec::new();
    let mut start: Vec<String> = Vec::new();
    let mut end: Vec<String> = Vec::new();
    let mut total: i64 = 0;
    let mut i: usize = 0;
    while i < runs.len()
        invariant
            i <= runs.len(),
            total == total_cycles(runs@, i as int),
            forall|n: int|
                0 <= n <= i ==> i64::MIN <= #[trigger] total_cycles(runs@, n) <= i64::MAX,
            cycles@.len() == i,
            start@.len() == i,
            end@.len() == i,
            forall|j: int|
                0 <= j < i ==> {
                    &&& (#[trigger] cycles@[j])@ == signed_decimal(runs@[j].cycles as int)
                    &&& start@[j]@ == runs@[j].start.text()
                    &&& end@[j]@ == runs@[j].end.text()
                },
        decreases runs.len() - i,
    {
        let run = runs[i];
        total = match total.checked_add(run.cycles) {
            Some(total) => total,
            None => {
                assert(total_cycles(runs@, i + 1) == total + run.cycles);
                return None;
            },
        };
        let mut count = String::new();
        push_signed_decimal(&mut count, run.cycles);
        assert(count@ =~= signed_decimal(run.cycles as int));
        cycles.push(count);
        start.push(run.start.to_text());
        end.push(run.end.to_text());
        i = i + 1;
    }
    let mut sum = "-- ".to_owned();
    push_signed_decimal(&mut sum, total);
    sum.append(" --");
    cycles.push(sum);
    start.push(" -- Total -- ".to_owned());
    end.push("".to_owned());
    Some(MissingColumns { cycles, start, end })
}

} // verus!
