//! The forecast models whose soundings the archive holds.

use crate::time::{div_toward_zero, Timestamp};
use vstd::prelude::*;

verus! {

/// A forecast model. The set is closed: every archive entry belongs to exactly one of these.
#[derive(Clone, Copy, Debug, PartialEq, Eq, Structural, Hash, PartialOrd, Ord)]
pub enum Model {
    /// The U.S. Global Forecast System.
    GFS,
    /// The U.S. North American Model.
    NAM,
    /// The high resolution nest of the NAM.
    NAM4KM,
}

impl Model {
    /// Hours between two consecutive runs of the model.
    pub open spec fn cadence_hours(self) -> int {
        match self {
            Model::GFS => 6,
            Model::NAM => 6,
            Model::NAM4KM => 1,
        }
    }

    /// The canonical lower case name, as used in URLs and in the index.
    pub open spec fn name(self) -> Seq<char> {
        match self {
            Model::GFS => "gfs"@,
            Model::NAM => "nam"@,
            Model::NAM4KM => "nam4km"@,
        }
    }

    /// The upper case name, as shown to the user.
    pub open spec fn display_name(self) -> Seq<char> {
        match self {
            Model::GFS => "GFS"@,
            Model::NAM => "NAM"@,
            Model::NAM4KM => "NAM4KM"@,
        }
    }

    /// Hours between two consecutive runs of the model.
    pub fn hours_between_runs(self) -> (hours: i64)
        ensures
            hours == self.cadence_hours(),
            1 <= hours <= 6,
    {
        match self {
            Model::GFS => 6,
            Model::NAM => 6,
            Model::NAM4KM => 1,
        }
    }

    /// The canonical lower case name.
    pub fn as_static_str(self) -> (name: &'static str)
        ensures
            name@ == self.name(),
    {
        match self {
            Model::GFS => "gfs",
            Model::NAM => "nam",
            Model::NAM4KM => "nam4km",
        }
    }

    /// The upper case name, as shown to the user.
    pub fn display_str(self) -> (name: &'static str)
        ensures
            name@ == self.display_name(),
    {
        match self {
            Model::GFS => "GFS",
            Model::NAM => "NAM",
            Model::NAM4KM => "NAM4KM",
        }
    }

    /// Seconds between two consecutive runs of the model.
    pub open spec fn step_seconds(self) -> int {
        self.cadence_hours() * 3600
    }

    /// The run time that a walk from `start` toward `end` begins with. Runs are at the
    /// multiples of the cadence, counted from midnight: the walk begins at the first run at or
    /// after `start` where it goes forward, and at the last run at or before `start` where it
    /// does not.
    pub open spec fn first_run(self, start: Timestamp, end: Timestamp) -> int {
        let step = self.step_seconds();
        let rem = (start.secs as int) % step;
        let floor = start.secs - rem;
        if start.secs < end.secs && rem != 0 {
            floor + step
        } else {
            floor
        }
    }

    /// The number of steps of a walk from `start` toward `end`: the whole hours from the first
    /// run to `end`, by the cadence, both rounded toward zero. It is negative for a walk back
    /// in time.
    pub open spec fn run_steps(self, start: Timestamp, end: Timestamp) -> int {
        div_toward_zero(
            div_toward_zero(end.secs - self.first_run(start, end), 3600),
            self.cadence_hours(),
        )
    }

    /// The run times of the model on a walk from `start` toward `end`.
    pub open spec fn run_times(self, start: Timestamp, end: Timestamp) -> Seq<Timestamp> {
        let first = self.first_run(start, end);
        let steps = self.run_steps(start, end);
        let step = self.step_seconds();
        if steps >= 0 {
            Seq::new((steps + 1) as nat, |k: int| Timestamp { secs: (first + k * step) as i64 })
        } else {
            Seq::new((1 - steps) as nat, |k: int| Timestamp { secs: (first - k * step) as i64 })
        }
    }

    /// The run times of the model on a walk from `start` toward `end`, in the order of the
    /// walk. Both ends must be instants that the calendar can name.
    pub fn all_runs(self, start: Timestamp, end: Timestamp) -> (runs: Vec<Timestamp>)
        requires
            start.representable(),
            end.representable(),
        ensures
            runs@ == self.run_times(start, end),
    {
        let hours: i64 = self.hours_between_runs();
        let step: i64 = hours * 3600;
        let rem: i64 = match start.secs.checked_rem_euclid(step) {
            Some(rem) => rem,
            None => 0,
        };
        let floor: i64 = start.secs - rem;
        let first: i64 = if start.secs < end.secs && rem != 0 {
            floor + step
        } else {
            floor
        };
        assert(first == self.first_run(start, end));
        let span: i64 = end.secs - first;
        let forward: bool = span >= 0;
        let magnitude: i64 = if forward {
            span
        } else {
            -span
        };
        let count: i64 = (magnitude / 3600) / hours;
        proof {
            let steps = self.run_steps(start, end);
            if forward {
                assert(steps == count);
            } else {
                assert(div_toward_zero(span as int, 3600) == -(magnitude / 3600));
                assert(steps == -count);
            }
            assert(count <= magnitude / 3600) by (nonlinear_arith)
                requires
                    count == ((magnitude as int) / 3600) / (hours as int),
                    hours > 0,
                    magnitude >= 0,
            ;
            assert(count * step <= magnitude) by (nonlinear_arith)
                requires
                    count == ((magnitude as int) / 3600) / (hours as int),
                    step == hours * 3600,
                    hours > 0,
                    magnitude >= 0,
            ;
        }
        let mut runs: Vec<Timestamp> = Vec::new();
        let mut k: i64 = 0;
        let mut current: i64 = first;
        while k <= count
            invariant
                0 <= k <= count + 1,
                count < i64::MAX,
                count * step <= magnitude,
                step > 0,
                magnitude == (if forward {
                    end.secs - first
                } else {
                    first - end.secs
                }),
                start.representable(),
                end.representable(),
                first == self.first_run(start, end),
                step == self.step_seconds(),
                k <= count ==> current == (if forward {
                    first + k * step
                } else {
                    first - k * step
                }),
                runs@.len() == k,
                forall|j: int|
                    0 <= j < k ==> (#[trigger] runs@[j]).secs == (if forward {
                        first + j * step
                    } else {
                        first - j * step
                    }),
            decreases count + 1 - k,
        {
            runs.push(Timestamp { secs: current });
            proof {
                assert((k + 1) * step == k * step + step) by (nonlinear_arith);
                if k < count {
                    assert((k + 1) * step <= count * step) by (nonlinear_arith)
                        requires
                            k + 1 <= count,
                            step > 0,
                    ;
                }
            }
            if k < count {
                current = if forward {
                    current + step
                } else {
                    current - step
                };
            }
            k = k + 1;
        }
        proof {
            let steps = self.run_steps(start, end);
            if steps >= 0 && !forward {
                assert(count == 0);
            }
            assert(runs@ =~= self.run_times(start, end));
        }
        runs
    }

    /// Every model, in declaration order.
    pub fn all() -> (models: Vec<Model>)
        ensures
            models@ == seq![Model::GFS, Model::NAM, Model::NAM4KM],
    {
        let mut models: Vec<Model> = Vec::new();
        models.push(Model::GFS);
        models.push(Model::NAM);
        models.push(Model::NAM4KM);
        assert(models@ =~= seq![Model::GFS, Model::NAM, Model::NAM4KM]);
        models
    }
}

} // verus!
