//! The climatology pipeline: what each stage makes of the message it is handed, and the rows
//! that the climatology store takes.
//!
//! The stages run in threads of their own, where they read the archive, parse the files and
//! compute the indexes. What they decide stands here.

use crate::inventory::has_time;
use crate::model::Model;
use crate::site::{SiteInfo, StationNumber};
use crate::text::{decimal, push_decimal, texts};
use crate::time::{chrono_first_second, chrono_last_second, CivilTime, Timestamp};
use vstd::string::*;
use vstd::prelude::*;

verus! {

/// The message that a stage of the climatology pipeline hands to the next. `num` counts the
/// files of the run, for the progress display.
#[derive(Clone, Debug)]
pub enum PipelineMessage {
    /// A file is to be read from the archive.
    Load { num: usize, station: StationNumber, model: Model, init_time: Timestamp },
    /// The text of a file is to be parsed.
    Parse { num: usize, station: StationNumber, model: Model, init_time: Timestamp, data: String },
    /// The fire weather indexes of one analysis are to be computed.
    Fire { num: usize, station: StationNumber, model: Model, valid_time: Timestamp },
    /// The location of one analysis is to be recorded.
    Location { num: usize, station: StationNumber, model: Model, valid_time: Timestamp },
    /// A file is done.
    Completed { num: usize },
    /// A file, or one of its analyses, is no good.
    DataError {
        num: usize,
        station: StationNumber,
        model: Model,
        valid_time: Timestamp,
        msg: String,
    },
}

/// The requests to load the runs of a station under a model: one for each of `init_times`
/// that the climatology does not hold yet, and for every one where it is rebuilt; in the order
/// of `init_times`, numbered on from `counter`.
pub open spec fn loads(
    station: StationNumber,
    model: Model,
    init_times: Seq<Timestamp>,
    done: Seq<Timestamp>,
    force_rebuild: bool,
    counter: int,
) -> Seq<PipelineMessage>
    decreases init_times.len(),
{
    if init_times.len() == 0 {
        Seq::empty()
    } else {
        let earlier = loads(station, model, init_times.drop_last(), done, force_rebuild, counter);
        if force_rebuild || !done.contains(init_times.last()) {
            earlier.push(
                PipelineMessage::Load {
                    num: (counter + earlier.len() + 1) as usize,
                    station,
                    model,
                    init_time: init_times.last(),
                },
            )
        } else {
            earlier
        }
    }
}

/// What the first stage emits for a station under a model, and the counter after it.
#[derive(Clone, Debug)]
pub struct Enumerated {
    /// The requests to load, in the order of the inventory.
    pub messages: Vec<PipelineMessage>,
    /// The counter, moved on by the number of runs in the inventory.
    pub counter: usize,
}

/// The first stage of the pipeline, for one station under one model: a request to load each
/// run of the inventory `init_times` that the climatology does not hold yet (`done` are the
/// times it holds), and each run where it is rebuilt. The requests are numbered on from
/// `counter`, and the counter moves on by the number of runs, loaded or not. `None` where the
/// counter would overflow.
pub fn enumerate_runs(
    station: StationNumber,
    model: Model,
    init_times: &Vec<Timestamp>,
    done: &Vec<Timestamp>,
    force_rebuild: bool,
    counter: usize,
) -> (emitted: Option<Enumerated>)
    ensures
        emitted.is_some() <==> counter + init_times@.len() <= usize::MAX,
        emitted matches Some(e) ==> e.counter == counter + init_times@.len() && e.messages@
            == loads(station, model, init_times@, done@, force_rebuild, counter as int),
{
    if init_times.len() > usize::MAX - counter {
        return None;
    }
    let mut messages: Vec<PipelineMessage> = Vec::new();
    let mut i: usize = 0;
    assert(init_times@.take(0) =~= Seq::empty());
    while i < init_times.len()
        invariant
            i <= init_times.len(),
            counter + init_times@.len() <= usize::MAX,
            messages@.len() <= i,
            messages@ == loads(
                station,
                model,
                init_times@.take(i as int),
                done@,
                force_rebuild,
                counter as int,
            ),
        decreases init_times.len() - i,
    {
        assert(init_times@.take(i + 1).drop_last() =~= init_times@.take(i as int));
        assert(init_times@.take(i + 1).last() == init_times@[i as int]);
        let init_time = init_times[i];
        if force_rebuild || !has_time(done, init_time) {
            let num = counter + messages.len() + 1;
            messages.push(PipelineMessage::Load { num, station, model, init_time });
        }
        i = i + 1;
    }
    assert(init_times@.take(i as int) =~= init_times@);
    Some(Enumerated { messages, counter: counter + init_times.len() })
}

/// Idempotence of an update. Where the climatology holds every run of the inventory already
/// and is not rebuilt, the first stage emits nothing: a second run over the same archive loads
/// no file, and so writes no row.
pub proof fn lemma_nothing_to_load_twice(
    station: StationNumber,
    model: Model,
    init_times: Seq<Timestamp>,
    done: Seq<Timestamp>,
    counter: int,
)
    requires
        forall|i: int| 0 <= i < init_times.len() ==> done.contains(#[trigger] init_times[i]),
    ensures
        loads(station, model, init_times, done, false, counter).len() == 0,
    decreases init_times.len(),
{
    if init_times.len() > 0 {
        let shorter = init_times.drop_last();
        assert forall|i: int| 0 <= i < shorter.len() implies done.contains(
            #[trigger] shorter[i],
        ) by {
            assert(shorter[i] == init_times[i]);
        }
        lemma_nothing_to_load_twice(station, model, shorter, done, counter);
        assert(done.contains(init_times[init_times.len() - 1]));
    }
}

/// What the loading stage makes of a request and of what the archive gave: the text to parse,
/// or the error of the archive, told of the run that was asked for.
pub open spec fn loaded(
    num: usize,
    station: StationNumber,
    model: Model,
    init_time: Timestamp,
    retrieved: Result<String, String>,
) -> PipelineMessage {
    match retrieved {
        Ok(data) => PipelineMessage::Parse { num, station, model, init_time, data },
        Err(msg) => PipelineMessage::DataError { num, station, model, valid_time: init_time, msg },
    }
}

/// What the loading stage makes of a request and of what the archive gave.
pub fn load_result(
    num: usize,
    station: StationNumber,
    model: Model,
    init_time: Timestamp,
    retrieved: Result<String, String>,
) -> (next: PipelineMessage)
    ensures
        next == loaded(num, station, model, init_time, retrieved),
{
    match retrieved {
        Ok(data) => PipelineMessage::Parse { num, station, model, init_time, data },
        Err(msg) => PipelineMessage::DataError { num, station, model, valid_time: init_time, msg },
    }
}

/// What the pipeline reads of one analysis of a forecast file.
#[derive(Clone, Copy, Debug, PartialEq, Eq, Structural)]
pub struct AnalysisMeta {
    /// Hours from the initialization of the run to the analysis.
    pub lead_time: Option<i32>,
    /// The instant that the analysis is valid for.
    pub valid_time: Option<Timestamp>,
}

/// Whether an analysis belongs to the first cycle of its run: its lead time is known and
/// shorter than the cadence of the model.
pub open spec fn in_first_cycle(meta: AnalysisMeta, model: Model) -> bool {
    meta.lead_time matches Some(lead) && lead < model.cadence_hours()
}

/// The number of analyses at the head of `metas` that belong to the first cycle.
pub open spec fn first_cycle_len(metas: Seq<AnalysisMeta>, model: Model) -> int
    decreases metas.len(),
{
    if metas.len() == 0 || !in_first_cycle(metas[0], model) {
        0
    } else {
        1 + first_cycle_len(metas.drop_first(), model)
    }
}

/// What the parsing stage emits for one analysis of the first cycle: the request for its fire
/// weather indexes, or an error where the analysis does not say when it is valid.
pub open spec fn parsed(
    num: usize,
    station: StationNumber,
    model: Model,
    init_time: Timestamp,
    meta: AnalysisMeta,
    next: PipelineMessage,
) -> bool {
    match meta.valid_time {
        Some(valid_time) => next == (PipelineMessage::Fire { num, station, model, valid_time }),
        None => {
            &&& next matches PipelineMessage::DataError {
                num: n,
                station: s,
                model: m,
                valid_time: v,
                msg,
            }
            &&& n == num
            &&& s == station
            &&& m == model
            &&& v == init_time
            &&& msg@ == "No valid time"@
        },
    }
}

/// Bounds of `first_cycle_len`.
pub proof fn lemma_first_cycle_len(metas: Seq<AnalysisMeta>, model: Model)
    ensures
        0 <= first_cycle_len(metas, model) <= metas.len(),
        forall|i: int|
            0 <= i < first_cycle_len(metas, model) ==> in_first_cycle(#[trigger] metas[i], model),
        first_cycle_len(metas, model) < metas.len() ==> !in_first_cycle(
            metas[first_cycle_len(metas, model)],
            model,
        ),
    decreases metas.len(),
{
    if metas.len() > 0 && in_first_cycle(metas[0], model) {
        let rest = metas.drop_first();
        lemma_first_cycle_len(rest, model);
        assert forall|i: int| 0 <= i < first_cycle_len(metas, model) implies in_first_cycle(
            #[trigger] metas[i],
            model,
        ) by {
            if i > 0 {
                assert(metas[i] == rest[i - 1]);
            }
        }
        if first_cycle_len(metas, model) < metas.len() {
            assert(metas[first_cycle_len(metas, model)] == rest[first_cycle_len(rest, model)]);
        }
    }
}

/// The parsing stage, for a file that could be parsed. `metas` are its analyses in their
/// order. One message is emitted for each analysis of the first cycle, which ends before the
/// first analysis whose lead time is unknown or no shorter than the cadence of the model: the
/// request for the fire weather indexes of the analysis, or an error where it does not say
/// when it is valid. Message `i` belongs to analysis `i`.
pub fn parse_result(
    num: usize,
    station: StationNumber,
    model: Model,
    init_time: Timestamp,
    metas: &Vec<AnalysisMeta>,
) -> (emitted: Vec<PipelineMessage>)
    ensures
        emitted@.len() == first_cycle_len(metas@, model),
        forall|i: int|
            0 <= i < emitted@.len() ==> parsed(
                num,
                station,
                model,
                init_time,
                metas@[i],
                #[trigger] emitted@[i],
            ),
{
    let cadence = model.hours_between_runs();
    let mut emitted: Vec<PipelineMessage> = Vec::new();
    let mut i: usize = 0;
    proof {
        lemma_first_cycle_len(metas@, model);
    }
    while i < metas.len()
        invariant
            i <= metas.len(),
            cadence == model.cadence_hours(),
            emitted@.len() == i,
            i <= first_cycle_len(metas@, model) <= metas@.len(),
            forall|j: int|
                0 <= j < first_cycle_len(metas@, model) ==> in_first_cycle(
                    #[trigger] metas@[j],
                    model,
                ),
            first_cycle_len(metas@, model) < metas@.len() ==> !in_first_cycle(
                metas@[first_cycle_len(metas@, model)],
                model,
            ),
            forall|j: int|
                0 <= j < i ==> parsed(
                    num,
                    station,
                    model,
                    init_time,
                    metas@[j],
                    #[trigger] emitted@[j],
                ),
        decreases metas.len() - i,
    {
        let meta = metas[i];
        let goes_on = match meta.lead_time {
            Some(lead) => (lead as i64) < cadence,
            None => false,
        };
        if !goes_on {
            assert(!in_first_cycle(metas@[i as int], model));
            return emitted;
        }
        assert(in_first_cycle(metas@[i as int], model));
        let next = match meta.valid_time {
            Some(valid_time) => PipelineMessage::Fire { num, station, model, valid_time },
            None => PipelineMessage::DataError {
                num,
                station,
                model,
                valid_time: init_time,
                msg: "No valid time".to_owned(),
            },
        };
        emitted.push(next);
        i = i + 1;
    }
    emitted
}

/// What the parsing stage emits for a file that could not be parsed: the error of the parser,
/// told of the run.
pub fn parse_failure(
    num: usize,
    station: StationNumber,
    model: Model,
    init_time: Timestamp,
    msg: String,
) -> (next: PipelineMessage)
    ensures
        next == (PipelineMessage::DataError { num, station, model, valid_time: init_time, msg }),
{
    PipelineMessage::DataError { num, station, model, valid_time: init_time, msg }
}

/// The fire weather indexes of one analysis, as whole numbers. An index that could not be
/// computed is `None`; for the hot-dry-windy index the reason is kept.
#[derive(Debug)]
pub struct FireIndexes {
    pub haines_low: Option<i32>,
    pub haines_mid: Option<i32>,
    pub haines_high: Option<i32>,
    pub hdw: Result<i32, String>,
    pub dry_cape: Option<i32>,
    pub wet_cape: Option<i32>,
    pub ccl_agl_m: Option<i32>,
    pub el_asl_m: Option<i32>,
    pub dcape: Option<i32>,
}

/// The fire weather of a station under a model at one instant, as the climatology keeps it.
#[derive(Clone, Copy, Debug, PartialEq, Eq, Structural)]
pub struct FireRecord {
    pub station: StationNumber,
    pub model: Model,
    pub valid_time: Timestamp,
    pub hns_low: i32,
    pub hns_mid: i32,
    pub hns_high: i32,
    pub hdw: i32,
    pub dry_cape: Option<i32>,
    pub wet_cape: Option<i32>,
    pub ccl_agl_m: Option<i32>,
    pub el_asl_m: Option<i32>,
    pub dcape: Option<i32>,
}

/// An index, or zero where it could not be computed.
pub open spec fn or_zero(index: Option<i32>) -> i32 {
    match index {
        Some(value) => value,
        None => 0,
    }
}

/// What the fire weather stage does with one analysis: the record for the climatology, if
/// any, and the message for the next stage.
#[derive(Clone, Debug)]
pub struct FireStep {
    pub record: Option<FireRecord>,
    pub next: PipelineMessage,
}

/// Whether `step` is what the fire weather stage does with the indexes of one analysis. With
/// a hot-dry-windy index there is a record, in which a Haines index that could not be computed
/// is zero, and the analysis goes on to the location stage. Without one there is no record,
/// and the reason goes on as an error.
pub open spec fn fire_stats(
    num: usize,
    station: StationNumber,
    model: Model,
    valid_time: Timestamp,
    indexes: FireIndexes,
    step: FireStep,
) -> bool {
    match indexes.hdw {
        Ok(hdw) => {
            &&& step.record == Some(
                FireRecord {
                    station,
                    model,
                    valid_time,
                    hns_low: or_zero(indexes.haines_low),
                    hns_mid: or_zero(indexes.haines_mid),
                    hns_high: or_zero(indexes.haines_high),
                    hdw,
                    dry_cape: indexes.dry_cape,
                    wet_cape: indexes.wet_cape,
                    ccl_agl_m: indexes.ccl_agl_m,
                    el_asl_m: indexes.el_asl_m,
                    dcape: indexes.dcape,
                },
            )
            &&& step.next == (PipelineMessage::Location { num, station, model, valid_time })
        },
        Err(msg) => {
            &&& step.record.is_none()
            &&& step.next == (PipelineMessage::DataError { num, station, model, valid_time, msg })
        },
    }
}

/// What the fire weather stage does with the indexes of one analysis.
pub fn fire_stats_result(
    num: usize,
    station: StationNumber,
    model: Model,
    valid_time: Timestamp,
    indexes: FireIndexes,
) -> (step: FireStep)
    ensures
        fire_stats(num, station, model, valid_time, indexes, step),
{
    let hns_low = match indexes.haines_low {
        Some(value) => value,
        None => 0,
    };
    let hns_mid = match indexes.haines_mid {
        Some(value) => value,
        None => 0,
    };
    let hns_high = match indexes.haines_high {
        Some(value) => value,
        None => 0,
    };
    match indexes.hdw {
        Ok(hdw) => FireStep {
            record: Some(
                FireRecord {
                    station,
                    model,
                    valid_time,
                    hns_low,
                    hns_mid,
                    hns_high,
                    hdw,
                    dry_cape: indexes.dry_cape,
                    wet_cape: indexes.wet_cape,
                    ccl_agl_m: indexes.ccl_agl_m,
                    el_asl_m: indexes.el_asl_m,
                    dcape: indexes.dcape,
                },
            ),
            next: PipelineMessage::Location { num, station, model, valid_time },
        },
        Err(msg) => FireStep {
            record: None,
            next: PipelineMessage::DataError { num, station, model, valid_time, msg },
        },
    }
}

/// What the location stage does with one analysis.
#[derive(Clone, Debug)]
pub struct LocationStep {
    /// Whether the location of the analysis goes to the climatology.
    pub record: bool,
    /// The error, where the analysis should have a location and has none.
    pub error: Option<PipelineMessage>,
    /// The notice that the analysis is done.
    pub completed: PipelineMessage,
}

/// Whether the location of an analysis is wanted: only that of the start of a run is, and that
/// of an analysis which does not say its lead time.
pub open spec fn wants_location(lead_time: Option<i32>) -> bool {
    match lead_time {
        Some(lead) => lead == 0,
        None => true,
    }
}

/// Whether `step` is what the location stage does with one analysis. Where the location is
/// wanted, it is recorded if the analysis has both a position and an elevation, and an error
/// is emitted if it lacks one. The analysis is reported as done either way.
pub open spec fn location_stats(
    num: usize,
    station: StationNumber,
    model: Model,
    valid_time: Timestamp,
    lead_time: Option<i32>,
    has_position: bool,
    has_elevation: bool,
    step: LocationStep,
) -> bool {
    &&& step.completed == (PipelineMessage::Completed { num })
    &&& step.record == (wants_location(lead_time) && has_position && has_elevation)
    &&& if wants_location(lead_time) && !(has_position && has_elevation) {
        &&& step.error matches Some(
            PipelineMessage::DataError { num: n, station: s, model: m, valid_time: v, msg },
        )
        &&& n == num
        &&& s == station
        &&& m == model
        &&& v == valid_time
        &&& msg@ == "Missing location information"@
    } else {
        step.error.is_none()
    }
}

/// What the location stage does with one analysis.
pub fn location_stats_result(
    num: usize,
    station: StationNumber,
    model: Model,
    valid_time: Timestamp,
    lead_time: Option<i32>,
    has_position: bool,
    has_elevation: bool,
) -> (step: LocationStep)
    ensures
        location_stats(
            num,
            station,
            model,
            valid_time,
            lead_time,
            has_position,
            has_elevation,
            step,
        ),
{
    let wanted = match lead_time {
        Some(lead) => lead == 0,
        None => true,
    };
    let complete = has_position && has_elevation;
    let error = if wanted && !complete {
        Some(
            PipelineMessage::DataError {
                num,
                station,
                model,
                valid_time,
                msg: "Missing location information".to_owned(),
            },
        )
    } else {
        None
    };
    LocationStep {
        record: wanted && complete,
        error,
        completed: PipelineMessage::Completed { num },
    }
}

/// What the main thread does with a message of the last stage.
#[derive(Clone, Copy, Debug, PartialEq, Eq, Structural)]
pub enum ProgressAction {
    /// Move the progress display to `num`.
    Advance { num: usize },
    /// Move the progress display to `num`, and remove the file of the run from the archive if
    /// it is there: it cannot be used.
    RemoveFile { num: usize, station: StationNumber, model: Model, init_time: Timestamp },
    /// The message should not have come this far; say so.
    Unexpected,
}

/// What the main thread does with a message of the last stage: it moves the progress display
/// on for a file that is done, removes the file of a data error from the archive, and has
/// nothing to do with any other message.
pub open spec fn progress(msg: PipelineMessage) -> ProgressAction {
    match msg {
        PipelineMessage::Completed { num } => ProgressAction::Advance { num },
        PipelineMessage::DataError { num, station, model, valid_time, .. } => {
            ProgressAction::RemoveFile { num, station, model, init_time: valid_time }
        },
        _ => ProgressAction::Unexpected,
    }
}

/// What the main thread does with a message of the last stage.
pub fn progress_action(msg: &PipelineMessage) -> (action: ProgressAction)
    ensures
        action == progress(*msg),
{
    match msg {
        PipelineMessage::Completed { num } => ProgressAction::Advance { num: *num },
        PipelineMessage::DataError { num, station, model, valid_time, .. } => {
            ProgressAction::RemoveFile {
                num: *num,
                station: *station,
                model: *model,
                init_time: *valid_time,
            }
        },
        _ => ProgressAction::Unexpected,
    }
}

/// A row of the table of fire weather in the climatology store. Its key is the station, the
/// model and the valid time; the date and the hour are those of the local clock of the site.
#[derive(Clone, Copy, Debug, PartialEq, Eq, Structural)]
pub struct FireRow {
    pub station: StationNumber,
    pub model: Model,
    pub valid_time: Timestamp,
    pub year_lcl: i32,
    pub month_lcl: u32,
    pub day_lcl: u32,
    pub hour_lcl: u32,
    pub haines_high: i32,
    pub haines_mid: i32,
    pub haines_low: i32,
    pub hdw: i32,
}

impl FireRow {
    /// Whether the date and the hour of the row are those of `local`.
    pub open spec fn shows(self, local: CivilTime) -> bool {
        &&& self.year_lcl == local.year
        &&& self.month_lcl == local.month
        &&& self.day_lcl == local.day
        &&& self.hour_lcl == local.hour
    }
}

/// Whether the local clock of a site with the given offset can be read at `valid_time`: the
/// instant is one that the calendar can name, and the offset is less than a day.
pub open spec fn local_time_known(site: SiteInfo, valid_time: Timestamp) -> bool {
    valid_time.representable() && -86400 < site.offset_seconds() < 86400
}

/// The row of fire weather for a site under a model at `valid_time`. The date and the hour of
/// the row are those that the clock of the site shows at that instant: the clock is ahead of
/// UTC by the offset of the site, and shows UTC where the site has none. `None` where that
/// clock cannot be read.
pub fn add_fire(
    site: &SiteInfo,
    model: Model,
    valid_time: Timestamp,
    hns_high_mid_low: (i32, i32, i32),
    hdw: i32,
) -> (row: Option<FireRow>)
    ensures
        row.is_some() <==> local_time_known(*site, valid_time),
        row matches Some(r) ==> {
            &&& r.station == site.station_num
            &&& r.model == model
            &&& r.valid_time == valid_time
            &&& r.haines_high == hns_high_mid_low.0
            &&& r.haines_mid == hns_high_mid_low.1
            &&& r.haines_low == hns_high_mid_low.2
            &&& r.hdw == hdw
            &&& chrono_first_second() <= valid_time.secs + site.offset_seconds()
                <= chrono_last_second() ==> exists|local: CivilTime|
                #![trigger r.shows(local)]
                local.valid() && local.seconds() == valid_time.secs + site.offset_seconds()
                    && r.shows(local)
        },
{
    let offset = match site.utc_offset {
        Some(offset) => offset,
        None => 0,
    };
    match valid_time.local_civil(offset) {
        Some(local) => {
            let row = FireRow {
                station: site.station_num,
                model,
                valid_time,
                year_lcl: local.year,
                month_lcl: local.month,
                day_lcl: local.day,
                hour_lcl: local.hour,
                haines_high: hns_high_mid_low.0,
                haines_mid: hns_high_mid_low.1,
                haines_low: hns_high_mid_low.2,
                hdw,
            };
            assert(row.shows(local));
            Some(row)
        },
        None => None,
    }
}

/// What a climatology holds of a station under a model: the span of the valid times that it
/// has rows for, and the largest hot-dry-windy index among them with the time of it.
#[derive(Clone, Copy, Debug, PartialEq, Eq, Structural)]
pub struct ClimoInventory {
    /// The earliest valid time, if there is a row.
    pub start: Option<Timestamp>,
    /// The latest valid time, if there is a row.
    pub end: Option<Timestamp>,
    /// The largest hot-dry-windy index; zero while there is none above it.
    pub hdw_max: i32,
    /// The valid time of the largest hot-dry-windy index: the latest one, where several rows
    /// have it.
    pub hdw_max_date: Option<Timestamp>,
}

/// The earlier of an optional instant and an instant.
pub open spec fn earlier_of(known: Option<Timestamp>, time: Timestamp) -> Timestamp {
    match known {
        Some(known) => if known.secs <= time.secs {
            known
        } else {
            time
        },
        None => time,
    }
}

/// The later of an optional instant and an instant.
pub open spec fn later_of(known: Option<Timestamp>, time: Timestamp) -> Timestamp {
    match known {
        Some(known) => if known.secs >= time.secs {
            known
        } else {
            time
        },
        None => time,
    }
}

impl ClimoInventory {
    /// The inventory of a climatology without rows.
    pub fn new() -> (inventory: ClimoInventory)
        ensures
            inventory == (ClimoInventory {
                start: None,
                end: None,
                hdw_max: 0,
                hdw_max_date: None,
            }),
    {
        ClimoInventory { start: None, end: None, hdw_max: 0, hdw_max_date: None }
    }

    /// Whether the run at `init_time` lies within the span that the climatology has rows for,
    /// so that an update passes over it.
    pub open spec fn covers(self, init_time: Timestamp) -> bool {
        match (self.start, self.end) {
            (Some(start), Some(end)) => start.secs <= init_time.secs <= end.secs,
            _ => false,
        }
    }

    /// Whether the run at `init_time` lies within the span that the climatology has rows for.
    pub fn is_covered(&self, init_time: Timestamp) -> (yes: bool)
        ensures
            yes == self.covers(init_time),
    {
        match (self.start, self.end) {
            (Some(start), Some(end)) => start.secs <= init_time.secs && init_time.secs
                <= end.secs,
            _ => false,
        }
    }

    /// The inventory after a row for `valid_time` with the hot-dry-windy index `hdw`: the span
    /// reaches to the time, and the index is the largest where none was larger.
    pub open spec fn with_row(self, valid_time: Timestamp, hdw: i32) -> ClimoInventory {
        ClimoInventory {
            start: Some(earlier_of(self.start, valid_time)),
            end: Some(later_of(self.end, valid_time)),
            hdw_max: if hdw >= self.hdw_max {
                hdw
            } else {
                self.hdw_max
            },
            hdw_max_date: if hdw >= self.hdw_max {
                Some(valid_time)
            } else {
                self.hdw_max_date
            },
        }
    }

    /// Takes a row for `valid_time` with the hot-dry-windy index `hdw` into the inventory.
    pub fn record(&mut self, valid_time: Timestamp, hdw: i32)
        ensures
            *final(self) == old(self).with_row(valid_time, hdw),
            final(self).covers(valid_time),
            forall|time: Timestamp| old(self).covers(time) ==> final(self).covers(time),
            final(self).hdw_max >= hdw,
            final(self).hdw_max >= old(self).hdw_max,
    {
        let start = match self.start {
            Some(start) => if start.secs <= valid_time.secs {
                start
            } else {
                valid_time
            },
            None => valid_time,
        };
        let end = match self.end {
            Some(end) => if end.secs >= valid_time.secs {
                end
            } else {
                valid_time
            },
            None => valid_time,
        };
        self.start = Some(start);
        self.end = Some(end);
        if hdw >= self.hdw_max {
            self.hdw_max = hdw;
            self.hdw_max_date = Some(valid_time);
        }
    }
}

/// A row of the climatology as its inventory sees it: a valid time and the hot-dry-windy index
/// at that time.
#[derive(Clone, Copy, Debug, PartialEq, Eq, Structural)]
pub struct HdwRow {
    pub valid_time: Timestamp,
    pub hdw: i32,
}

/// The inventory after the first `n` of `rows`, taken in their order.
pub open spec fn with_rows(inventory: ClimoInventory, rows: Seq<HdwRow>, n: int) -> ClimoInventory
    decreases n,
{
    if n <= 0 {
        inventory
    } else {
        with_rows(inventory, rows, n - 1).with_row(rows[n - 1].valid_time, rows[n - 1].hdw)
    }
}

/// The inventory of a climatology after `rows` were added to it, in their order: its span
/// reaches to every one of them, and its largest hot-dry-windy index is none smaller than
/// theirs.
pub fn build_climo(inventory: ClimoInventory, rows: &Vec<HdwRow>) -> (updated: ClimoInventory)
    ensures
        updated == with_rows(inventory, rows@, rows@.len() as int),
        forall|i: int| 0 <= i < rows@.len() ==> updated.covers((#[trigger] rows@[i]).valid_time),
        forall|i: int| 0 <= i < rows@.len() ==> updated.hdw_max >= (#[trigger] rows@[i]).hdw,
        forall|time: Timestamp| inventory.covers(time) ==> updated.covers(time),
        updated.hdw_max >= inventory.hdw_max,
{
    let mut updated = inventory;
    let mut i: usize = 0;
    while i < rows.len()
        invariant
            i <= rows.len(),
            updated == with_rows(inventory, rows@, i as int),
            forall|j: int| 0 <= j < i ==> updated.covers((#[trigger] rows@[j]).valid_time),
            forall|j: int| 0 <= j < i ==> updated.hdw_max >= (#[trigger] rows@[j]).hdw,
            forall|time: Timestamp| inventory.covers(time) ==> updated.covers(time),
            updated.hdw_max >= inventory.hdw_max,
        decreases rows.len() - i,
    {
        updated.record(rows[i].valid_time, rows[i].hdw);
        i = i + 1;
    }
    updated
}

/// A row that is taken twice counts once: the inventory after the second time is the inventory
/// after the first.
pub proof fn lemma_row_taken_twice(inventory: ClimoInventory, valid_time: Timestamp, hdw: i32)
    ensures
        inventory.with_row(valid_time, hdw).with_row(valid_time, hdw) == inventory.with_row(
            valid_time,
            hdw,
        ),
{
}

/// The names of the columns for the summary of one quantity: its least value, its nine
/// deciles and its largest value.
pub open spec fn decile_columns(quantity: Seq<char>) -> Seq<Seq<char>> {
    seq!["min "@ + quantity] + Seq::new(
        9,
        |i: int| quantity + " "@ + decimal(((i + 1) * 10) as nat) + "th percentile"@,
    ) + seq!["max "@ + quantity]
}

/// The category of the Haines index that column `i` of six is for: the index takes the value
/// zero where it cannot be computed, and the values two to six.
pub open spec fn haines_category(i: int) -> nat {
    if i == 0 {
        0
    } else {
        (i + 1) as nat
    }
}

/// The names of the columns for the shares of the categories of one Haines index.
pub open spec fn haines_columns(level: Seq<char>) -> Seq<Seq<char>> {
    Seq::new(6, |i: int| "percent "@ + level + " haines "@ + decimal(haines_category(i)))
}

/// The names of the columns of the fire weather climatology as it is exported: the day, the
/// summaries of the hot-dry-windy index, of the convective temperature deficit and of the CAPE
/// ratio, the shares of the categories of the three Haines indexes, and the number of
/// samples.
pub open spec fn fire_climo_columns() -> Seq<Seq<char>> {
    seq!["month"@, "day"@] + decile_columns("hdw"@) + decile_columns("conv_t_def"@)
        + decile_columns("cape ratio"@) + haines_columns("low"@) + haines_columns("mid"@)
        + haines_columns("high"@) + seq!["number of samples"@]
}

/// Appends the names of the columns for the summary of one quantity.
fn push_decile_columns(headers: &mut Vec<String>, quantity: &str)
    ensures
        texts(final(headers)@) == texts(old(headers)@) + decile_columns(quantity@),
{
    let ghost before = texts(headers@);
    let mut least = "min ".to_owned();
    least.append(quantity);
    headers.push(least);
    let mut i: u64 = 1;
    assert(texts(headers@) =~= before + seq!["min "@ + quantity@] + Seq::new(
        0,
        |i: int| quantity@ + " "@ + decimal(((i + 1) * 10) as nat) + "th percentile"@,
    ));
    while i <= 9
        invariant
            1 <= i <= 10,
            texts(headers@) == before + seq!["min "@ + quantity@] + Seq::new(
                (i - 1) as nat,
                |i: int| quantity@ + " "@ + decimal(((i + 1) * 10) as nat) + "th percentile"@,
            ),
        decreases 10 - i,
    {
        let ghost earlier = texts(headers@);
        let mut header = quantity.to_owned();
        header.append(" ");
        push_decimal(&mut header, i * 10);
        header.append("th percentile");
        headers.push(header);
        assert(texts(headers@) =~= earlier.push(header@));
        i = i + 1;
        assert(texts(headers@) =~= before + seq!["min "@ + quantity@] + Seq::new(
            (i - 1) as nat,
            |i: int| quantity@ + " "@ + decimal(((i + 1) * 10) as nat) + "th percentile"@,
        ));
    }
    let ghost earlier = texts(headers@);
    let mut most = "max ".to_owned();
    most.append(quantity);
    headers.push(most);
    assert(texts(headers@) =~= earlier.push("max "@ + quantity@));
    assert(texts(headers@) =~= before + decile_columns(quantity@));
}

/// Appends the names of the columns for the shares of the categories of one Haines index.
fn push_haines_columns(headers: &mut Vec<String>, level: &str)
    ensures
        texts(final(headers)@) == texts(old(headers)@) + haines_columns(level@),
{
    let ghost before = texts(headers@);
    let mut i: u64 = 0;
    assert(texts(headers@) =~= before + Seq::new(
        0,
        |i: int| "percent "@ + level@ + " haines "@ + decimal(haines_category(i)),
    ));
    while i <= 6
        invariant
            i <= 7,
            i != 1,
            texts(headers@) == before + Seq::new(
                (if i == 0 {
                    0
                } else {
                    i - 1
                }) as nat,
                |i: int| "percent "@ + level@ + " haines "@ + decimal(haines_category(i)),
            ),
        decreases 7 - i,
    {
        let ghost earlier = texts(headers@);
        let mut header = "percent ".to_owned();
        header.append(level);
        header.append(" haines ");
        push_decimal(&mut header, i);
        headers.push(header);
        assert(texts(headers@) =~= earlier.push(header@));
        i = if i == 0 {
            2
        } else {
            i + 1
        };
        assert(texts(headers@) =~= before + Seq::new(
            (i - 1) as nat,
            |i: int| "percent "@ + level@ + " haines "@ + decimal(haines_category(i)),
        ));
    }
}

/// The names of the columns of the fire weather climatology as it is exported.
pub fn export_climo() -> (headers: Vec<String>)
    ensures
        texts(headers@) == fire_climo_columns(),
{
    let mut headers: Vec<String> = Vec::new();
    headers.push("month".to_owned());
    headers.push("day".to_owned());
    assert(texts(headers@) =~= seq!["month"@, "day"@]);
    push_decile_columns(&mut headers, "hdw");
    push_decile_columns(&mut headers, "conv_t_def");
    push_decile_columns(&mut headers, "cape ratio");
    push_haines_columns(&mut headers, "low");
    push_haines_columns(&mut headers, "mid");
    push_haines_columns(&mut headers, "high");
    let ghost earlier = texts(headers@);
    headers.push("number of samples".to_owned());
    assert(texts(headers@) =~= earlier.push("number of samples"@));
    assert(texts(headers@) =~= fire_climo_columns());
    headers
}

} // verus!
