use bfkmd::climo::{
    add_fire, build_climo, enumerate_runs, export_climo, fire_stats_result, load_result,
    location_stats_result, parse_failure, parse_result, progress_action, AnalysisMeta,
    ClimoInventory, FireIndexes, FireRecord, HdwRow, PipelineMessage, ProgressAction,
};
use bfkmd::model::Model;
use bfkmd::site::{SiteInfo, StationNumber};
use bfkmd::time::Timestamp;
use chrono::NaiveDate;

fn station() -> StationNumber {
    StationNumber::new(727730)
}

fn hours(n: i64) -> Timestamp {
    Timestamp::new(1593561600 + n * 3600)
}

fn at(year: i32, month: u32, day: u32, hour: u32) -> Timestamp {
    Timestamp::new(
        NaiveDate::from_ymd_opt(year, month, day)
            .unwrap()
            .and_hms_opt(hour, 0, 0)
            .unwrap()
            .and_utc()
            .timestamp(),
    )
}

fn site_with_offset(offset: Option<i32>) -> SiteInfo {
    let mut site = SiteInfo::new(station());
    site.utc_offset = offset;
    site
}

fn load_of(message: &PipelineMessage) -> (usize, Timestamp) {
    match message {
        PipelineMessage::Load { num, station: s, model, init_time } => {
            assert_eq!(*s, station());
            assert_eq!(*model, Model::GFS);
            (*num, *init_time)
        }
        other => panic!("{:?}", other),
    }
}

#[test]
fn runs_that_the_climatology_lacks_are_loaded() {
    let inventory = vec![hours(0), hours(6), hours(12), hours(18)];
    let done = vec![hours(6), hours(18), hours(99)];
    let emitted = enumerate_runs(station(), Model::GFS, &inventory, &done, false, 10).unwrap();
    let loads: Vec<_> = emitted.messages.iter().map(load_of).collect();
    assert_eq!(loads, vec![(11, hours(0)), (12, hours(12))]);
    assert_eq!(emitted.counter, 14);
}

#[test]
fn every_run_is_loaded_for_a_rebuild() {
    let inventory = vec![hours(0), hours(6)];
    let done = vec![hours(0), hours(6)];
    let emitted = enumerate_runs(station(), Model::GFS, &inventory, &done, true, 0).unwrap();
    let loads: Vec<_> = emitted.messages.iter().map(load_of).collect();
    assert_eq!(loads, vec![(1, hours(0)), (2, hours(6))]);
    assert_eq!(emitted.counter, 2);
}

#[test]
fn second_update_loads_nothing() {
    let inventory = vec![hours(0), hours(6), hours(12)];
    let first = enumerate_runs(station(), Model::GFS, &inventory, &vec![], false, 0).unwrap();
    assert_eq!(first.messages.len(), 3);
    let done: Vec<_> = first.messages.iter().map(|m| load_of(m).1).collect();
    let second = enumerate_runs(station(), Model::GFS, &inventory, &done, false, 0).unwrap();
    assert!(second.messages.is_empty());
    assert_eq!(second.counter, 3);
}

#[test]
fn counter_that_would_overflow() {
    let inventory = vec![hours(0), hours(6)];
    assert!(
        enumerate_runs(station(), Model::GFS, &inventory, &vec![], false, usize::MAX - 1).is_none()
    );
    assert!(
        enumerate_runs(station(), Model::GFS, &inventory, &vec![], true, usize::MAX - 2).is_some()
    );
}

#[test]
fn loaded_text_goes_to_the_parser() {
    match load_result(3, station(), Model::NAM, hours(0), Ok("text".to_string())) {
        PipelineMessage::Parse { num, station: s, model, init_time, data } => {
            assert_eq!((num, s, model, init_time), (3, station(), Model::NAM, hours(0)));
            assert_eq!(data, "text");
        }
        other => panic!("{:?}", other),
    }
}

#[test]
fn file_that_cannot_be_loaded() {
    match load_result(3, station(), Model::NAM, hours(0), Err("no such file".to_string())) {
        PipelineMessage::DataError { num, station: s, model, valid_time, msg } => {
            assert_eq!((num, s, model, valid_time), (3, station(), Model::NAM, hours(0)));
            assert_eq!(msg, "no such file");
        }
        other => panic!("{:?}", other),
    }
}

fn meta(lead_time: Option<i32>, valid: Option<i64>) -> AnalysisMeta {
    AnalysisMeta { lead_time, valid_time: valid.map(hours) }
}

#[test]
fn one_cycle_of_analyses_is_taken() {
    let metas: Vec<_> = (0..12).map(|lead| meta(Some(lead), Some(lead as i64))).collect();
    let emitted = parse_result(7, station(), Model::GFS, hours(0), &metas);
    assert_eq!(emitted.len(), 6);
    for (i, message) in emitted.iter().enumerate() {
        match message {
            PipelineMessage::Fire { num, station: s, model, valid_time } => {
                assert_eq!((*num, *s, *model), (7, station(), Model::GFS));
                assert_eq!(*valid_time, hours(i as i64));
            }
            other => panic!("{:?}", other),
        }
    }
    assert_eq!(parse_result(7, station(), Model::NAM4KM, hours(0), &metas).len(), 1);
    assert_eq!(parse_result(7, station(), Model::GFS, hours(0), &vec![]).len(), 0);
}

#[test]
fn cycle_ends_at_the_first_analysis_beyond_it() {
    let metas = vec![
        meta(Some(0), Some(0)),
        meta(Some(3), Some(3)),
        meta(Some(6), Some(6)),
        meta(Some(1), Some(1)),
    ];
    assert_eq!(parse_result(1, station(), Model::GFS, hours(0), &metas).len(), 2);
    let metas = vec![meta(Some(0), Some(0)), meta(None, Some(1)), meta(Some(2), Some(2))];
    assert_eq!(parse_result(1, station(), Model::GFS, hours(0), &metas).len(), 1);
    let metas = vec![meta(Some(-3), Some(0)), meta(Some(5), Some(1))];
    assert_eq!(parse_result(1, station(), Model::GFS, hours(0), &metas).len(), 2);
}

#[test]
fn analysis_without_valid_time() {
    let metas = vec![meta(Some(0), None), meta(Some(1), Some(1))];
    let emitted = parse_result(4, station(), Model::GFS, hours(0), &metas);
    assert_eq!(emitted.len(), 2);
    match &emitted[0] {
        PipelineMessage::DataError { num, station: s, model, valid_time, msg } => {
            assert_eq!((*num, *s, *model, *valid_time), (4, station(), Model::GFS, hours(0)));
            assert_eq!(msg, "No valid time");
        }
        other => panic!("{:?}", other),
    }
    assert!(matches!(emitted[1], PipelineMessage::Fire { .. }));
}

#[test]
fn stored_file_that_cannot_be_parsed() {
    match parse_failure(2, station(), Model::GFS, hours(0), "bad".to_string()) {
        PipelineMessage::DataError { num, valid_time, msg, .. } => {
            assert_eq!((num, valid_time), (2, hours(0)));
            assert_eq!(msg, "bad");
        }
        other => panic!("{:?}", other),
    }
}

fn indexes(hdw: Result<i32, String>) -> FireIndexes {
    FireIndexes {
        haines_low: Some(4),
        haines_mid: None,
        haines_high: Some(6),
        hdw,
        dry_cape: Some(100),
        wet_cape: None,
        ccl_agl_m: Some(1500),
        el_asl_m: Some(9000),
        dcape: Some(-3),
    }
}

#[test]
fn fire_weather_of_an_analysis() {
    let step = fire_stats_result(5, station(), Model::GFS, hours(1), indexes(Ok(321)));
    assert_eq!(
        step.record,
        Some(FireRecord {
            station: station(),
            model: Model::GFS,
            valid_time: hours(1),
            hns_low: 4,
            hns_mid: 0,
            hns_high: 6,
            hdw: 321,
            dry_cape: Some(100),
            wet_cape: None,
            ccl_agl_m: Some(1500),
            el_asl_m: Some(9000),
            dcape: Some(-3),
        })
    );
    match step.next {
        PipelineMessage::Location { num, station: s, model, valid_time } => {
            assert_eq!((num, s, model, valid_time), (5, station(), Model::GFS, hours(1)));
        }
        other => panic!("{:?}", other),
    }
}

#[test]
fn analysis_without_hot_dry_windy_index() {
    let step =
        fire_stats_result(5, station(), Model::GFS, hours(1), indexes(Err("no wind".to_string())));
    assert_eq!(step.record, None);
    match step.next {
        PipelineMessage::DataError { num, station: s, model, valid_time, msg } => {
            assert_eq!((num, s, model, valid_time), (5, station(), Model::GFS, hours(1)));
            assert_eq!(msg, "no wind");
        }
        other => panic!("{:?}", other),
    }
}

#[test]
fn location_of_the_start_of_a_run() {
    let step = location_stats_result(9, station(), Model::GFS, hours(0), Some(0), true, true);
    assert!(step.record);
    assert!(step.error.is_none());
    assert!(matches!(step.completed, PipelineMessage::Completed { num: 9 }));
    let step = location_stats_result(9, station(), Model::GFS, hours(0), None, true, true);
    assert!(step.record);
    assert!(step.error.is_none());
}

#[test]
fn location_of_a_later_analysis_is_not_wanted() {
    let step = location_stats_result(9, station(), Model::GFS, hours(3), Some(3), true, true);
    assert!(!step.record);
    assert!(step.error.is_none());
    assert!(matches!(step.completed, PipelineMessage::Completed { num: 9 }));
    let step = location_stats_result(9, station(), Model::GFS, hours(3), Some(3), false, false);
    assert!(!step.record);
    assert!(step.error.is_none());
}

#[test]
fn start_of_a_run_without_location() {
    for (position, elevation) in [(false, true), (true, false), (false, false)] {
        let step = location_stats_result(
            9,
            station(),
            Model::GFS,
            hours(0),
            Some(0),
            position,
            elevation,
        );
        assert!(!step.record);
        match step.error {
            Some(PipelineMessage::DataError { num, station: s, model, valid_time, msg }) => {
                assert_eq!((num, s, model, valid_time), (9, station(), Model::GFS, hours(0)));
                assert_eq!(msg, "Missing location information");
            }
            other => panic!("{:?}", other),
        }
        assert!(matches!(step.completed, PipelineMessage::Completed { num: 9 }));
    }
}

#[test]
fn what_the_main_thread_does() {
    assert_eq!(
        progress_action(&PipelineMessage::Completed { num: 3 }),
        ProgressAction::Advance { num: 3 }
    );
    let error = PipelineMessage::DataError {
        num: 4,
        station: station(),
        model: Model::NAM,
        valid_time: hours(6),
        msg: "bad".to_string(),
    };
    assert_eq!(
        progress_action(&error),
        ProgressAction::RemoveFile {
            num: 4,
            station: station(),
            model: Model::NAM,
            init_time: hours(6)
        }
    );
    let load = PipelineMessage::Load {
        num: 1,
        station: station(),
        model: Model::NAM,
        init_time: hours(0),
    };
    assert_eq!(progress_action(&load), ProgressAction::Unexpected);
}

#[test]
fn local_time_of_a_row_seven_hours_west() {
    let site = site_with_offset(Some(-7 * 3600));
    let row = add_fire(&site, Model::GFS, at(2024, 7, 1, 23), (6, 5, 4), 250).unwrap();
    assert_eq!((row.year_lcl, row.month_lcl, row.day_lcl, row.hour_lcl), (2024, 7, 1, 16));
    assert_eq!(row.station, station());
    assert_eq!(row.model, Model::GFS);
    assert_eq!(row.valid_time, at(2024, 7, 1, 23));
    assert_eq!((row.haines_high, row.haines_mid, row.haines_low), (6, 5, 4));
    assert_eq!(row.hdw, 250);
}

#[test]
fn local_hours_of_a_cycle() {
    let site = site_with_offset(Some(-7 * 3600));
    for utc_hour in 0..6u32 {
        let row = add_fire(&site, Model::GFS, at(2020, 7, 1, utc_hour), (0, 0, 0), 0).unwrap();
        assert_eq!(row.hour_lcl, (utc_hour + 24 - 7) % 24);
        assert_eq!((row.year_lcl, row.month_lcl, row.day_lcl), (2020, 6, 30));
    }
    let row = add_fire(&site, Model::GFS, at(2020, 7, 1, 7), (0, 0, 0), 0).unwrap();
    assert_eq!((row.year_lcl, row.month_lcl, row.day_lcl, row.hour_lcl), (2020, 7, 1, 0));
}

#[test]
fn row_of_a_site_without_offset_is_in_utc() {
    let site = site_with_offset(None);
    let row = add_fire(&site, Model::NAM, at(2020, 1, 1, 3), (1, 2, 3), 4).unwrap();
    assert_eq!((row.year_lcl, row.month_lcl, row.day_lcl, row.hour_lcl), (2020, 1, 1, 3));
}

#[test]
fn row_of_a_clock_that_cannot_be_read() {
    assert!(add_fire(&site_with_offset(Some(86400)), Model::NAM, hours(0), (1, 2, 3), 4).is_none());
    assert!(add_fire(&site_with_offset(None), Model::NAM, Timestamp::new(i64::MAX), (1, 2, 3), 4)
        .is_none());
}

#[test]
fn inventory_of_a_climatology() {
    let mut inventory = ClimoInventory::new();
    assert!(!inventory.is_covered(hours(0)));
    inventory.record(hours(6), 100);
    assert_eq!(
        inventory,
        ClimoInventory {
            start: Some(hours(6)),
            end: Some(hours(6)),
            hdw_max: 100,
            hdw_max_date: Some(hours(6))
        }
    );
    inventory.record(hours(0), 50);
    inventory.record(hours(12), 100);
    inventory.record(hours(9), 99);
    assert_eq!(
        inventory,
        ClimoInventory {
            start: Some(hours(0)),
            end: Some(hours(12)),
            hdw_max: 100,
            hdw_max_date: Some(hours(12))
        }
    );
    assert!(inventory.is_covered(hours(0)));
    assert!(inventory.is_covered(hours(12)));
    assert!(!inventory.is_covered(hours(13)));
    assert!(!inventory.is_covered(hours(-1)));
}

#[test]
fn row_taken_twice_counts_once() {
    let mut inventory = ClimoInventory::new();
    inventory.record(hours(6), 100);
    inventory.record(hours(0), 120);
    let once = inventory;
    inventory.record(hours(0), 120);
    assert_eq!(inventory, once);
}

#[test]
fn inventory_with_negative_indexes_only() {
    let mut inventory = ClimoInventory::new();
    inventory.record(hours(0), -5);
    assert_eq!(inventory.hdw_max, 0);
    assert_eq!(inventory.hdw_max_date, None);
    inventory.record(hours(1), 0);
    assert_eq!(inventory.hdw_max_date, Some(hours(1)));
}

#[test]
fn inventory_after_a_batch_of_rows() {
    let rows = vec![
        HdwRow { valid_time: hours(6), hdw: 100 },
        HdwRow { valid_time: hours(0), hdw: 250 },
        HdwRow { valid_time: hours(18), hdw: 90 },
        HdwRow { valid_time: hours(12), hdw: 250 },
    ];
    let updated = build_climo(ClimoInventory::new(), &rows);
    assert_eq!(
        updated,
        ClimoInventory {
            start: Some(hours(0)),
            end: Some(hours(18)),
            hdw_max: 250,
            hdw_max_date: Some(hours(12))
        }
    );
    assert_eq!(build_climo(updated, &vec![]), updated);
    assert_eq!(build_climo(updated, &rows), updated);
}

#[test]
fn columns_of_the_exported_climatology() {
    let headers = export_climo();
    assert_eq!(headers.len(), 54);
    assert_eq!(&headers[0..5], ["month", "day", "min hdw", "hdw 10th percentile", "hdw 20th percentile"]);
    assert_eq!(headers[11], "hdw 90th percentile");
    assert_eq!(headers[12], "max hdw");
    assert_eq!(headers[13], "min conv_t_def");
    assert_eq!(headers[23], "max conv_t_def");
    assert_eq!(headers[24], "min cape ratio");
    assert_eq!(headers[29], "cape ratio 50th percentile");
    assert_eq!(headers[34], "max cape ratio");
    assert_eq!(
        &headers[35..41],
        [
            "percent low haines 0",
            "percent low haines 2",
            "percent low haines 3",
            "percent low haines 4",
            "percent low haines 5",
            "percent low haines 6"
        ]
    );
    assert_eq!(headers[41], "percent mid haines 0");
    assert_eq!(headers[47], "percent high haines 0");
    assert_eq!(headers[52], "percent high haines 6");
    assert_eq!(headers[53], "number of samples");
}
