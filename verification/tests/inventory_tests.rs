use bfkmd::inventory::{
    first_and_last, group_missing, has_time, missing_columns, missing_inventory, MissingRun,
};
use bfkmd::model::Model;
use bfkmd::time::Timestamp;

fn hours(n: i64) -> Timestamp {
    Timestamp::new(1577836800 + n * 3600)
}

#[test]
fn nothing_is_missing_from_consecutive_runs() {
    let inventory = vec![hours(0), hours(6)];
    assert_eq!(missing_inventory(&inventory, Model::GFS, None), vec![]);
}

#[test]
fn a_skipped_run_is_missing() {
    let inventory = vec![hours(0), hours(6), hours(18)];
    assert_eq!(missing_inventory(&inventory, Model::GFS, Some(hours(18))), vec![hours(12)]);
    assert_eq!(missing_inventory(&inventory, Model::GFS, None), vec![hours(12)]);
}

#[test]
fn nothing_is_missing_from_an_empty_inventory() {
    assert_eq!(missing_inventory(&vec![], Model::GFS, None), vec![]);
    assert_eq!(missing_inventory(&vec![], Model::GFS, Some(hours(100))), vec![]);
}

#[test]
fn runs_up_to_the_bound_are_expected() {
    let inventory = vec![hours(0)];
    assert_eq!(
        missing_inventory(&inventory, Model::NAM, Some(hours(20))),
        vec![hours(6), hours(12), hours(18)]
    );
    assert_eq!(
        missing_inventory(&inventory, Model::NAM, Some(hours(18))),
        vec![hours(6), hours(12), hours(18)]
    );
    assert_eq!(missing_inventory(&inventory, Model::NAM, Some(hours(0))), vec![]);
    assert_eq!(missing_inventory(&inventory, Model::NAM, Some(hours(-6))), vec![]);
    assert_eq!(missing_inventory(&inventory, Model::NAM, None), vec![]);
}

#[test]
fn hourly_model_misses_every_hour() {
    let inventory = vec![hours(0), hours(3)];
    assert_eq!(missing_inventory(&inventory, Model::NAM4KM, None), vec![hours(1), hours(2)]);
}

#[test]
fn inventory_in_any_order() {
    let inventory = vec![hours(18), hours(0), hours(6)];
    assert_eq!(missing_inventory(&inventory, Model::GFS, None), vec![hours(12)]);
    assert_eq!(first_and_last(&inventory), Some((hours(0), hours(18))));
    assert_eq!(first_and_last(&vec![]), None);
    assert!(has_time(&inventory, hours(6)));
    assert!(!has_time(&inventory, hours(12)));
}

#[test]
fn runs_off_the_grid_do_not_fill_gaps() {
    let inventory = vec![hours(0), hours(7), hours(12)];
    assert_eq!(missing_inventory(&inventory, Model::GFS, None), vec![hours(6)]);
}

#[test]
fn missing_inventory_at_the_edge_of_time() {
    let inventory = vec![Timestamp::new(i64::MAX - 30000)];
    assert_eq!(
        missing_inventory(&inventory, Model::GFS, Some(Timestamp::new(i64::MAX))),
        vec![Timestamp::new(i64::MAX - 30000 + 21600)]
    );
    let inventory = vec![Timestamp::new(i64::MIN)];
    assert_eq!(
        missing_inventory(&inventory, Model::GFS, Some(Timestamp::new(i64::MIN + 21600))),
        vec![Timestamp::new(i64::MIN + 21600)]
    );
}

#[test]
fn missing_runs_fall_into_stretches() {
    let missing = vec![hours(6), hours(12), hours(18), hours(36), hours(48), hours(54)];
    assert_eq!(
        group_missing(&missing, Model::GFS),
        vec![
            MissingRun { start: hours(6), end: hours(18), cycles: 3 },
            MissingRun { start: hours(36), end: hours(36), cycles: 1 },
            MissingRun { start: hours(48), end: hours(54), cycles: 2 },
        ]
    );
}

#[test]
fn stretches_of_nothing_and_of_one() {
    assert_eq!(group_missing(&vec![], Model::GFS), vec![]);
    assert_eq!(
        group_missing(&vec![hours(6)], Model::GFS),
        vec![MissingRun { start: hours(6), end: hours(6), cycles: 1 }]
    );
}

#[test]
fn stretches_of_the_hourly_model() {
    let missing = vec![hours(1), hours(2), hours(4)];
    assert_eq!(
        group_missing(&missing, Model::NAM4KM),
        vec![
            MissingRun { start: hours(1), end: hours(2), cycles: 2 },
            MissingRun { start: hours(4), end: hours(4), cycles: 1 },
        ]
    );
}

#[test]
fn table_of_missing_runs() {
    let runs = vec![
        MissingRun { start: hours(6), end: hours(18), cycles: 3 },
        MissingRun { start: hours(36), end: hours(36), cycles: 1 },
    ];
    let columns = missing_columns(&runs).unwrap();
    assert_eq!(columns.cycles, vec!["3", "1", "-- 4 --"]);
    assert_eq!(
        columns.start,
        vec!["2020-01-01 06:00:00", "2020-01-02 12:00:00", " -- Total -- "]
    );
    assert_eq!(columns.end, vec!["2020-01-01 18:00:00", "2020-01-02 12:00:00", ""]);
}

#[test]
fn table_of_no_missing_run() {
    let columns = missing_columns(&vec![]).unwrap();
    assert_eq!(columns.cycles, vec!["-- 0 --"]);
    assert_eq!(columns.start, vec![" -- Total -- "]);
    assert_eq!(columns.end, vec![""]);
}

#[test]
fn table_whose_total_does_not_fit() {
    let runs = vec![
        MissingRun { start: hours(0), end: hours(0), cycles: i64::MAX },
        MissingRun { start: hours(0), end: hours(0), cycles: 1 },
    ];
    assert!(missing_columns(&runs).is_none());
}
