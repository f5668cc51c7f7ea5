use bfkmd::download::{StepResult, MAX_REQUESTS};
use bfkmd::generator::{
    build_download_list, expand_candidates, has_station, is_walkable, list_of_auto_download,
    Generator, SiteModel,
};
use bfkmd::model::Model;
use bfkmd::site::StationNumber;
use bfkmd::sources::ReqInfo;
use bfkmd::time::Timestamp;

fn entry(site_id: &str, station: u32, model: Model) -> SiteModel {
    SiteModel { site_id: site_id.to_string(), station: Some(StationNumber::new(station)), model }
}

fn hours(n: i64) -> Timestamp {
    Timestamp::new(1577836800 + n * 3600)
}

#[test]
fn candidates_of_one_site() {
    let list = expand_candidates(&vec![entry("kmso", 727730, Model::GFS)], hours(0), hours(13));
    let times: Vec<_> = list.iter().map(|c| c.init_time).collect();
    assert_eq!(times, vec![hours(12), hours(6), hours(0), hours(-6)]);
    for candidate in &list {
        assert_eq!(candidate.site_id, "kmso");
        assert_eq!(candidate.station, Some(StationNumber::new(727730)));
        assert_eq!(candidate.model, Model::GFS);
    }
}

#[test]
fn download_list_is_newest_first() {
    let entries = vec![
        entry("kmso", 727730, Model::GFS),
        entry("kord", 725300, Model::NAM),
        entry("kmso", 727730, Model::NAM4KM),
    ];
    let list = build_download_list(&entries, hours(6), hours(12));
    for pair in list.windows(2) {
        assert!(pair[0].init_time >= pair[1].init_time);
    }
    let shown: Vec<_> =
        list.iter().map(|c| (c.site_id.as_str(), c.model, c.init_time)).collect();
    assert_eq!(
        shown,
        vec![
            ("kmso", Model::GFS, hours(12)),
            ("kord", Model::NAM, hours(12)),
            ("kmso", Model::NAM4KM, hours(12)),
            ("kmso", Model::NAM4KM, hours(11)),
            ("kmso", Model::NAM4KM, hours(10)),
            ("kmso", Model::NAM4KM, hours(9)),
            ("kmso", Model::NAM4KM, hours(8)),
            ("kmso", Model::NAM4KM, hours(7)),
            ("kmso", Model::GFS, hours(6)),
            ("kord", Model::NAM, hours(6)),
            ("kmso", Model::NAM4KM, hours(6)),
            ("kmso", Model::NAM4KM, hours(5)),
            ("kmso", Model::GFS, hours(0)),
            ("kord", Model::NAM, hours(0)),
        ]
    );
}

#[test]
fn download_list_of_no_site() {
    assert!(build_download_list(&vec![], hours(0), hours(12)).is_empty());
}

#[test]
fn window_that_can_be_walked() {
    assert!(is_walkable(hours(0), hours(12)));
    assert!(!is_walkable(Timestamp::new(i64::MIN), hours(12)));
    assert!(!is_walkable(hours(0), Timestamp::new(i64::MAX)));
    assert!(!is_walkable(Timestamp::new(-8334601228800), hours(0)));
    assert!(!is_walkable(Timestamp::new(-8334601228800 + 21599), hours(0)));
    assert!(is_walkable(Timestamp::new(-8334601228800 + 21600), hours(0)));
}

#[test]
fn sites_on_the_list_of_automatic_downloads() {
    let subscribed = vec![StationNumber::new(3), StationNumber::new(1)];
    let sites = vec![
        (StationNumber::new(1), "KONE".to_string()),
        (StationNumber::new(2), "KTWO".to_string()),
        (StationNumber::new(3), "KTHR".to_string()),
    ];
    let entries = list_of_auto_download(&subscribed, &sites, Model::NAM);
    assert_eq!(entries.len(), 2);
    assert_eq!(entries[0].site_id, "KONE");
    assert_eq!(entries[0].station, Some(StationNumber::new(1)));
    assert_eq!(entries[0].model, Model::NAM);
    assert_eq!(entries[1].site_id, "KTHR");
    assert_eq!(entries[1].station, Some(StationNumber::new(3)));
    assert!(list_of_auto_download(&vec![], &sites, Model::NAM).is_empty());
    assert!(list_of_auto_download(&subscribed, &vec![], Model::NAM).is_empty());
    assert!(has_station(&subscribed, StationNumber::new(3)));
    assert!(!has_station(&subscribed, StationNumber::new(2)));
}

fn request(n: usize) -> ReqInfo {
    ReqInfo {
        site_id: "kmso".to_string(),
        site: None,
        model: Model::GFS,
        init_time: Timestamp::new(n as i64),
        url: format!("http://host/{}", n),
    }
}

#[test]
fn files_in_the_archive_are_not_asked_for() {
    let mut generator = Generator::new();
    assert!(generator.offer(request(1), true, false).is_none());
    assert!(generator.offer(request(1), false, true).is_none());
    assert!(generator.offer(request(1), true, true).is_none());
    assert_eq!(generator.emitted, 0);
    match generator.offer(request(1), false, false) {
        Some(StepResult::Request(req)) => assert_eq!(req.url, "http://host/1"),
        other => panic!("{:?}", other),
    }
    assert_eq!(generator.emitted, 1);
}

#[test]
fn a_run_emits_a_thousand_requests_at_most() {
    let mut generator = Generator::new();
    let mut emitted = 0;
    for n in 0..1500 {
        assert_eq!(generator.is_done(), n >= 1000);
        if generator.offer(request(n), false, false).is_some() {
            emitted += 1;
        }
    }
    assert_eq!(emitted, 1000);
    assert_eq!(MAX_REQUESTS, 1000);
    assert_eq!(generator.emitted, 1000);
    assert!(generator.is_done());
}
