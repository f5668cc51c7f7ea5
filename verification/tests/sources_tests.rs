use bfkmd::model::Model;
use bfkmd::site::StationNumber;
use bfkmd::sources::{first_request, GapRule, IdRewrite, IowaState, ModelSet, Source};
use bfkmd::time::{CivilTime, Timestamp};
use chrono::NaiveDate;

fn hour(year: i32, month: u32, day: u32, hour: u32) -> Timestamp {
    Timestamp::new(
        NaiveDate::from_ymd_opt(year, month, day)
            .unwrap()
            .and_hms_opt(hour, 0, 0)
            .unwrap()
            .and_utc()
            .timestamp(),
    )
}

fn second_before(instant: Timestamp) -> Timestamp {
    Timestamp::new(instant.secs - 1)
}

fn second_after(instant: Timestamp) -> Timestamp {
    Timestamp::new(instant.secs + 1)
}

fn civil(year: i32, month: u32, day: u32, hour: u32) -> CivilTime {
    CivilTime { year, month, day, hour, minute: 0, second: 0 }
}

#[test]
fn known_tables_of_the_source() {
    let source = IowaState::new();
    assert_eq!(source.gaps.len(), 12);
    assert_eq!(source.rewrites.len(), 2);
    assert_eq!(source.gaps[0].sites, vec!["bam", "c17", "lrr", "s06", "ssy", "xkza", "xxpn"]);
    assert_eq!(source.gaps[5].sites.len(), 0);
    assert_eq!(source.gaps[5].before, Some(hour(2013, 3, 25, 0)));
    assert_eq!(source.gaps[6].before, Some(hour(2011, 1, 1, 0)));
    assert_eq!(source.gaps[7].not_before, Some(hour(2018, 12, 5, 0)));
    assert_eq!(source.gaps[8].before, Some(second_after(hour(2018, 12, 4, 12))));
    assert_eq!(source.gaps[9].not_before, Some(hour(2021, 3, 22, 18)));
    assert_eq!(source.gaps[10].before, Some(hour(2012, 2, 17, 12)));
    assert_eq!(source.gaps[10].sites.len(), 17);
    assert_eq!(source.gaps[11].before, Some(hour(2012, 2, 16, 18)));
    assert_eq!(source.gaps[11].sites.len(), 12);
    assert_eq!(source.rewrites[0].not_before, hour(2020, 5, 1, 0));
    assert_eq!(source.rewrites[1].not_before, hour(2021, 3, 22, 18));
}

#[test]
fn sites_that_a_model_does_not_cover() {
    let source = IowaState::new();
    let recent = hour(2020, 6, 1, 0);
    for site in ["bam", "c17", "lrr", "s06", "ssy", "xkza", "xxpn", "kfca"] {
        assert!(source.invalid_combination(site, Model::NAM, recent), "{}", site);
        assert!(source.invalid_combination(site, Model::NAM4KM, recent), "{}", site);
    }
    for site in ["bam", "s06", "ssy", "kfca"] {
        assert!(!source.invalid_combination(site, Model::GFS, recent), "{}", site);
    }
    for site in ["bon", "hmm", "mrp", "smb", "win"] {
        assert!(source.invalid_combination(site, Model::GFS, recent), "{}", site);
        assert!(!source.invalid_combination(site, Model::NAM, recent), "{}", site);
        assert!(!source.invalid_combination(site, Model::NAM4KM, recent), "{}", site);
    }
    assert!(source.invalid_combination("wntr", Model::GFS, recent));
    assert!(source.invalid_combination("wntr", Model::NAM4KM, recent));
    assert!(!source.invalid_combination("wntr", Model::NAM, recent));
    for site in ["paeg", "pabt", "pafa", "pafm", "pamc", "pfyu"] {
        assert!(source.invalid_combination(site, Model::NAM4KM, recent), "{}", site);
        assert!(!source.invalid_combination(site, Model::NAM, recent), "{}", site);
        assert!(!source.invalid_combination(site, Model::GFS, recent), "{}", site);
    }
    assert!(!source.invalid_combination("kmso", Model::GFS, recent));
    assert!(!source.invalid_combination("kmso", Model::NAM, recent));
    assert!(!source.invalid_combination("kmso", Model::NAM4KM, recent));
}

#[test]
fn site_identifiers_are_taken_without_regard_to_case() {
    let source = IowaState::new();
    let recent = hour(2020, 6, 1, 0);
    assert!(source.invalid_combination("BAM", Model::NAM, recent));
    assert!(source.invalid_combination("Bam", Model::NAM, recent));
    assert!(source.invalid_combination("KFCA", Model::NAM4KM, recent));
    assert!(!source.excludes("BAM", Model::NAM, recent));
    assert!(source.excludes("bam", Model::NAM, recent));
}

#[test]
fn models_before_their_first_runs() {
    let source = IowaState::new();
    let nest = hour(2013, 3, 25, 0);
    assert!(source.invalid_combination("kmso", Model::NAM4KM, second_before(nest)));
    assert!(!source.invalid_combination("kmso", Model::NAM4KM, nest));
    assert!(!source.invalid_combination("kmso", Model::NAM, second_before(nest)));
    let others = hour(2011, 1, 1, 0);
    assert!(source.invalid_combination("kmso", Model::GFS, second_before(others)));
    assert!(source.invalid_combination("kmso", Model::NAM, second_before(others)));
    assert!(!source.invalid_combination("kmso", Model::GFS, others));
    assert!(!source.invalid_combination("kmso", Model::NAM, others));
}

#[test]
fn sites_that_expired() {
    let source = IowaState::new();
    let end = hour(2018, 12, 5, 0);
    for site in ["lrr", "c17"] {
        assert!(source.invalid_combination(site, Model::GFS, end), "{}", site);
        assert!(!source.invalid_combination(site, Model::GFS, second_before(end)), "{}", site);
    }
}

#[test]
fn sites_that_began_late() {
    let source = IowaState::new();
    let begin = hour(2018, 12, 4, 12);
    for site in ["sta", "xxpn", "wev", "xkza", "mpi", "kmpi"] {
        assert!(source.invalid_combination(site, Model::GFS, begin), "{}", site);
        assert!(source.invalid_combination(site, Model::GFS, second_before(begin)), "{}", site);
        assert!(!source.invalid_combination(site, Model::GFS, second_after(begin)), "{}", site);
    }
    let gone = hour(2021, 3, 22, 18);
    assert!(!source.invalid_combination("kmpi", Model::GFS, second_before(gone)));
    assert!(source.invalid_combination("kmpi", Model::GFS, gone));
    assert!(!source.invalid_combination("mpi", Model::GFS, gone));
}

#[test]
fn sites_with_sparse_early_data() {
    let source = IowaState::new();
    let nam = hour(2012, 2, 17, 12);
    for site in [
        "pafm", "pfyu", "pabt", "wev", "wntr", "smb", "hmm", "sta", "mpi", "wja", "mrp", "pamc",
        "pafa", "paeg", "cype", "cyyc", "cwlb",
    ] {
        assert!(source.invalid_combination(site, Model::NAM, second_before(nam)), "{}", site);
        assert!(!source.invalid_combination(site, Model::NAM, nam), "{}", site);
    }
    let gfs = hour(2012, 2, 16, 18);
    for site in ["cwlb", "cyyc", "cype", "wja"] {
        assert!(source.invalid_combination(site, Model::GFS, second_before(gfs)), "{}", site);
        assert!(!source.invalid_combination(site, Model::GFS, gfs), "{}", site);
    }
    for site in ["ssy", "bam", "paeg", "pfyu", "pafa", "pamc", "pabt", "pafm"] {
        assert!(source.invalid_combination(site, Model::GFS, second_before(gfs)), "{}", site);
        assert!(!source.invalid_combination(site, Model::GFS, gfs), "{}", site);
    }
}

#[test]
fn rules_of_the_user() {
    let source = IowaState {
        gaps: vec![GapRule {
            sites: vec!["kxyz".to_string()],
            models: ModelSet { gfs: true, nam: false, nam4km: false },
            not_before: Some(Timestamp::new(100)),
            before: Some(Timestamp::new(200)),
        }],
        rewrites: vec![IdRewrite {
            from: "KOLD".to_string(),
            to: "KNEW".to_string(),
            models: ModelSet { gfs: true, nam: true, nam4km: true },
            not_before: Timestamp::new(150),
        }],
    };
    assert!(!source.invalid_combination("kxyz", Model::GFS, Timestamp::new(99)));
    assert!(source.invalid_combination("kxyz", Model::GFS, Timestamp::new(100)));
    assert!(source.invalid_combination("KXYZ", Model::GFS, Timestamp::new(199)));
    assert!(!source.invalid_combination("kxyz", Model::GFS, Timestamp::new(200)));
    assert!(!source.invalid_combination("kxyz", Model::NAM, Timestamp::new(150)));
    assert!(!source.invalid_combination("kabc", Model::GFS, Timestamp::new(150)));
    assert!(source.gaps[0].covers("kxyz", Model::GFS, Timestamp::new(150)));
    assert!(!source.gaps[0].covers("kxyz", Model::NAM4KM, Timestamp::new(150)));
    assert_eq!(
        source.fix_known_issues_with_site_mismatch_in_url_and_in_the_file(
            "KOLD".to_string(),
            Model::NAM,
            Timestamp::new(150)
        ),
        "KNEW"
    );
    assert_eq!(
        source.fix_known_issues_with_site_mismatch_in_url_and_in_the_file(
            "KOLD".to_string(),
            Model::NAM,
            Timestamp::new(149)
        ),
        "KOLD"
    );
    assert_eq!(
        source.fix_known_issues_with_site_mismatch_in_url_and_in_the_file(
            "kold".to_string(),
            Model::NAM,
            Timestamp::new(150)
        ),
        "KNEW"
    );
    let empty = IowaState { gaps: vec![], rewrites: vec![] };
    assert!(!empty.invalid_combination("bam", Model::NAM, Timestamp::new(0)));
    assert_eq!(
        empty.fix_known_issues_with_site_mismatch_in_url_and_in_the_file(
            "KLDN".to_string(),
            Model::NAM,
            hour(2022, 1, 1, 0)
        ),
        "KLDN"
    );
}

#[test]
fn site_that_upstream_renamed() {
    let source = IowaState::new();
    let fix = |site: &str, model: Model, init_time: Timestamp| {
        source.fix_known_issues_with_site_mismatch_in_url_and_in_the_file(
            site.to_string(),
            model,
            init_time,
        )
    };
    let nam = hour(2020, 5, 1, 0);
    assert_eq!(fix("KLDN", Model::NAM, nam), "KDLN");
    assert_eq!(fix("KLDN", Model::NAM4KM, nam), "KDLN");
    assert_eq!(fix("KLDN", Model::NAM, second_before(nam)), "KLDN");
    assert_eq!(fix("KLDN", Model::GFS, nam), "KLDN");
    let gfs = hour(2021, 3, 22, 18);
    assert_eq!(fix("KLDN", Model::GFS, gfs), "KDLN");
    assert_eq!(fix("KLDN", Model::GFS, second_before(gfs)), "KLDN");
    assert_eq!(fix("kldn", Model::GFS, gfs), "KDLN");
    assert_eq!(fix("Kldn", Model::NAM, nam), "KDLN");
    assert_eq!(fix("kldn", Model::GFS, second_before(gfs)), "kldn");
    assert_eq!(source.rewrite("anything".to_string(), "KLDN", Model::GFS, gfs), "KDLN");
    assert_eq!(source.rewrite("KLDN".to_string(), "kldn", Model::GFS, gfs), "KLDN");
    assert_eq!(fix("KMSO", Model::GFS, gfs), "KMSO");
}

#[test]
fn url_of_a_file() {
    assert_eq!(
        IowaState::build_url("KMSO", Model::GFS, &civil(2020, 1, 1, 0)),
        "http://mtarchive.geol.iastate.edu/2020/01/01/bufkit/00/gfs/gfs3_kmso.buf"
    );
    assert_eq!(
        IowaState::build_url("kord", Model::NAM, &civil(2019, 11, 30, 6)),
        "http://mtarchive.geol.iastate.edu/2019/11/30/bufkit/06/nam/namm_kord.buf"
    );
    assert_eq!(
        IowaState::build_url("kord", Model::NAM, &civil(2019, 11, 30, 18)),
        "http://mtarchive.geol.iastate.edu/2019/11/30/bufkit/18/nam/namm_kord.buf"
    );
    assert_eq!(
        IowaState::build_url("kord", Model::NAM, &civil(2019, 11, 30, 12)),
        "http://mtarchive.geol.iastate.edu/2019/11/30/bufkit/12/nam/nam_kord.buf"
    );
    assert_eq!(
        IowaState::build_url("Katl", Model::NAM4KM, &civil(2021, 3, 2, 18)),
        "http://mtarchive.geol.iastate.edu/2021/03/02/bufkit/18/nam4km/nam4km_katl.buf"
    );
    assert_eq!(
        IowaState::url_of("KMSO", Model::GFS, &civil(987, 1, 1, 0)),
        "http://mtarchive.geol.iastate.edu/987/01/01/bufkit/00/gfs/gfs3_KMSO.buf"
    );
    assert_eq!(
        IowaState::url_of("x", Model::GFS, &civil(-5, 12, 31, 23)),
        "http://mtarchive.geol.iastate.edu/-5/12/31/bufkit/23/gfs/gfs3_x.buf"
    );
}

#[test]
fn request_for_a_file() {
    let source = IowaState::new();
    let init_time = hour(2020, 1, 1, 0);
    let station = Some(StationNumber::new(727730));
    let req = source.build_req_info("kmso".to_string(), station, Model::GFS, init_time).unwrap();
    assert_eq!(req.site_id, "kmso");
    assert_eq!(req.site, station);
    assert_eq!(req.model, Model::GFS);
    assert_eq!(req.init_time, init_time);
    assert_eq!(
        req.url,
        "http://mtarchive.geol.iastate.edu/2020/01/01/bufkit/00/gfs/gfs3_kmso.buf"
    );
}

#[test]
fn request_for_a_renamed_site() {
    let source = IowaState::new();
    let init_time = hour(2021, 6, 1, 12);
    let req = source.build_req_info("KLDN".to_string(), None, Model::NAM, init_time).unwrap();
    assert_eq!(req.site_id, "KDLN");
    assert_eq!(req.site, None);
    assert_eq!(
        req.url,
        "http://mtarchive.geol.iastate.edu/2021/06/01/bufkit/12/nam/nam_kdln.buf"
    );
}

#[test]
fn no_request_for_a_known_gap() {
    let source = IowaState::new();
    assert!(source
        .build_req_info("bam".to_string(), None, Model::NAM, hour(2020, 1, 1, 0))
        .is_none());
    assert!(source
        .build_req_info("kmso".to_string(), None, Model::GFS, hour(2010, 12, 31, 18))
        .is_none());
    assert!(source
        .build_req_info("kmso".to_string(), None, Model::GFS, hour(2011, 1, 1, 0))
        .is_some());
}

#[test]
fn no_request_for_a_time_without_a_date() {
    let source = IowaState { gaps: vec![], rewrites: vec![] };
    assert!(source
        .build_req_info("kmso".to_string(), None, Model::GFS, Timestamp::new(i64::MAX))
        .is_none());
}

#[test]
fn first_source_that_has_the_file_is_used() {
    let closed = IowaState {
        gaps: vec![GapRule {
            sites: vec![],
            models: ModelSet { gfs: true, nam: true, nam4km: true },
            not_before: None,
            before: None,
        }],
        rewrites: vec![],
    };
    let renaming = IowaState {
        gaps: vec![],
        rewrites: vec![IdRewrite {
            from: "KMSO".to_string(),
            to: "kxyz".to_string(),
            models: ModelSet { gfs: true, nam: true, nam4km: true },
            not_before: Timestamp::new(0),
        }],
    };
    let plain = IowaState { gaps: vec![], rewrites: vec![] };
    let init_time = hour(2020, 1, 1, 0);

    let sources = vec![closed.clone(), renaming.clone(), plain.clone()];
    let req = first_request(&sources, "kmso", None, Model::GFS, init_time).unwrap();
    assert_eq!(req.site_id, "kxyz");
    assert_eq!(
        req.url,
        "http://mtarchive.geol.iastate.edu/2020/01/01/bufkit/00/gfs/gfs3_kxyz.buf"
    );

    let sources = vec![plain.clone(), renaming.clone()];
    let req = first_request(&sources, "kmso", None, Model::GFS, init_time).unwrap();
    assert_eq!(req.site_id, "kmso");

    let sources = vec![closed.clone(), closed.clone()];
    assert!(first_request(&sources, "kmso", None, Model::GFS, init_time).is_none());
    assert!(first_request(&Vec::<IowaState>::new(), "kmso", None, Model::GFS, init_time).is_none());
}

#[test]
fn sets_of_models() {
    let set = ModelSet { gfs: true, nam: false, nam4km: true };
    assert!(set.has(Model::GFS));
    assert!(!set.has(Model::NAM));
    assert!(set.has(Model::NAM4KM));
}
