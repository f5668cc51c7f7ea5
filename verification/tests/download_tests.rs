use bfkmd::download::{
    classify_response, file_span, handle_error_as_missing_data, http_error_line, persist_result,
    report, too_old_to_be_missing, AddOutcome, HttpReply, StepResult,
};
use bfkmd::model::Model;
use bfkmd::site::StationNumber;
use bfkmd::sources::ReqInfo;
use bfkmd::time::Timestamp;

const NOW: i64 = 1_600_000_000;

fn request(age_hours: i64) -> ReqInfo {
    ReqInfo {
        site_id: "kmso".to_string(),
        site: Some(StationNumber::new(727730)),
        model: Model::GFS,
        init_time: Timestamp::new(NOW - age_hours * 3600),
        url: format!("http://host/{}.buf", age_hours),
    }
}

fn same_request(left: &ReqInfo, right: &ReqInfo) -> bool {
    left.site_id == right.site_id
        && left.site == right.site
        && left.model == right.model
        && left.init_time == right.init_time
        && left.url == right.url
}

fn cutoff() -> Timestamp {
    too_old_to_be_missing(Timestamp::new(NOW)).unwrap()
}

#[test]
fn files_older_than_27_hours_are_missing_for_good() {
    assert_eq!(cutoff(), Timestamp::new(NOW - 27 * 3600));
    assert_eq!(too_old_to_be_missing(Timestamp::new(i64::MIN + 97199)), None);
    assert_eq!(
        too_old_to_be_missing(Timestamp::new(i64::MIN + 97200)),
        Some(Timestamp::new(i64::MIN))
    );
}

#[test]
fn status_200_is_a_file() {
    let reply = HttpReply::Answered { status: 200, body: Ok("STID = KMSO".to_string()) };
    match classify_response(request(1), reply) {
        StepResult::BufkitFileAsString(req, body) => {
            assert!(same_request(&req, &request(1)));
            assert_eq!(body, "STID = KMSO");
        }
        other => panic!("{:?}", other),
    }
}

#[test]
fn status_200_with_a_body_that_cannot_be_read() {
    let reply = HttpReply::Answered { status: 200, body: Err("broken pipe".to_string()) };
    match classify_response(request(1), reply) {
        StepResult::OtherDownloadError(req, why) => {
            assert!(same_request(&req, &request(1)));
            assert_eq!(why, "broken pipe");
        }
        other => panic!("{:?}", other),
    }
}

#[test]
fn status_404_is_not_found() {
    let reply = HttpReply::Answered { status: 404, body: Ok("not found".to_string()) };
    match classify_response(request(1), reply) {
        StepResult::URLNotFound(req) => assert!(same_request(&req, &request(1))),
        other => panic!("{:?}", other),
    }
}

#[test]
fn other_statuses_are_reported() {
    for status in [500u16, 201, 301, 403, 0, 999] {
        let reply = HttpReply::Answered { status, body: Ok("a body".to_string()) };
        match classify_response(request(1), reply) {
            StepResult::OtherURLStatus(req, code) => {
                assert!(same_request(&req, &request(1)));
                assert_eq!(code, status);
            }
            other => panic!("{:?}", other),
        }
    }
}

#[test]
fn no_answer_is_a_download_error() {
    match classify_response(request(1), HttpReply::Failed("connection refused".to_string())) {
        StepResult::OtherDownloadError(req, why) => {
            assert!(same_request(&req, &request(1)));
            assert_eq!(why, "connection refused");
        }
        other => panic!("{:?}", other),
    }
}

#[test]
fn only_requests_are_fetched() {
    assert!(StepResult::Request(request(1)).into_request().is_ok());
    match StepResult::Success(request(1)).into_request() {
        Err(StepResult::Success(req)) => assert!(same_request(&req, &request(1))),
        other => panic!("{:?}", other),
    }
    match StepResult::InitializationError("no".to_string()).into_request() {
        Err(StepResult::InitializationError(why)) => assert_eq!(why, "no"),
        other => panic!("{:?}", other),
    }
}

#[test]
fn only_fetched_files_are_persisted() {
    match StepResult::BufkitFileAsString(request(1), "text".to_string()).into_fetched_file() {
        Ok((req, text)) => {
            assert!(same_request(&req, &request(1)));
            assert_eq!(text, "text");
        }
        other => panic!("{:?}", other),
    }
    match StepResult::URLNotFound(request(2)).into_fetched_file() {
        Err(StepResult::URLNotFound(req)) => assert!(same_request(&req, &request(2))),
        other => panic!("{:?}", other),
    }
}

#[test]
fn run_of_a_fetched_file() {
    let t = |secs: i64| Some(Timestamp::new(secs));
    assert_eq!(
        file_span(&vec![t(0), None, t(7200)]).unwrap(),
        (Timestamp::new(0), Timestamp::new(7200))
    );
    assert_eq!(file_span(&vec![t(5)]).unwrap(), (Timestamp::new(5), Timestamp::new(5)));
    assert_eq!(file_span(&vec![]).unwrap_err().msg, "No soundings in file");
    assert_eq!(file_span(&vec![None, t(1)]).unwrap_err().msg, "Missing valid time");
    assert_eq!(file_span(&vec![t(1), None]).unwrap_err().msg, "Missing valid time");
    assert_eq!(file_span(&vec![None]).unwrap_err().msg, "Missing valid time");
}

#[test]
fn added_file_is_a_success() {
    match persist_result(request(1), AddOutcome::Added) {
        StepResult::Success(req) => assert!(same_request(&req, &request(1))),
        other => panic!("{:?}", other),
    }
    match persist_result(request(1), AddOutcome::MismatchedIds) {
        StepResult::Success(req) => assert!(same_request(&req, &request(1))),
        other => panic!("{:?}", other),
    }
}

#[test]
fn file_that_cannot_be_parsed() {
    match persist_result(request(1), AddOutcome::ParseError("no soundings".to_string())) {
        StepResult::ParseError(req, why) => {
            assert!(same_request(&req, &request(1)));
            assert_eq!(why, "no soundings");
        }
        other => panic!("{:?}", other),
    }
}

#[test]
fn file_of_another_run() {
    let outcome = AddOutcome::MismatchedInitializationTimes {
        hint: Timestamp::new(1577836800),
        parsed: Timestamp::new(1577858400),
    };
    match persist_result(request(1), outcome) {
        StepResult::ParseError(req, why) => {
            assert!(same_request(&req, &request(1)));
            assert_eq!(why, "requested 2020-01-01 00:00:00, parsed 2020-01-01 06:00:00");
        }
        other => panic!("{:?}", other),
    }
}

#[test]
fn file_of_another_station() {
    let outcome =
        AddOutcome::IdMovedStation { old: StationNumber::new(1), new: StationNumber::new(2) };
    match persist_result(request(1), outcome) {
        StepResult::StationIdMoved { info, old, new } => {
            assert!(same_request(&info, &request(1)));
            assert_eq!(old, StationNumber::new(1));
            assert_eq!(new, StationNumber::new(2));
        }
        other => panic!("{:?}", other),
    }
}

#[test]
fn file_that_the_archive_cannot_take() {
    match persist_result(request(1), AddOutcome::ArchiveError("disk full".to_string())) {
        StepResult::ArchiveError(req, why) => {
            assert!(same_request(&req, &request(1)));
            assert_eq!(why, "disk full");
        }
        other => panic!("{:?}", other),
    }
}

#[test]
fn one_bad_file_among_good_ones() {
    let mut successes = 0;
    let mut errors = 0;
    for age in 0..10 {
        let outcome = if age == 4 {
            AddOutcome::ParseError("garbage".to_string())
        } else {
            AddOutcome::Added
        };
        match persist_result(request(age), outcome) {
            StepResult::Success(req) => {
                assert!(same_request(&req, &request(age)));
                successes += 1;
            }
            StepResult::ParseError(req, why) => {
                assert!(same_request(&req, &request(4)));
                assert_eq!(why, "garbage");
                errors += 1;
            }
            other => panic!("{:?}", other),
        }
    }
    assert_eq!(successes, 9);
    assert_eq!(errors, 1);
}

#[test]
fn old_404_is_recorded() {
    let res = StepResult::URLNotFound(request(72));
    let report = handle_error_as_missing_data(&res, cutoff());
    assert_eq!(report.line, "URL missing, will not try again: http://host/72.buf");
    assert_eq!(report.missing_url, Some("http://host/72.buf".to_string()));
}

#[test]
fn fresh_404_is_tried_again() {
    let res = StepResult::URLNotFound(request(26));
    let report = handle_error_as_missing_data(&res, cutoff());
    assert_eq!(report.line, "Try again later: http://host/26.buf");
    assert_eq!(report.missing_url, None);
}

#[test]
fn age_of_exactly_27_hours_is_not_old_enough() {
    let res = StepResult::URLNotFound(request(27));
    let report = handle_error_as_missing_data(&res, cutoff());
    assert_eq!(report.line, "Try again later: http://host/27.buf");
    assert_eq!(report.missing_url, None);
    let res = StepResult::URLNotFound(request(28));
    assert!(handle_error_as_missing_data(&res, cutoff()).missing_url.is_some());
}

#[test]
fn corrupt_files_are_recorded_when_old() {
    let res = StepResult::ParseError(request(30), "bad header".to_string());
    let report = handle_error_as_missing_data(&res, cutoff());
    assert_eq!(report.line, "Corrupt file at URL (bad header): http://host/30.buf");
    assert_eq!(report.missing_url, Some("http://host/30.buf".to_string()));
    let res = StepResult::ParseError(request(3), "bad header".to_string());
    let report = handle_error_as_missing_data(&res, cutoff());
    assert_eq!(report.line, "Corrupt file at URL (bad header): http://host/3.buf");
    assert_eq!(report.missing_url, None);
}

#[test]
fn other_errors_are_recorded_when_old() {
    let res = StepResult::ArchiveError(request(30), "disk full".to_string());
    let report = handle_error_as_missing_data(&res, cutoff());
    assert_eq!(report.line, "  disk full");
    assert_eq!(report.missing_url, Some("http://host/30.buf".to_string()));
    let res = StepResult::OtherDownloadError(request(3), "timed out".to_string());
    let report = handle_error_as_missing_data(&res, cutoff());
    assert_eq!(report.line, "  timed out");
    assert_eq!(report.missing_url, None);
}

#[test]
fn status_500_is_reported_and_not_recorded() {
    let res = StepResult::OtherURLStatus(request(72), 500);
    let report = report(&res, cutoff()).unwrap();
    assert_eq!(report.line, "  HTTP error (500 Internal Server Error): http://host/72.buf.");
    assert_eq!(report.missing_url, None);
}

#[test]
fn line_of_a_status() {
    assert_eq!(
        http_error_line("503 Service Unavailable", "http://host/a.buf"),
        "  HTTP error (503 Service Unavailable): http://host/a.buf."
    );
    assert_eq!(http_error_line("", ""), "  HTTP error (): .");
}

#[test]
fn status_that_is_no_status_code() {
    let res = StepResult::OtherURLStatus(request(1), 42);
    assert_eq!(report(&res, cutoff()).unwrap().line, "  HTTP error (42): http://host/1.buf.");
    let res = StepResult::OtherURLStatus(request(1), 1000);
    assert_eq!(report(&res, cutoff()).unwrap().line, "  HTTP error (1000): http://host/1.buf.");
    let res = StepResult::OtherURLStatus(request(1), 299);
    assert_eq!(
        report(&res, cutoff()).unwrap().line,
        "  HTTP error (299 <unknown status code>): http://host/1.buf."
    );
}

#[test]
fn success_is_reported() {
    let mut req = request(0);
    req.init_time = Timestamp::new(1577836800);
    let report = report(&StepResult::Success(req), cutoff()).unwrap();
    assert_eq!(report.line, "Success for kmso  GFS   2020-01-01 00:00:00.");
    assert_eq!(report.missing_url, None);
}

#[test]
fn success_of_a_short_site_and_a_long_model() {
    let mut req = request(0);
    req.init_time = Timestamp::new(1577836800);
    req.site_id = "c17".to_string();
    req.model = Model::NAM4KM;
    let report = report(&StepResult::Success(req), cutoff()).unwrap();
    assert_eq!(report.line, "Success for  c17 NAM4KM 2020-01-01 00:00:00.");
}

#[test]
fn reports_of_the_reporter_go_through_the_same_rules() {
    let res = StepResult::URLNotFound(request(72));
    let report = report(&res, cutoff()).unwrap();
    assert_eq!(report.line, "URL missing, will not try again: http://host/72.buf");
    assert_eq!(report.missing_url, Some("http://host/72.buf".to_string()));
}

#[test]
fn other_messages_are_reported() {
    let res = StepResult::InitializationError("no archive".to_string());
    let line = report(&res, cutoff()).unwrap();
    assert_eq!(line.line, "Error initializing threads: no archive");
    assert_eq!(line.missing_url, None);
    let res = StepResult::StationIdMoved {
        info: request(72),
        old: StationNumber::new(727730),
        new: StationNumber::new(727735),
    };
    let line = report(&res, cutoff()).unwrap();
    assert_eq!(line.line, "Station moved for kmso: 727730 -> 727735");
    assert_eq!(line.missing_url, None);
    let res = StepResult::StationMovedError(request(72));
    let line = report(&res, cutoff()).unwrap();
    assert_eq!(line.line, "Unexpected station number in the file of http://host/72.buf");
    assert_eq!(line.missing_url, None);
    let res = StepResult::MissingUrlDbError(request(72), "locked".to_string());
    let line = report(&res, cutoff()).unwrap();
    assert_eq!(line.line, "  locked");
    assert_eq!(line.missing_url, None);
}

#[test]
fn messages_of_earlier_stages_are_not_reported() {
    assert!(report(&StepResult::Request(request(1)), cutoff()).is_none());
    let res = StepResult::BufkitFileAsString(request(1), "text".to_string());
    assert!(report(&res, cutoff()).is_none());
}

#[test]
fn three_urls_one_file_one_missing_one_failing() {
    let replies = vec![
        (request(1), HttpReply::Answered { status: 200, body: Ok("a file".to_string()) }),
        (request(72), HttpReply::Answered { status: 404, body: Ok(String::new()) }),
        (request(2), HttpReply::Answered { status: 500, body: Ok(String::new()) }),
    ];
    let mut added = Vec::new();
    let mut missing = Vec::new();
    let mut lines = Vec::new();
    for (req, reply) in replies {
        let fetched = classify_response(req, reply);
        let persisted = match fetched.into_fetched_file() {
            Ok((req, _text)) => {
                added.push(req.url.clone());
                persist_result(req, AddOutcome::Added)
            }
            Err(other) => other,
        };
        let report = report(&persisted, cutoff()).unwrap();
        if let Some(url) = report.missing_url {
            missing.push(url);
        }
        lines.push(report.line);
    }
    assert_eq!(added, vec!["http://host/1.buf".to_string()]);
    assert_eq!(missing, vec!["http://host/72.buf".to_string()]);
    assert_eq!(lines.len(), 3);
    assert!(lines[0].starts_with("Success for kmso"));
    assert_eq!(lines[1], "URL missing, will not try again: http://host/72.buf");
    assert_eq!(lines[2], "  HTTP error (500 Internal Server Error): http://host/2.buf.");
}
