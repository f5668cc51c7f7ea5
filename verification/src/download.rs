//! The download pipeline: what each stage makes of the message it is handed.
//!
//! The stages run in threads of their own and do the fetching, the archive calls and the
//! printing there. What they decide stands here, as functions from the message and the outcome
//! of the outside work to the next message.

use crate::site::StationNumber;
use crate::sources::ReqInfo;
use crate::text::{
    centered, decimal, push_centered, push_decimal, push_right_aligned, right_aligned,
};
use crate::time::Timestamp;
use crate::util::StrErr;
use vstd::prelude::*;
use vstd::string::*;

verus! {

/// The capacity of the channels between the stages.
pub const CAPACITY: usize = 16;

/// The number of fetching threads.
pub const DOWNLOAD_THREADS: usize = 3;

/// The most requests that one run of the generator emits.
pub const MAX_REQUESTS: usize = 1000;

/// The age in hours from which a file that upstream does not hold is taken as missing for good.
pub const HOURS_UNTIL_MISSING: i64 = 27;

/// The message that a stage of the pipeline hands to the next.
#[derive(Clone, Debug)]
pub enum StepResult {
    /// A file is wanted.
    Request(ReqInfo),
    /// The file was fetched; its text is not parsed yet.
    BufkitFileAsString(ReqInfo, String),
    /// The file is in the archive.
    Success(ReqInfo),
    /// The site identifier belongs to another station than the archive had it for.
    StationIdMoved { info: ReqInfo, old: StationNumber, new: StationNumber },
    /// Upstream answered 404.
    URLNotFound(ReqInfo),
    /// Upstream answered with a status other than 200 and 404.
    OtherURLStatus(ReqInfo, u16),
    /// The request or the reading of its answer failed.
    OtherDownloadError(ReqInfo, String),
    /// The text is no forecast file, or not the one that was asked for.
    ParseError(ReqInfo, String),
    /// The archive could not take the file.
    ArchiveError(ReqInfo, String),
    /// The station number in the file is not the one that was expected.
    StationMovedError(ReqInfo),
    /// The catalogue of missing URLs could not be used.
    MissingUrlDbError(ReqInfo, String),
    /// A stage could not start.
    InitializationError(String),
}

/// The HTTP status with its reason phrase, as `reqwest::StatusCode` shows it.
pub uninterp spec fn status_text_of(code: u16) -> Seq<char>;

/// The HTTP status with its reason phrase, by `reqwest::StatusCode::from_u16` and its
/// `Display`.
///
/// Trusted: a status code is one of 100 to 999, and its text depends on the code alone.
#[verifier::external_body]
fn http_status_text(code: u16) -> (text: Option<String>)
    ensures
        text.is_some() <==> 100 <= code <= 999,
        text matches Some(t) ==> t@ == status_text_of(code),
{
    match reqwest::StatusCode::from_u16(code) {
        Ok(status) => Some(status.to_string()),
        Err(_) => None,
    }
}

/// What came of an HTTP request.
#[derive(Debug)]
pub enum HttpReply {
    /// Upstream answered. `body` is the text of the answer, or why it could not be read; it
    /// counts only where `status` is 200.
    Answered { status: u16, body: Result<String, String> },
    /// No answer came.
    Failed(String),
}

/// The message that the fetching stage makes of a request and of what came of it: the file
/// for a status 200 whose body could be read, "not found" for 404, the status for every other
/// one, and a download error where no answer came or the body could not be read.
pub open spec fn fetched(req: ReqInfo, reply: HttpReply) -> StepResult {
    match reply {
        HttpReply::Failed(why) => StepResult::OtherDownloadError(req, why),
        HttpReply::Answered { status, body } => if status == 200 {
            match body {
                Ok(text) => StepResult::BufkitFileAsString(req, text),
                Err(why) => StepResult::OtherDownloadError(req, why),
            }
        } else if status == 404 {
            StepResult::URLNotFound(req)
        } else {
            StepResult::OtherURLStatus(req, status)
        },
    }
}

/// The message that the fetching stage makes of a request and of what came of it.
pub fn classify_response(req: ReqInfo, reply: HttpReply) -> (next: StepResult)
    ensures
        next == fetched(req, reply),
{
    match reply {
        HttpReply::Failed(why) => StepResult::OtherDownloadError(req, why),
        HttpReply::Answered { status, body } => {
            if status == 200 {
                match body {
                    Ok(text) => StepResult::BufkitFileAsString(req, text),
                    Err(why) => StepResult::OtherDownloadError(req, why),
                }
            } else if status == 404 {
                StepResult::URLNotFound(req)
            } else {
                StepResult::OtherURLStatus(req, status)
            }
        },
    }
}

/// Whether `span` is what a fetched file says of its run. `valid_times` are the valid times of
/// its analyses, in their order, as far as they are given. The run is initialized at the first
/// of them and ends at the last. A file without analyses is an error, and so is one whose first
/// or last analysis does not say when it is valid.
pub open spec fn spans(
    valid_times: Seq<Option<Timestamp>>,
    span: Result<(Timestamp, Timestamp), StrErr>,
) -> bool {
    if valid_times.len() == 0 {
        span matches Err(err) && err.msg@ == "No soundings in file"@
    } else if valid_times[0].is_none() || valid_times.last().is_none() {
        span matches Err(err) && err.msg@ == "Missing valid time"@
    } else {
        span matches Ok(ends) && valid_times[0] == Some(ends.0) && valid_times.last() == Some(
            ends.1,
        )
    }
}

/// The initialization time and the end of the run of a fetched file, by the valid times of its
/// analyses.
pub fn file_span(
    valid_times: &Vec<Option<Timestamp>>,
) -> (span: Result<(Timestamp, Timestamp), StrErr>)
    ensures
        spans(valid_times@, span),
{
    if valid_times.len() == 0 {
        return Err(StrErr { msg: "No soundings in file" });
    }
    match (valid_times[0], valid_times[valid_times.len() - 1]) {
        (Some(first), Some(last)) => Ok((first, last)),
        _ => Err(StrErr { msg: "Missing valid time" }),
    }
}

/// What the archive answered when it was asked to add a file.
#[derive(Clone, Debug)]
pub enum AddOutcome {
    /// The file is in the archive.
    Added,
    /// The file is in the archive; it names another site identifier than the request. Upstream
    /// is known to hold such files.
    MismatchedIds,
    /// The text could not be parsed.
    ParseError(String),
    /// The file was made for another initialization time than the one asked for.
    MismatchedInitializationTimes { hint: Timestamp, parsed: Timestamp },
    /// The site identifier is bound to station `old`, and the file is of station `new`.
    IdMovedStation { old: StationNumber, new: StationNumber },
    /// The archive failed.
    ArchiveError(String),
}

/// What is said of an initialization time that is not the one asked for.
pub open spec fn mismatch_text(hint: Timestamp, parsed: Timestamp) -> Seq<char> {
    "requested "@ + hint.text() + ", parsed "@ + parsed.text()
}

/// Whether `next` is what the persisting stage makes of a fetched file and of the archive's
/// answer: success where the file is in the archive, and otherwise the error that names why
/// it is not.
pub open spec fn persisted(req: ReqInfo, outcome: AddOutcome, next: StepResult) -> bool {
    match outcome {
        AddOutcome::Added => next == StepResult::Success(req),
        AddOutcome::MismatchedIds => next == StepResult::Success(req),
        AddOutcome::ParseError(why) => next == StepResult::ParseError(req, why),
        AddOutcome::MismatchedInitializationTimes { hint, parsed } => {
            &&& next matches StepResult::ParseError(r, why)
            &&& r == req
            &&& why@ == mismatch_text(hint, parsed)
        },
        AddOutcome::IdMovedStation { old, new } => next == (StepResult::StationIdMoved {
            info: req,
            old,
            new,
        }),
        AddOutcome::ArchiveError(why) => next == StepResult::ArchiveError(req, why),
    }
}

/// The message that the persisting stage makes of a fetched file and of the archive's answer.
pub fn persist_result(req: ReqInfo, outcome: AddOutcome) -> (next: StepResult)
    ensures
        persisted(req, outcome, next),
{
    match outcome {
        AddOutcome::Added => StepResult::Success(req),
        AddOutcome::MismatchedIds => StepResult::Success(req),
        AddOutcome::ParseError(why) => StepResult::ParseError(req, why),
        AddOutcome::MismatchedInitializationTimes { hint, parsed } => {
            let mut why = "requested ".to_owned();
            let hint_text = hint.to_text();
            why.append(hint_text.as_str());
            why.append(", parsed ");
            let parsed_text = parsed.to_text();
            why.append(parsed_text.as_str());
            assert(why@ =~= mismatch_text(hint, parsed));
            StepResult::ParseError(req, why)
        },
        AddOutcome::IdMovedStation { old, new } => StepResult::StationIdMoved {
            info: req,
            old,
            new,
        },
        AddOutcome::ArchiveError(why) => StepResult::ArchiveError(req, why),
    }
}

impl StepResult {
    /// Whether the message carries a fetched file, which the persisting stage hands to the
    /// archive. Every other message passes that stage unchanged.
    pub open spec fn is_fetched_file(&self) -> bool {
        self matches StepResult::BufkitFileAsString(_, _)
    }

    /// Whether the message is a request, which the fetching stage works on. Every other
    /// message passes that stage unchanged.
    pub open spec fn is_request(&self) -> bool {
        self matches StepResult::Request(_)
    }

    /// The request of a message for the fetching stage, or the message itself where it is to
    /// pass unchanged.
    pub fn into_request(self) -> (split: Result<ReqInfo, StepResult>)
        ensures
            match split {
                Ok(req) => self == StepResult::Request(req),
                Err(other) => other == self && !self.is_request(),
            },
    {
        match self {
            StepResult::Request(req) => Ok(req),
            other => Err(other),
        }
    }

    /// The request and the text of a message for the persisting stage, or the message itself
    /// where it is to pass unchanged.
    pub fn into_fetched_file(self) -> (split: Result<(ReqInfo, String), StepResult>)
        ensures
            match split {
                Ok((req, text)) => self == StepResult::BufkitFileAsString(req, text),
                Err(other) => other == self && !self.is_fetched_file(),
            },
    {
        match self {
            StepResult::BufkitFileAsString(req, text) => Ok((req, text)),
            other => Err(other),
        }
    }

    /// Whether the message is one of the errors after which the file may be missing upstream
    /// for good: not found, corrupt, not downloaded, or not taken by the archive.
    pub open spec fn is_missing_data_error(&self) -> bool {
        match self {
            StepResult::URLNotFound(_) => true,
            StepResult::ParseError(_, _) => true,
            StepResult::OtherDownloadError(_, _) => true,
            StepResult::ArchiveError(_, _) => true,
            _ => false,
        }
    }

    /// The request that the message is about; the message of a stage that could not start is
    /// about none.
    pub open spec fn request(&self) -> Option<ReqInfo> {
        match self {
            StepResult::Request(req) => Some(*req),
            StepResult::BufkitFileAsString(req, _) => Some(*req),
            StepResult::Success(req) => Some(*req),
            StepResult::StationIdMoved { info, .. } => Some(*info),
            StepResult::URLNotFound(req) => Some(*req),
            StepResult::OtherURLStatus(req, _) => Some(*req),
            StepResult::OtherDownloadError(req, _) => Some(*req),
            StepResult::ParseError(req, _) => Some(*req),
            StepResult::ArchiveError(req, _) => Some(*req),
            StepResult::StationMovedError(req) => Some(*req),
            StepResult::MissingUrlDbError(req, _) => Some(*req),
            StepResult::InitializationError(_) => None,
        }
    }
}

/// The instant before which a file that upstream does not hold is taken as missing for good:
/// 27 hours before `now`. `None` where that instant cannot be counted.
pub fn too_old_to_be_missing(now: Timestamp) -> (cutoff: Option<Timestamp>)
    ensures
        cutoff.is_some() <==> now.secs - 27 * 3600 >= i64::MIN,
        cutoff matches Some(c) ==> c.secs == now.secs - 27 * 3600,
{
    now.checked_add_hours(-HOURS_UNTIL_MISSING)
}

/// What the reporting stage does with a message: the line it prints, and the URL it records
/// as missing upstream, if any.
#[derive(Clone, Debug)]
pub struct Report {
    pub line: String,
    pub missing_url: Option<String>,
}

/// The line that is printed for an error after which the file may be missing for good.
pub open spec fn missing_data_line(res: StepResult, too_old: Timestamp) -> Seq<char> {
    match res {
        StepResult::ArchiveError(_, why) => "  "@ + why@,
        StepResult::OtherDownloadError(_, why) => "  "@ + why@,
        StepResult::ParseError(req, why) => "Corrupt file at URL ("@ + why@ + "): "@ + req.url@,
        StepResult::URLNotFound(req) => if req.init_time.secs < too_old.secs {
            "URL missing, will not try again: "@ + req.url@
        } else {
            "Try again later: "@ + req.url@
        },
        _ => Seq::empty(),
    }
}

/// Whether `report` is what follows from an error after which the file may be missing for
/// good: its line, and the URL as missing exactly where the initialization time is older than
/// `too_old`.
pub open spec fn reports_missing_data(res: StepResult, too_old: Timestamp, report: Report) -> bool {
    &&& report.line@ == missing_data_line(res, too_old)
    &&& res.request() matches Some(req) && (if req.init_time.secs < too_old.secs {
        report.missing_url matches Some(url) && url@ == req.url@
    } else {
        report.missing_url.is_none()
    })
}

/// What the reporting stage does with an error after which the file may be missing upstream
/// for good. The URL is recorded as missing only where the initialization time is older than
/// `too_old_to_be_missing`: a younger file may still appear upstream.
pub fn handle_error_as_missing_data(
    res: &StepResult,
    too_old_to_be_missing: Timestamp,
) -> (report: Report)
    requires
        res.is_missing_data_error(),
    ensures
        reports_missing_data(*res, too_old_to_be_missing, report),
{
    let mut line = String::new();
    let (url, init_time) = match res {
        StepResult::ArchiveError(req, why) => {
            line.append("  ");
            line.append(why.as_str());
            (&req.url, req.init_time)
        },
        StepResult::OtherDownloadError(req, why) => {
            line.append("  ");
            line.append(why.as_str());
            (&req.url, req.init_time)
        },
        StepResult::ParseError(req, why) => {
            line.append("Corrupt file at URL (");
            line.append(why.as_str());
            line.append("): ");
            line.append(req.url.as_str());
            (&req.url, req.init_time)
        },
        StepResult::URLNotFound(req) => {
            if req.init_time.secs < too_old_to_be_missing.secs {
                line.append("URL missing, will not try again: ");
            } else {
                line.append("Try again later: ");
            }
            line.append(req.url.as_str());
            (&req.url, req.init_time)
        },
        _ => {
            assert(false);
            return Report { line, missing_url: None };
        },
    };
    assert(line@ =~= missing_data_line(*res, too_old_to_be_missing));
    let missing_url = if init_time.secs < too_old_to_be_missing.secs {
        Some(url.clone())
    } else {
        None
    };
    Report { line, missing_url }
}

/// The HTTP status as it is shown: with its reason phrase where it is a status code, and as a
/// bare number otherwise.
pub open spec fn shown_status(code: u16) -> Seq<char> {
    if 100 <= code <= 999 {
        status_text_of(code)
    } else {
        decimal(code as nat)
    }
}

/// The line that is printed for a status that is neither 200 nor 404.
pub open spec fn status_line(status: Seq<char>, url: Seq<char>) -> Seq<char> {
    "  HTTP error ("@ + status + "): "@ + url + "."@
}

/// The line that is printed for a status that is neither 200 nor 404; `status` is the status
/// as it is to be shown.
pub fn http_error_line(status: &str, url: &str) -> (line: String)
    ensures
        line@ == status_line(status@, url@),
{
    let mut line = "  HTTP error (".to_owned();
    line.append(status);
    line.append("): ");
    line.append(url);
    line.append(".");
    assert(line@ =~= status_line(status@, url@));
    line
}

/// The line that is printed for a message that is no error after which the file may be missing
/// for good, and no message of an earlier stage.
pub open spec fn plain_line(res: StepResult) -> Seq<char> {
    match res {
        StepResult::OtherURLStatus(req, code) => status_line(shown_status(code), req.url@),
        StepResult::Success(req) => "Success for "@ + right_aligned(req.site_id@, 4) + " "@
            + centered(req.model.display_name(), 6) + " "@ + req.init_time.text() + "."@,
        StepResult::StationIdMoved { info, old, new } => "Station moved for "@ + info.site_id@
            + ": "@ + decimal(old.num as nat) + " -> "@ + decimal(new.num as nat),
        StepResult::StationMovedError(req) => "Unexpected station number in the file of "@
            + req.url@,
        StepResult::MissingUrlDbError(_, why) => "  "@ + why@,
        StepResult::InitializationError(why) => "Error initializing threads: "@ + why@,
        _ => Seq::empty(),
    }
}

/// Whether `report` is what the reporting stage does with a message: nothing for the messages
/// of the earlier stages, which never reach it, and for the others a line and, after an error
/// that may mean the file is missing for good, the URL to record.
pub open spec fn reported(res: StepResult, too_old: Timestamp, report: Option<Report>) -> bool {
    if res.is_request() || res.is_fetched_file() {
        report.is_none()
    } else if res.is_missing_data_error() {
        report matches Some(r) && reports_missing_data(res, too_old, r)
    } else {
        report matches Some(r) && r.line@ == plain_line(res) && r.missing_url.is_none()
    }
}

/// What the reporting stage does with a message.
pub fn report(res: &StepResult, too_old_to_be_missing: Timestamp) -> (report: Option<Report>)
    ensures
        reported(*res, too_old_to_be_missing, report),
{
    let mut line = String::new();
    match res {
        StepResult::Request(_) => {
            return None;
        },
        StepResult::BufkitFileAsString(_, _) => {
            return None;
        },
        StepResult::URLNotFound(_) => {
            return Some(handle_error_as_missing_data(res, too_old_to_be_missing));
        },
        StepResult::ParseError(_, _) => {
            return Some(handle_error_as_missing_data(res, too_old_to_be_missing));
        },
        StepResult::OtherDownloadError(_, _) => {
            return Some(handle_error_as_missing_data(res, too_old_to_be_missing));
        },
        StepResult::ArchiveError(_, _) => {
            return Some(handle_error_as_missing_data(res, too_old_to_be_missing));
        },
        StepResult::OtherURLStatus(req, code) => {
            let status = match http_status_text(*code) {
                Some(text) => text,
                None => {
                    let mut number = String::new();
                    push_decimal(&mut number, *code as u64);
                    assert(number@ =~= decimal(*code as nat));
                    number
                },
            };
            line = http_error_line(status.as_str(), req.url.as_str());
        },
        StepResult::Success(req) => {
            line.append("Success for ");
            push_right_aligned(&mut line, req.site_id.as_str(), 4);
            line.append(" ");
            push_centered(&mut line, req.model.display_str(), 6);
            line.append(" ");
            let when = req.init_time.to_text();
            line.append(when.as_str());
            line.append(".");
        },
        StepResult::StationIdMoved { info, old, new } => {
            line.append("Station moved for ");
            line.append(info.site_id.as_str());
            line.append(": ");
            push_decimal(&mut line, old.num as u64);
            line.append(" -> ");
            push_decimal(&mut line, new.num as u64);
        },
        StepResult::StationMovedError(req) => {
            line.append("Unexpected station number in the file of ");
            line.append(req.url.as_str());
        },
        StepResult::MissingUrlDbError(_, why) => {
            line.append("  ");
            line.append(why.as_str());
        },
        StepResult::InitializationError(why) => {
            line.append("Error initializing threads: ");
            line.append(why.as_str());
        },
    }
    assert(line@ =~= plain_line(*res));
    Some(Report { line, missing_url: None })
}

/// Isolation of the files in the persisting stage. Of the fetched files `reqs`, the archive
/// cannot parse the one at `bad` and takes all the others; `results` is what the stage makes
/// of each. Then there is one result for each file; that of the file at `bad` is a parse error
/// about that file, and that of every other file is the success of that very file: none is
/// lost and none is taken for another.
pub proof fn lemma_one_bad_file_fails_alone(
    reqs: Seq<ReqInfo>,
    outcomes: Seq<AddOutcome>,
    results: Seq<StepResult>,
    bad: int,
)
    requires
        reqs.len() == outcomes.len(),
        reqs.len() == results.len(),
        forall|i: int|
            0 <= i < reqs.len() ==> persisted(reqs[i], outcomes[i], #[trigger] results[i]),
        0 <= bad < reqs.len(),
        outcomes[bad] is ParseError,
        forall|i: int| 0 <= i < reqs.len() && i != bad ==> #[trigger] outcomes[i] is Added,
    ensures
        results[bad] matches StepResult::ParseError(req, _) && req == reqs[bad],
        forall|i: int|
            0 <= i < reqs.len() && i != bad ==> #[trigger] results[i] == StepResult::Success(
                reqs[i],
            ),
{
    assert(persisted(reqs[bad], outcomes[bad], results[bad]));
    assert forall|i: int| 0 <= i < reqs.len() && i != bad implies #[trigger] results[i]
        == StepResult::Success(reqs[i]) by {
        assert(outcomes[i] is Added);
        assert(persisted(reqs[i], outcomes[i], results[i]));
    }
}

} // verus!
