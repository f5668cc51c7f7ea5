//! The first stage of the download pipeline: which files to ask for, and in which order.

use crate::download::{StepResult, MAX_REQUESTS};
use crate::model::Model;
use crate::ordering::sort_newest_first;
use crate::site::StationNumber;
use crate::sources::ReqInfo;
use crate::time::Timestamp;
use vstd::prelude::*;

verus! {

/// A site under a model, as the generator is to download it.
#[derive(Clone, Debug)]
pub struct SiteModel {
    pub site_id: String,
    pub station: Option<StationNumber>,
    pub model: Model,
}

/// What a `SiteModel` says.
pub struct SiteModelView {
    pub site_id: Seq<char>,
    pub station: Option<StationNumber>,
    pub model: Model,
}

impl View for SiteModel {
    type V = SiteModelView;

    open spec fn view(&self) -> SiteModelView {
        SiteModelView { site_id: self.site_id@, station: self.station, model: self.model }
    }
}

/// A file that may be asked for: a site, a model and an initialization time.
#[derive(Clone, Debug)]
pub struct DownloadCandidate {
    pub site_id: String,
    pub station: Option<StationNumber>,
    pub model: Model,
    pub init_time: Timestamp,
}

/// What a `DownloadCandidate` says.
pub struct CandidateView {
    pub site_id: Seq<char>,
    pub station: Option<StationNumber>,
    pub model: Model,
    pub init_time: Timestamp,
}

impl View for DownloadCandidate {
    type V = CandidateView;

    open spec fn view(&self) -> CandidateView {
        CandidateView {
            site_id: self.site_id@,
            station: self.station,
            model: self.model,
            init_time: self.init_time,
        }
    }
}

/// The views of `list`.
pub open spec fn candidate_views(list: Seq<DownloadCandidate>) -> Seq<CandidateView> {
    Seq::new(list.len(), |i: int| list[i]@)
}

/// The views of `entries`.
pub open spec fn site_model_views(entries: Seq<SiteModel>) -> Seq<SiteModelView> {
    Seq::new(entries.len(), |i: int| entries[i]@)
}

/// Whether no candidate stands before a younger one.
pub open spec fn newest_first(list: Seq<CandidateView>) -> bool {
    forall|i: int, j: int|
        0 <= i <= j < list.len() ==> (#[trigger] list[i]).init_time.secs >= (
        #[trigger] list[j]).init_time.secs
}

/// The candidates of `list` for the initialization time `time`, in their order.
pub open spec fn having_time(list: Seq<CandidateView>, time: Timestamp) -> Seq<CandidateView> {
    list.filter(|candidate: CandidateView| candidate.init_time == time)
}

/// The run times to try for a model in the window from `start` to `end`: those of a walk back
/// from `end` to one cadence before `start`.
pub open spec fn runs_to_try(model: Model, start: Timestamp, end: Timestamp) -> Seq<Timestamp> {
    model.run_times(end, Timestamp { secs: (start.secs - model.step_seconds()) as i64 })
}

/// The candidates of one site under one model in the window, newest first.
pub open spec fn candidates_of(
    entry: SiteModelView,
    start: Timestamp,
    end: Timestamp,
) -> Seq<CandidateView> {
    let runs = runs_to_try(entry.model, start, end);
    Seq::new(
        runs.len(),
        |k: int|
            CandidateView {
                site_id: entry.site_id,
                station: entry.station,
                model: entry.model,
                init_time: runs[k],
            },
    )
}

/// The candidates of all of `entries` in the window, one entry after the other.
pub open spec fn all_candidates(
    entries: Seq<SiteModelView>,
    start: Timestamp,
    end: Timestamp,
) -> Seq<CandidateView>
    decreases entries.len(),
{
    if entries.len() == 0 {
        Seq::empty()
    } else {
        all_candidates(entries.drop_last(), start, end) + candidates_of(
            entries.last(),
            start,
            end,
        )
    }
}

/// Whether the window from `start` to `end` can be walked: both ends, and the instant six hours
/// before `start`, are instants that the calendar can name.
pub open spec fn walkable(start: Timestamp, end: Timestamp) -> bool {
    &&& start.representable()
    &&& end.representable()
    &&& (Timestamp { secs: (start.secs - 21600) as i64 }).representable()
}

/// Whether the window from `start` to `end` can be walked.
pub fn is_walkable(start: Timestamp, end: Timestamp) -> (yes: bool)
    ensures
        yes == walkable(start, end),
{
    start.is_representable() && end.is_representable() && start.secs >= -8334601207200
}

/// The candidates of all of `entries` in the window from `start` to `end`, one entry after the
/// other, each entry's newest first.
pub fn expand_candidates(
    entries: &Vec<SiteModel>,
    start: Timestamp,
    end: Timestamp,
) -> (list: Vec<DownloadCandidate>)
    requires
        walkable(start, end),
    ensures
        candidate_views(list@) == all_candidates(site_model_views(entries@), start, end),
{
    let mut list: Vec<DownloadCandidate> = Vec::new();
    let mut i: usize = 0;
    let ghost views = site_model_views(entries@);
    assert(views.take(0) =~= Seq::empty());
    assert(candidate_views(list@) =~= all_candidates(views.take(0), start, end));
    while i < entries.len()
        invariant
            i <= entries.len(),
            walkable(start, end),
            views == site_model_views(entries@),
            candidate_views(list@) == all_candidates(views.take(i as int), start, end),
        decreases entries.len() - i,
    {
        let entry = &entries[i];
        let hours = entry.model.hours_between_runs();
        let lower = Timestamp { secs: start.secs - hours * 3600 };
        let runs = entry.model.all_runs(end, lower);
        assert(runs@ == runs_to_try(entry.model, start, end));
        let ghost before = candidate_views(list@);
        let mut k: usize = 0;
        while k < runs.len()
            invariant
                k <= runs.len(),
                i < entries.len(),
                entry == &entries[i as int],
                runs@ == runs_to_try(entry.model, start, end),
                candidate_views(list@) == before + candidates_of(entry@, start, end).take(
                    k as int,
                ),
            decreases runs.len() - k,
        {
            let ghost earlier = list@;
            let candidate = DownloadCandidate {
                site_id: entry.site_id.clone(),
                station: entry.station,
                model: entry.model,
                init_time: runs[k],
            };
            assert(candidate@ == candidates_of(entry@, start, end)[k as int]);
            list.push(candidate);
            k = k + 1;
            assert(candidate_views(list@) =~= candidate_views(earlier).push(candidate@));
            assert(candidates_of(entry@, start, end).take(k as int) =~= candidates_of(
                entry@,
                start,
                end,
            ).take(k - 1).push(candidate@));
            assert(candidate_views(list@) =~= before + candidates_of(entry@, start, end).take(
                k as int,
            ));
        }
        assert(candidates_of(entry@, start, end).take(k as int) =~= candidates_of(
            entry@,
            start,
            end,
        ));
        assert(views.take(i + 1).drop_last() =~= views.take(i as int));
        assert(views.take(i + 1).last() == entry@);
        i = i + 1;
    }
    assert(views.take(i as int) =~= views);
    list
}

/// What is among the candidates for one time is among the candidates.
pub proof fn lemma_having_time(list: Seq<CandidateView>, time: Timestamp, candidate: CandidateView)
    ensures
        having_time(list, time).contains(candidate) <==> list.contains(candidate)
            && candidate.init_time == time,
    decreases list.len(),
{
    reveal_with_fuel(Seq::filter, 2);
    let keep = |c: CandidateView| c.init_time == time;
    if list.len() > 0 {
        let shorter = list.drop_last();
        lemma_having_time(shorter, time, candidate);
        let kept = having_time(shorter, time);
        if having_time(list, time).contains(candidate) {
            let i = choose|i: int|
                0 <= i < having_time(list, time).len() && having_time(list, time)[i] == candidate;
            if keep(list.last()) && i == kept.len() {
                assert(list[list.len() - 1] == candidate);
            } else {
                assert(kept[i] == candidate);
                assert(kept.contains(candidate));
                let j = choose|j: int| 0 <= j < shorter.len() && shorter[j] == candidate;
                assert(list[j] == candidate);
            }
        }
        if list.contains(candidate) && candidate.init_time == time {
            let j = choose|j: int| 0 <= j < list.len() && list[j] == candidate;
            if j == list.len() - 1 {
                assert(having_time(list, time) == kept.push(candidate));
                assert(having_time(list, time)[kept.len() as int] == candidate);
            } else {
                assert(shorter[j] == candidate);
                assert(kept.contains(candidate));
                let i = choose|i: int| 0 <= i < kept.len() && kept[i] == candidate;
                assert(having_time(list, time)[i] == candidate);
            }
        }
    }
}

/// Lists that hold the same candidates for every time hold the same candidates.
pub proof fn lemma_same_candidates(list: Seq<CandidateView>, all: Seq<CandidateView>)
    requires
        forall|time: Timestamp| having_time(list, time) == having_time(all, time),
    ensures
        forall|candidate: CandidateView|
            #![trigger list.contains(candidate)]
            #![trigger all.contains(candidate)]
            list.contains(candidate) <==> all.contains(candidate),
{
    assert forall|candidate: CandidateView|
        #![trigger list.contains(candidate)]
        #![trigger all.contains(candidate)]
        list.contains(candidate) <==> all.contains(candidate) by {
        lemma_having_time(list, candidate.init_time, candidate);
        lemma_having_time(all, candidate.init_time, candidate);
        assert(having_time(list, candidate.init_time) == having_time(all, candidate.init_time));
    }
}

/// The files to ask for in the window from `start` to `end`, for all of `entries`: every
/// candidate of every entry and no other, newest first, and those of one initialization time in
/// the order of the entries.
pub fn build_download_list(
    entries: &Vec<SiteModel>,
    start: Timestamp,
    end: Timestamp,
) -> (list: Vec<DownloadCandidate>)
    requires
        walkable(start, end),
    ensures
        newest_first(candidate_views(list@)),
        forall|time: Timestamp|
            having_time(candidate_views(list@), time) == having_time(
                all_candidates(site_model_views(entries@), start, end),
                time,
            ),
        forall|candidate: CandidateView|
            #![trigger candidate_views(list@).contains(candidate)]
            candidate_views(list@).contains(candidate) <==> all_candidates(
                site_model_views(entries@),
                start,
                end,
            ).contains(candidate),
{
    let mut list = expand_candidates(entries, start, end);
    sort_newest_first(&mut list);
    proof {
        lemma_same_candidates(
            candidate_views(list@),
            all_candidates(site_model_views(entries@), start, end),
        );
    }
    list
}

/// Whether `station` is one of `stations`.
pub fn has_station(stations: &Vec<StationNumber>, station: StationNumber) -> (yes: bool)
    ensures
        yes == stations@.contains(station),
{
    let mut i: usize = 0;
    while i < stations.len()
        invariant
            i <= stations.len(),
            forall|j: int| 0 <= j < i ==> stations@[j] != station,
        decreases stations.len() - i,
    {
        if stations[i] == station {
            return true;
        }
        i = i + 1;
    }
    false
}

/// The sites of `sites` (each with the identifier it has under `model`) whose station is on
/// the list `subscribed`, in their order, as entries for `model`.
pub open spec fn auto_downloaded(
    subscribed: Seq<StationNumber>,
    sites: Seq<(StationNumber, String)>,
    model: Model,
) -> Seq<SiteModelView>
    decreases sites.len(),
{
    if sites.len() == 0 {
        Seq::empty()
    } else {
        let earlier = auto_downloaded(subscribed, sites.drop_last(), model);
        if subscribed.contains(sites.last().0) {
            earlier.push(
                SiteModelView { site_id: sites.last().1@, station: Some(sites.last().0), model },
            )
        } else {
            earlier
        }
    }
}

/// The entries to download for `model` where the user names no site: those of the sites in the
/// archive (each with the identifier it has under `model`) whose station is on the list of
/// automatic downloads.
pub fn list_of_auto_download(
    subscribed: &Vec<StationNumber>,
    sites: &Vec<(StationNumber, String)>,
    model: Model,
) -> (entries: Vec<SiteModel>)
    ensures
        site_model_views(entries@) == auto_downloaded(subscribed@, sites@, model),
{
    let mut entries: Vec<SiteModel> = Vec::new();
    let mut i: usize = 0;
    assert(sites@.take(0) =~= Seq::empty());
    assert(site_model_views(entries@) =~= auto_downloaded(subscribed@, sites@.take(0), model));
    while i < sites.len()
        invariant
            i <= sites.len(),
            site_model_views(entries@) == auto_downloaded(
                subscribed@,
                sites@.take(i as int),
                model,
            ),
        decreases sites.len() - i,
    {
        assert(sites@.take(i + 1).drop_last() =~= sites@.take(i as int));
        assert(sites@.take(i + 1).last() == sites@[i as int]);
        if has_station(subscribed, sites[i].0) {
            let ghost earlier = entries@;
            let entry = SiteModel {
                site_id: sites[i].1.clone(),
                station: Some(sites[i].0),
                model,
            };
            entries.push(entry);
            assert(site_model_views(entries@) =~= site_model_views(earlier).push(entry@));
        }
        i = i + 1;
    }
    assert(sites@.take(i as int) =~= sites@);
    entries
}

/// The count of the requests that one run has emitted. It never passes `MAX_REQUESTS`.
#[derive(Clone, Copy, Debug)]
pub struct Generator {
    pub emitted: usize,
}

impl Generator {
    /// The count is within the cap.
    pub open spec fn wf(&self) -> bool {
        self.emitted <= MAX_REQUESTS
    }

    /// A generator that has emitted nothing.
    pub fn new() -> (generator: Generator)
        ensures
            generator.emitted == 0,
            generator.wf(),
    {
        Generator { emitted: 0 }
    }

    /// Whether the cap is reached, so that nothing more will be emitted.
    pub fn is_done(&self) -> (done: bool)
        ensures
            done == (self.emitted >= MAX_REQUESTS),
    {
        self.emitted >= MAX_REQUESTS
    }

    /// Whether a request is emitted: the file is not in the archive, its URL is not known to be
    /// missing upstream, and the cap is not reached.
    pub open spec fn accepts(&self, in_archive: bool, known_missing: bool) -> bool {
        !in_archive && !known_missing && self.emitted < MAX_REQUESTS
    }

    /// The message for the fetching stage, where the request is to be emitted, and `None` where
    /// it is dropped: because the file is in the archive already, because its URL is known to
    /// be missing upstream, or because the cap is reached.
    pub fn offer(
        &mut self,
        req: ReqInfo,
        in_archive: bool,
        known_missing: bool,
    ) -> (next: Option<StepResult>)
        ensures
            old(self).wf() ==> final(self).wf(),
            old(self).accepts(in_archive, known_missing) ==> next == Some(StepResult::Request(req))
                && final(self).emitted == old(self).emitted + 1,
            !old(self).accepts(in_archive, known_missing) ==> next.is_none() && final(self).emitted
                == old(self).emitted,
    {
        if in_archive || known_missing || self.emitted >= MAX_REQUESTS {
            None
        } else {
            self.emitted = self.emitted + 1;
            Some(StepResult::Request(req))
        }
    }
}

} // verus!
