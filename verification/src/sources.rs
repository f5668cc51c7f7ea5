//! Where forecast files are fetched from: which requests make sense, and their URLs.

use crate::model::Model;
use crate::site::StationNumber;
use crate::text::{
    lowercase_of, push_signed_decimal, push_two_digits, same_text, signed_decimal, texts,
    to_lowercase, to_uppercase, uppercase_of, zero_padded,
};
use crate::time::{civil_of, civil_seconds, CivilTime, Timestamp};
use vstd::prelude::*;
use vstd::string::*;

verus! {

/// A set of models.
#[derive(Clone, Copy, Debug, PartialEq, Eq, Structural)]
pub struct ModelSet {
    pub gfs: bool,
    pub nam: bool,
    pub nam4km: bool,
}

impl ModelSet {
    /// Whether `model` is in the set.
    pub open spec fn contains(self, model: Model) -> bool {
        match model {
            Model::GFS => self.gfs,
            Model::NAM => self.nam,
            Model::NAM4KM => self.nam4km,
        }
    }

    /// Whether `model` is in the set.
    pub fn has(self, model: Model) -> (yes: bool)
        ensures
            yes == self.contains(model),
    {
        match model {
            Model::GFS => self.gfs,
            Model::NAM => self.nam,
            Model::NAM4KM => self.nam4km,
        }
    }
}

/// Whether `name` is one of `names`.
pub fn listed(names: &Vec<String>, name: &str) -> (yes: bool)
    ensures
        yes == texts(names@).contains(name@),
{
    let mut i: usize = 0;
    while i < names.len()
        invariant
            i <= names.len(),
            forall|j: int| 0 <= j < i ==> #[trigger] texts(names@)[j] != name@,
        decreases names.len() - i,
    {
        if same_text(names[i].as_str(), name) {
            assert(texts(names@)[i as int] == name@);
            return true;
        }
        i = i + 1;
    }
    false
}

/// Owned copies of `names`, in their order.
pub fn owned_names(names: &[&str]) -> (owned: Vec<String>)
    ensures
        owned@.len() == names@.len(),
        forall|i: int| 0 <= i < names@.len() ==> #[trigger] owned@[i]@ == names@[i]@,
{
    let mut owned: Vec<String> = Vec::new();
    let mut i: usize = 0;
    while i < names.len()
        invariant
            i <= names.len(),
            owned@.len() == i,
            forall|j: int| 0 <= j < i ==> #[trigger] owned@[j]@ == names@[j]@,
        decreases names.len() - i,
    {
        owned.push(names[i].to_owned());
        i = i + 1;
    }
    owned
}

/// What a gap rule says: for the listed sites (for every site, where none is listed) and the
/// given models, nothing can be fetched for an initialization time in the window.
pub struct GapRuleView {
    pub sites: Seq<Seq<char>>,
    pub models: ModelSet,
    pub not_before: Option<Timestamp>,
    pub before: Option<Timestamp>,
}

impl GapRuleView {
    /// Whether the window holds `init_time`.
    pub open spec fn in_window(self, init_time: Timestamp) -> bool {
        &&& self.not_before matches Some(first) ==> first.secs <= init_time.secs
        &&& self.before matches Some(end) ==> init_time.secs < end.secs
    }

    /// Whether the rule excludes the request for `site` (in lower case), `model` and
    /// `init_time`.
    pub open spec fn applies(self, site: Seq<char>, model: Model, init_time: Timestamp) -> bool {
        &&& self.sites.len() == 0 || self.sites.contains(site)
        &&& self.models.contains(model)
        &&& self.in_window(init_time)
    }
}

/// A known gap upstream.
#[derive(Clone, Debug)]
pub struct GapRule {
    /// Lower case site identifiers; empty for a rule on every site.
    pub sites: Vec<String>,
    pub models: ModelSet,
    /// The first instant of the window; `None` for a window without beginning.
    pub not_before: Option<Timestamp>,
    /// The first instant after the window; `None` for a window without end.
    pub before: Option<Timestamp>,
}

impl View for GapRule {
    type V = GapRuleView;

    open spec fn view(&self) -> GapRuleView {
        GapRuleView {
            sites: texts(self.sites@),
            models: self.models,
            not_before: self.not_before,
            before: self.before,
        }
    }
}

impl GapRule {
    /// Whether the rule excludes the request for `site` (in lower case), `model` and
    /// `init_time`.
    pub fn covers(&self, site: &str, model: Model, init_time: Timestamp) -> (yes: bool)
        ensures
            yes == self@.applies(site@, model, init_time),
    {
        if !self.models.has(model) {
            return false;
        }
        let after_start = match self.not_before {
            Some(first) => first.secs <= init_time.secs,
            None => true,
        };
        let before_end = match self.before {
            Some(end) => init_time.secs < end.secs,
            None => true,
        };
        if !(after_start && before_end) {
            return false;
        }
        self.sites.len() == 0 || listed(&self.sites, site)
    }
}

/// What a rewrite says: from `not_before` on, the files of the given models that are asked for
/// as `from`, in whatever case, are held upstream as `to`.
pub struct IdRewriteView {
    pub from: Seq<char>,
    pub to: Seq<char>,
    pub models: ModelSet,
    pub not_before: Timestamp,
}

impl IdRewriteView {
    /// Whether the rewrite is to be made for the request for `site` (in upper case), `model`
    /// and `init_time`.
    pub open spec fn applies(self, site: Seq<char>, model: Model, init_time: Timestamp) -> bool {
        &&& self.from == site
        &&& self.models.contains(model)
        &&& self.not_before.secs <= init_time.secs
    }
}

/// A site identifier that upstream changed on a known date.
#[derive(Clone, Debug)]
pub struct IdRewrite {
    /// The identifier before the change, in upper case.
    pub from: String,
    /// The identifier after the change.
    pub to: String,
    pub models: ModelSet,
    pub not_before: Timestamp,
}

impl View for IdRewrite {
    type V = IdRewriteView;

    open spec fn view(&self) -> IdRewriteView {
        IdRewriteView {
            from: self.from@,
            to: self.to@,
            models: self.models,
            not_before: self.not_before,
        }
    }
}

/// The instant at the full hour `hour` of a day.
pub open spec fn at_hour(year: int, month: int, day: int, hour: int) -> Timestamp {
    Timestamp { secs: civil_seconds(year, month, day, hour, 0, 0) as i64 }
}

/// The views of `rules`.
pub open spec fn gap_views(rules: Seq<GapRule>) -> Seq<GapRuleView> {
    Seq::new(rules.len(), |i: int| rules[i]@)
}

/// The views of `rewrites`.
pub open spec fn rewrite_views(rewrites: Seq<IdRewrite>) -> Seq<IdRewriteView> {
    Seq::new(rewrites.len(), |i: int| rewrites[i]@)
}

/// Whether one of `rules` excludes the request.
pub open spec fn excluded(
    rules: Seq<GapRuleView>,
    site: Seq<char>,
    model: Model,
    init_time: Timestamp,
) -> bool {
    exists|i: int| 0 <= i < rules.len() && (#[trigger] rules[i]).applies(site, model, init_time)
}

/// The identifier under which upstream holds the file that is asked for as `site_id`, which is
/// `site` in upper case: the target of the first of `rewrites` that applies, and `site_id`
/// where none does.
pub open spec fn rewritten(
    rewrites: Seq<IdRewriteView>,
    site_id: Seq<char>,
    site: Seq<char>,
    model: Model,
    init_time: Timestamp,
) -> Seq<char>
    decreases rewrites.len(),
{
    if rewrites.len() == 0 {
        site_id
    } else if rewrites[0].applies(site, model, init_time) {
        rewrites[0].to
    } else {
        rewritten(rewrites.drop_first(), site_id, site, model, init_time)
    }
}

/// The name that upstream gives to the files of a model run at `hour`.
pub open spec fn remote_model(model: Model, hour: int) -> Seq<char> {
    match model {
        Model::GFS => "gfs3"@,
        Model::NAM => if hour == 6 || hour == 18 {
            "namm"@
        } else {
            "nam"@
        },
        Model::NAM4KM => "nam4km"@,
    }
}

/// The URL of the file for a site (in lower case), a model and the calendar fields of an
/// initialization time:
/// `<host>/<YYYY>/<MM>/<DD>/bufkit/<HH>/<model>/<remote model>_<site>.buf`.
pub open spec fn url_text(site: Seq<char>, model: Model, init_time: CivilTime) -> Seq<char> {
    "http://mtarchive.geol.iastate.edu/"@ + signed_decimal(init_time.year as int) + "/"@
        + zero_padded(init_time.month as nat) + "/"@ + zero_padded(init_time.day as nat)
        + "/bufkit/"@ + zero_padded(init_time.hour as nat) + "/"@ + model.name() + "/"@
        + remote_model(model, init_time.hour as int) + "_"@ + site + ".buf"@
}

/// What a request says: which file to fetch, and from where.
pub struct ReqInfoView {
    pub site_id: Seq<char>,
    pub site: Option<StationNumber>,
    pub model: Model,
    pub init_time: Timestamp,
    pub url: Seq<char>,
}

/// A request for one forecast file.
#[derive(Clone, Debug)]
pub struct ReqInfo {
    pub site_id: String,
    pub site: Option<StationNumber>,
    pub model: Model,
    pub init_time: Timestamp,
    pub url: String,
}

impl View for ReqInfo {
    type V = ReqInfoView;

    open spec fn view(&self) -> ReqInfoView {
        ReqInfoView {
            site_id: self.site_id@,
            site: self.site,
            model: self.model,
            init_time: self.init_time,
            url: self.url@,
        }
    }
}

/// A place that forecast files can be fetched from.
pub trait Source {
    /// Whether this source has the file of a site, a model and an initialization time.
    spec fn offers(&self, site_id: Seq<char>, model: Model, init_time: Timestamp) -> bool;

    /// Whether `req` is the request of this source for the file of a site, a model and an
    /// initialization time.
    spec fn plans(
        &self,
        site_id: Seq<char>,
        stn_num: Option<StationNumber>,
        model: Model,
        init_time: Timestamp,
        req: ReqInfoView,
    ) -> bool;

    /// The request for the file of a site, a model and an initialization time, or `None` where
    /// this source has no such file. The request is for the station, the model and the time
    /// that were asked for; the source may correct the site identifier.
    fn build_req_info(
        &self,
        site_id: String,
        stn_num: Option<StationNumber>,
        model: Model,
        init_time: Timestamp,
    ) -> (req: Option<ReqInfo>)
        ensures
            req.is_some() <==> self.offers(site_id@, model, init_time),
            req matches Some(r) ==> self.plans(site_id@, stn_num, model, init_time, r@)
                && r.site == stn_num && r.model == model && r.init_time == init_time,
    ;
}

/// Whether source `index` is the first of `sources` that has the file.
pub open spec fn first_offer<S: Source>(
    sources: Seq<S>,
    index: int,
    site_id: Seq<char>,
    model: Model,
    init_time: Timestamp,
) -> bool {
    &&& 0 <= index < sources.len()
    &&& sources[index].offers(site_id, model, init_time)
    &&& forall|j: int| 0 <= j < index ==> !(#[trigger] sources[j]).offers(site_id, model, init_time)
}

/// The request of the first of `sources` that has the file of a site, a model and an
/// initialization time, or `None` where none of them has it. The sources are asked in their
/// order.
pub fn first_request<S: Source>(
    sources: &Vec<S>,
    site_id: &str,
    stn_num: Option<StationNumber>,
    model: Model,
    init_time: Timestamp,
) -> (req: Option<ReqInfo>)
    ensures
        req.is_none() <==> forall|j: int|
            0 <= j < sources@.len() ==> !(#[trigger] sources@[j]).offers(
                site_id@,
                model,
                init_time,
            ),
        req matches Some(r) ==> exists|i: int|
            #![trigger sources@[i]]
            first_offer(sources@, i, site_id@, model, init_time) && sources@[i].plans(
                site_id@,
                stn_num,
                model,
                init_time,
                r@,
            ),
{
    let mut i: usize = 0;
    while i < sources.len()
        invariant
            i <= sources.len(),
            forall|j: int|
                0 <= j < i ==> !(#[trigger] sources@[j]).offers(site_id@, model, init_time),
        decreases sources.len() - i,
    {
        match sources[i].build_req_info(site_id.to_owned(), stn_num, model, init_time) {
            Some(req) => {
                assert(first_offer(sources@, i as int, site_id@, model, init_time));
                return Some(req);
            },
            None => {},
        }
        i = i + 1;
    }
    None
}

/// The sounding archive of Iowa State University.
#[derive(Clone, Debug)]
pub struct IowaState {
    /// The combinations of site, model and time for which upstream holds nothing.
    pub gaps: Vec<GapRule>,
    /// The site identifiers that upstream changed.
    pub rewrites: Vec<IdRewrite>,
}

/// No model.
pub open spec fn no_models() -> ModelSet {
    ModelSet { gfs: false, nam: false, nam4km: false }
}

/// The gaps that are known of the Iowa State archive.
pub open spec fn known_gaps() -> Seq<GapRuleView> {
    seq![
        GapRuleView {
            sites: seq!["bam"@, "c17"@, "lrr"@, "s06"@, "ssy"@, "xkza"@, "xxpn"@],
            models: ModelSet { gfs: false, nam: true, nam4km: true },
            not_before: None,
            before: None,
        },
        GapRuleView {
            sites: seq!["bon"@, "hmm"@, "mrp"@, "smb"@, "win"@],
            models: ModelSet { gfs: true, nam: false, nam4km: false },
            not_before: None,
            before: None,
        },
        GapRuleView {
            sites: seq!["wntr"@],
            models: ModelSet { gfs: true, nam: false, nam4km: true },
            not_before: None,
            before: None,
        },
        GapRuleView {
            sites: seq!["kfca"@],
            models: ModelSet { gfs: false, nam: true, nam4km: true },
            not_before: None,
            before: None,
        },
        GapRuleView {
            sites: seq!["paeg"@, "pabt"@, "pafa"@, "pafm"@, "pamc"@, "pfyu"@],
            models: ModelSet { gfs: false, nam: false, nam4km: true },
            not_before: None,
            before: None,
        },
        GapRuleView {
            sites: Seq::empty(),
            models: ModelSet { gfs: false, nam: false, nam4km: true },
            not_before: None,
            before: Some(at_hour(2013, 3, 25, 0)),
        },
        GapRuleView {
            sites: Seq::empty(),
            models: ModelSet { gfs: true, nam: true, nam4km: false },
            not_before: None,
            before: Some(at_hour(2011, 1, 1, 0)),
        },
        GapRuleView {
            sites: seq!["lrr"@, "c17"@],
            models: ModelSet { gfs: true, nam: false, nam4km: false },
            not_before: Some(at_hour(2018, 12, 5, 0)),
            before: None,
        },
        GapRuleView {
            sites: seq!["sta"@, "xxpn"@, "wev"@, "xkza"@, "mpi"@, "kmpi"@],
            models: ModelSet { gfs: true, nam: false, nam4km: false },
            not_before: None,
            before: Some(Timestamp { secs: (at_hour(2018, 12, 4, 12).secs + 1) as i64 }),
        },
        GapRuleView {
            sites: seq!["kmpi"@],
            models: ModelSet { gfs: true, nam: false, nam4km: false },
            not_before: Some(at_hour(2021, 3, 22, 18)),
            before: None,
        },
        GapRuleView {
            sites: seq![
                "pafm"@,
                "pfyu"@,
                "pabt"@,
                "wev"@,
                "wntr"@,
                "smb"@,
                "hmm"@,
                "sta"@,
                "mpi"@,
                "wja"@,
                "mrp"@,
                "pamc"@,
                "pafa"@,
                "paeg"@,
                "cype"@,
                "cyyc"@,
                "cwlb"@,
            ],
            models: ModelSet { gfs: false, nam: true, nam4km: false },
            not_before: None,
            before: Some(at_hour(2012, 2, 17, 12)),
        },
        GapRuleView {
            sites: seq![
                "ssy"@,
                "cwlb"@,
                "bam"@,
                "cyyc"@,
                "paeg"@,
                "cype"@,
                "pfyu"@,
                "pafa"@,
                "pamc"@,
                "pabt"@,
                "wja"@,
                "pafm"@,
            ],
            models: ModelSet { gfs: true, nam: false, nam4km: false },
            not_before: None,
            before: Some(at_hour(2012, 2, 16, 18)),
        },
    ]
}

/// The changes of site identifier that are known of the Iowa State archive.
pub open spec fn known_rewrites() -> Seq<IdRewriteView> {
    seq![
        IdRewriteView {
            from: "KLDN"@,
            to: "KDLN"@,
            models: ModelSet { gfs: false, nam: true, nam4km: true },
            not_before: at_hour(2020, 5, 1, 0),
        },
        IdRewriteView {
            from: "KLDN"@,
            to: "KDLN"@,
            models: ModelSet { gfs: true, nam: false, nam4km: false },
            not_before: at_hour(2021, 3, 22, 18),
        },
    ]
}

/// A gap rule without window.
fn always(sites: Vec<String>, gfs: bool, nam: bool, nam4km: bool) -> (rule: GapRule)
    ensures
        rule@ == (GapRuleView {
            sites: texts(sites@),
            models: ModelSet { gfs, nam, nam4km },
            not_before: None,
            before: None,
        }),
{
    GapRule { sites, models: ModelSet { gfs, nam, nam4km }, not_before: None, before: None }
}

/// A gap rule for the time before `secs`.
fn until(sites: Vec<String>, gfs: bool, nam: bool, nam4km: bool, secs: i64) -> (rule: GapRule)
    ensures
        rule@ == (GapRuleView {
            sites: texts(sites@),
            models: ModelSet { gfs, nam, nam4km },
            not_before: None,
            before: Some(Timestamp { secs }),
        }),
{
    GapRule {
        sites,
        models: ModelSet { gfs, nam, nam4km },
        not_before: None,
        before: Some(Timestamp { secs }),
    }
}

/// A gap rule for the time from `secs` on.
fn since(sites: Vec<String>, gfs: bool, nam: bool, nam4km: bool, secs: i64) -> (rule: GapRule)
    ensures
        rule@ == (GapRuleView {
            sites: texts(sites@),
            models: ModelSet { gfs, nam, nam4km },
            not_before: Some(Timestamp { secs }),
            before: None,
        }),
{
    GapRule {
        sites,
        models: ModelSet { gfs, nam, nam4km },
        not_before: Some(Timestamp { secs }),
        before: None,
    }
}

impl IowaState {
    /// The source with the gaps and rewrites that are known of it.
    pub fn new() -> (source: IowaState)
        ensures
            gap_views(source.gaps@) == known_gaps(),
            rewrite_views(source.rewrites@) == known_rewrites(),
    {
        assert(at_hour(2013, 3, 25, 0).secs == 1364169600);
        assert(at_hour(2011, 1, 1, 0).secs == 1293840000);
        assert(at_hour(2018, 12, 5, 0).secs == 1543968000);
        assert(at_hour(2018, 12, 4, 12).secs == 1543924800);
        assert(at_hour(2021, 3, 22, 18).secs == 1616436000);
        assert(at_hour(2012, 2, 17, 12).secs == 1329480000);
        assert(at_hour(2012, 2, 16, 18).secs == 1329415200);
        assert(at_hour(2020, 5, 1, 0).secs == 1588291200);

        let mut gaps: Vec<GapRule> = Vec::new();
        let s0 = owned_names(&["bam", "c17", "lrr", "s06", "ssy", "xkza", "xxpn"]);
        assert(texts(s0@) =~= known_gaps()[0].sites);
        gaps.push(always(s0, false, true, true));
        let s1 = owned_names(&["bon", "hmm", "mrp", "smb", "win"]);
        assert(texts(s1@) =~= known_gaps()[1].sites);
        gaps.push(always(s1, true, false, false));
        let s2 = owned_names(&["wntr"]);
        assert(texts(s2@) =~= known_gaps()[2].sites);
        gaps.push(always(s2, true, false, true));
        let s3 = owned_names(&["kfca"]);
        assert(texts(s3@) =~= known_gaps()[3].sites);
        gaps.push(always(s3, false, true, true));
        let s4 = owned_names(&["paeg", "pabt", "pafa", "pafm", "pamc", "pfyu"]);
        assert(texts(s4@) =~= known_gaps()[4].sites);
        gaps.push(always(s4, false, false, true));
        let s5: Vec<String> = Vec::new();
        assert(texts(s5@) =~= known_gaps()[5].sites);
        gaps.push(until(s5, false, false, true, 1364169600));
        let s6: Vec<String> = Vec::new();
        assert(texts(s6@) =~= known_gaps()[6].sites);
        gaps.push(until(s6, true, true, false, 1293840000));
        let s7 = owned_names(&["lrr", "c17"]);
        assert(texts(s7@) =~= known_gaps()[7].sites);
        gaps.push(since(s7, true, false, false, 1543968000));
        let s8 = owned_names(&["sta", "xxpn", "wev", "xkza", "mpi", "kmpi"]);
        assert(texts(s8@) =~= known_gaps()[8].sites);
        gaps.push(until(s8, true, false, false, 1543924801));
        let s9 = owned_names(&["kmpi"]);
        assert(texts(s9@) =~= known_gaps()[9].sites);
        gaps.push(since(s9, true, false, false, 1616436000));
        let s10 = owned_names(
            &[
                "pafm",
                "pfyu",
                "pabt",
                "wev",
                "wntr",
                "smb",
                "hmm",
                "sta",
                "mpi",
                "wja",
                "mrp",
                "pamc",
                "pafa",
                "paeg",
                "cype",
                "cyyc",
                "cwlb",
            ],
        );
        assert(texts(s10@) =~= known_gaps()[10].sites);
        gaps.push(until(s10, false, true, false, 1329480000));
        let s11 = owned_names(
            &[
                "ssy",
                "cwlb",
                "bam",
                "cyyc",
                "paeg",
                "cype",
                "pfyu",
                "pafa",
                "pamc",
                "pabt",
                "wja",
                "pafm",
            ],
        );
        assert(texts(s11@) =~= known_gaps()[11].sites);
        gaps.push(until(s11, true, false, false, 1329415200));
        assert(gap_views(gaps@) =~= known_gaps());

        let mut rewrites: Vec<IdRewrite> = Vec::new();
        rewrites.push(
            IdRewrite {
                from: "KLDN".to_owned(),
                to: "KDLN".to_owned(),
                models: ModelSet { gfs: false, nam: true, nam4km: true },
                not_before: Timestamp { secs: 1588291200 },
            },
        );
        rewrites.push(
            IdRewrite {
                from: "KLDN".to_owned(),
                to: "KDLN".to_owned(),
                models: ModelSet { gfs: true, nam: false, nam4km: false },
                not_before: Timestamp { secs: 1616436000 },
            },
        );
        assert(rewrite_views(rewrites@) =~= known_rewrites());
        IowaState { gaps, rewrites }
    }

    /// Whether nothing can be fetched for `site` (in lower case), `model` and `init_time`: one
    /// of the gap rules excludes the request.
    pub fn excludes(&self, site: &str, model: Model, init_time: Timestamp) -> (yes: bool)
        ensures
            yes == excluded(gap_views(self.gaps@), site@, model, init_time),
    {
        let mut i: usize = 0;
        while i < self.gaps.len()
            invariant
                i <= self.gaps.len(),
                forall|j: int|
                    0 <= j < i ==> !(#[trigger] gap_views(self.gaps@)[j]).applies(
                        site@,
                        model,
                        init_time,
                    ),
            decreases self.gaps.len() - i,
        {
            if self.gaps[i].covers(site, model, init_time) {
                assert(gap_views(self.gaps@)[i as int].applies(site@, model, init_time));
                return true;
            }
            i = i + 1;
        }
        false
    }

    /// Whether nothing can be fetched for `site`, `model` and `init_time`. The site identifier
    /// is taken without regard to case.
    pub fn invalid_combination(
        &self,
        site: &str,
        model: Model,
        init_time: Timestamp,
    ) -> (yes: bool)
        ensures
            yes == excluded(gap_views(self.gaps@), lowercase_of(site@), model, init_time),
    {
        let site = to_lowercase(site);
        self.excludes(site.as_str(), model, init_time)
    }

    /// The identifier under which upstream holds the file that is asked for as `site_id`: the
    /// target of the first rewrite that applies, and `site_id` itself where none does. The
    /// identifier is taken without regard to case.
    pub fn fix_known_issues_with_site_mismatch_in_url_and_in_the_file(
        &self,
        site_id: String,
        model: Model,
        init_time: Timestamp,
    ) -> (fixed: String)
        ensures
            fixed@ == rewritten(
                rewrite_views(self.rewrites@),
                site_id@,
                uppercase_of(site_id@),
                model,
                init_time,
            ),
    {
        let site = to_uppercase(site_id.as_str());
        self.rewrite(site_id, site.as_str(), model, init_time)
    }

    /// The identifier under which upstream holds the file that is asked for as `site_id`, which
    /// is `site` in upper case.
    pub fn rewrite(
        &self,
        site_id: String,
        site: &str,
        model: Model,
        init_time: Timestamp,
    ) -> (fixed: String)
        ensures
            fixed@ == rewritten(rewrite_views(self.rewrites@), site_id@, site@, model, init_time),
    {
        let ghost all = rewrite_views(self.rewrites@);
        let mut i: usize = 0;
        assert(all.subrange(0, all.len() as int) =~= all);
        while i < self.rewrites.len()
            invariant
                i <= self.rewrites.len(),
                all == rewrite_views(self.rewrites@),
                rewritten(all, site_id@, site@, model, init_time) == rewritten(
                    all.subrange(i as int, all.len() as int),
                    site_id@,
                    site@,
                    model,
                    init_time,
                ),
            decreases self.rewrites.len() - i,
        {
            let rule = &self.rewrites[i];
            let ghost rest = all.subrange(i as int, all.len() as int);
            assert(rest[0] == rule@);
            assert(rest.drop_first() =~= all.subrange(i + 1, all.len() as int));
            if same_text(rule.from.as_str(), site) && rule.models.has(model)
                && rule.not_before.secs <= init_time.secs {
                return rule.to.clone();
            }
            i = i + 1;
        }
        site_id
    }

    /// The URL of the file for `site`, `model` and the calendar fields of an initialization
    /// time. The site identifier is written in lower case.
    pub fn build_url(site: &str, model: Model, init_time: &CivilTime) -> (url: String)
        ensures
            url@ == url_text(lowercase_of(site@), model, *init_time),
    {
        let site = to_lowercase(site);
        IowaState::url_of(site.as_str(), model, init_time)
    }

    /// The URL of the file for `site` (as it is to stand in the URL), `model` and the calendar
    /// fields of an initialization time.
    pub fn url_of(site: &str, model: Model, init_time: &CivilTime) -> (url: String)
        ensures
            url@ == url_text(site@, model, *init_time),
    {
        let remote = match model {
            Model::GFS => "gfs3",
            Model::NAM => if init_time.hour == 6 || init_time.hour == 18 {
                "namm"
            } else {
                "nam"
            },
            Model::NAM4KM => "nam4km",
        };
        let mut url = "http://mtarchive.geol.iastate.edu/".to_owned();
        push_signed_decimal(&mut url, init_time.year as i64);
        url.append("/");
        push_two_digits(&mut url, init_time.month);
        url.append("/");
        push_two_digits(&mut url, init_time.day);
        url.append("/bufkit/");
        push_two_digits(&mut url, init_time.hour);
        url.append("/");
        url.append(model.as_static_str());
        url.append("/");
        url.append(remote);
        url.append("_");
        url.append(site);
        url.append(".buf");
        assert(url@ =~= url_text(site@, model, *init_time));
        url
    }

}

impl Source for IowaState {
    /// The source has a file where no gap rule excludes the combination, and the calendar can
    /// name the time.
    open spec fn offers(&self, site_id: Seq<char>, model: Model, init_time: Timestamp) -> bool {
        init_time.representable() && !excluded(
            gap_views(self.gaps@),
            lowercase_of(site_id),
            model,
            init_time,
        )
    }

    /// The request carries the site identifier as upstream has it, what was asked for, and the
    /// URL made of the identifier in lower case, the model and the time.
    open spec fn plans(
        &self,
        site_id: Seq<char>,
        stn_num: Option<StationNumber>,
        model: Model,
        init_time: Timestamp,
        req: ReqInfoView,
    ) -> bool {
        &&& req.site_id == rewritten(
            rewrite_views(self.rewrites@),
            site_id,
            uppercase_of(site_id),
            model,
            init_time,
        )
        &&& req.site == stn_num
        &&& req.model == model
        &&& req.init_time == init_time
        &&& req.url == url_text(lowercase_of(req.site_id), model, civil_of(init_time.secs))
    }

    /// The request for the file of a site, a model and an initialization time. There is none
    /// where a gap rule excludes the combination, or where the calendar cannot name the time.
    /// The request carries the site identifier as upstream has it, and the URL made of it.
    fn build_req_info(
        &self,
        site_id: String,
        stn_num: Option<StationNumber>,
        model: Model,
        init_time: Timestamp,
    ) -> (req: Option<ReqInfo>)
    {
        if self.invalid_combination(site_id.as_str(), model, init_time) {
            return None;
        }
        let fields = match init_time.civil() {
            Some(fields) => fields,
            None => {
                return None;
            },
        };
        let site_id = self.fix_known_issues_with_site_mismatch_in_url_and_in_the_file(
            site_id,
            model,
            init_time,
        );
        let url = IowaState::build_url(site_id.as_str(), model, &fields);
        Some(ReqInfo { site_id, site: stn_num, model, init_time, url })
    }
}

} // verus!
