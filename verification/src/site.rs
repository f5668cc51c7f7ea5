//! Stations, and what the archive knows about them.

use crate::model::Model;
use crate::ordering::sort_by_state_and_number;
use crate::text::{
    decimal, join_texts, joined, lemma_text_before_is_an_order, push_decimal, push_two_digits,
    same_text, text_before, texts, zero_padded,
};
use vstd::prelude::*;
use vstd::string::*;

verus! {

/// The number that the upstream meteorological system gives to a reporting location. It is the
/// identity of a station throughout the archive.
#[derive(Clone, Copy, Debug, PartialEq, Eq, Structural, Hash, PartialOrd, Ord)]
pub struct StationNumber {
    pub num: u32,
}

impl StationNumber {
    /// The station with the given number.
    pub fn new(num: u32) -> (station: StationNumber)
        ensures
            station.num == num,
    {
        StationNumber { num }
    }

    /// Zero is not the number of any station.
    pub open spec fn valid(self) -> bool {
        self.num > 0
    }

    /// Whether this can be the number of a station.
    pub fn is_valid(self) -> (yes: bool)
        ensures
            yes == self.valid(),
    {
        self.num > 0
    }
}

/// What the archive knows about a station.
#[derive(Clone, Debug)]
pub struct SiteInfo {
    /// The station; it is the key of the record.
    pub station_num: StationNumber,
    /// A longer name, for people.
    pub name: Option<String>,
    /// Anything worth noting.
    pub notes: Option<String>,
    /// The code of the state or province.
    pub state: Option<String>,
    /// Seconds that local standard time is ahead of UTC.
    pub utc_offset: Option<i32>,
    /// Whether the downloader fetches this station without being asked.
    pub auto_download: bool,
}

impl SiteInfo {
    /// A record that knows the number of the station and nothing else.
    pub fn new(station_num: StationNumber) -> (site: SiteInfo)
        ensures
            site.station_num == station_num,
            site.name.is_none(),
            site.notes.is_none(),
            site.state.is_none(),
            site.utc_offset.is_none(),
            !site.auto_download,
    {
        SiteInfo {
            station_num,
            name: None,
            notes: None,
            state: None,
            utc_offset: None,
            auto_download: false,
        }
    }

    /// Whether something is missing: the name, the state or the offset from UTC, or the
    /// station number is none.
    pub open spec fn incomplete(&self) -> bool {
        self.name.is_none() || self.state.is_none() || self.utc_offset.is_none()
            || !self.station_num.valid()
    }

    /// Whether something is missing from the record.
    pub fn is_incomplete(&self) -> (yes: bool)
        ensures
            yes == self.incomplete(),
    {
        self.name.is_none() || self.state.is_none() || self.utc_offset.is_none()
            || !self.station_num.is_valid()
    }

    /// Seconds that the local clock of the site is ahead of UTC: none where the record has no
    /// offset.
    pub open spec fn offset_seconds(&self) -> int {
        match self.utc_offset {
            Some(offset) => offset as int,
            None => 0,
        }
    }
}

/// The characters of an optional text.
pub open spec fn text_of(text: Option<String>) -> Option<Seq<char>> {
    match text {
        Some(text) => Some(text@),
        None => None,
    }
}

/// What a summary says.
pub struct SummaryView {
    pub station_num: StationNumber,
    pub ids: Seq<Seq<char>>,
    pub models: Seq<Model>,
    pub name: Option<Seq<char>>,
    pub notes: Option<Seq<char>>,
    pub state: Option<Seq<char>>,
    pub utc_offset: Option<i32>,
    pub auto_download: bool,
    pub number_of_files: u32,
}

/// A station as the list of sites shows it: what the archive knows about it, the identifiers
/// and the models that it has files of, and how many.
#[derive(Clone, Debug)]
pub struct StationSummary {
    pub station_num: StationNumber,
    pub ids: Vec<String>,
    pub models: Vec<Model>,
    pub name: Option<String>,
    pub notes: Option<String>,
    pub state: Option<String>,
    pub utc_offset: Option<i32>,
    pub auto_download: bool,
    pub number_of_files: u32,
}

impl View for StationSummary {
    type V = SummaryView;

    open spec fn view(&self) -> SummaryView {
        SummaryView {
            station_num: self.station_num,
            ids: texts(self.ids@),
            models: self.models@,
            name: text_of(self.name),
            notes: text_of(self.notes),
            state: text_of(self.state),
            utc_offset: self.utc_offset,
            auto_download: self.auto_download,
            number_of_files: self.number_of_files,
        }
    }
}

/// The views of `list`.
pub open spec fn summary_views(list: Seq<StationSummary>) -> Seq<SummaryView> {
    Seq::new(list.len(), |i: int| list[i]@)
}

/// Which sites a list is to show. Each condition that is set must hold of a site.
#[derive(Clone, Debug)]
pub struct SiteFilter {
    /// Only sites of this state.
    pub state: Option<String>,
    /// Only sites whose name, state or offset from UTC is missing.
    pub missing_data: bool,
    /// Only sites whose state is missing.
    pub missing_state: bool,
    /// Only sites that are downloaded automatically (`true`), or only the others (`false`).
    pub auto_download: Option<bool>,
}

/// What a filter says.
pub struct SiteFilterView {
    pub state: Option<Seq<char>>,
    pub missing_data: bool,
    pub missing_state: bool,
    pub auto_download: Option<bool>,
}

impl View for SiteFilter {
    type V = SiteFilterView;

    open spec fn view(&self) -> SiteFilterView {
        SiteFilterView {
            state: text_of(self.state),
            missing_data: self.missing_data,
            missing_state: self.missing_state,
            auto_download: self.auto_download,
        }
    }
}

impl SiteFilterView {
    /// Whether the filter lets `site` pass: every condition that is set holds of it.
    pub open spec fn accepts(self, site: SummaryView) -> bool {
        &&& self.missing_data ==> site.name.is_none() || site.utc_offset.is_none()
            || site.state.is_none()
        &&& self.missing_state ==> site.state.is_none()
        &&& self.state matches Some(wanted) ==> site.state == Some(wanted)
        &&& self.auto_download matches Some(wanted) ==> site.auto_download == wanted
    }
}

/// The positions of the first `n` of `list` that the filter lets pass, in ascending order.
pub open spec fn passing(list: Seq<SummaryView>, filter: SiteFilterView, n: int) -> Seq<usize>
    decreases n,
{
    if n <= 0 {
        Seq::empty()
    } else if filter.accepts(list[n - 1]) {
        passing(list, filter, n - 1).push((n - 1) as usize)
    } else {
        passing(list, filter, n - 1)
    }
}

impl SiteFilter {
    /// The filter that lets every site pass.
    pub fn new() -> (filter: SiteFilter)
        ensures
            filter@ == (SiteFilterView {
                state: None,
                missing_data: false,
                missing_state: false,
                auto_download: None,
            }),
    {
        SiteFilter { state: None, missing_data: false, missing_state: false, auto_download: None }
    }

    /// Whether the filter lets `site` pass.
    pub fn passes(&self, site: &StationSummary) -> (yes: bool)
        ensures
            yes == self@.accepts(site@),
    {
        if self.missing_data && !(site.name.is_none() || site.utc_offset.is_none()
            || site.state.is_none()) {
            return false;
        }
        if self.missing_state && site.state.is_some() {
            return false;
        }
        match &self.state {
            Some(wanted) => {
                let same = match &site.state {
                    Some(state) => same_text(state.as_str(), wanted.as_str()),
                    None => false,
                };
                if !same {
                    return false;
                }
            },
            None => {},
        }
        match self.auto_download {
            Some(wanted) => site.auto_download == wanted,
            None => true,
        }
    }

    /// The positions in `list` of the sites that the filter lets pass, in ascending order.
    pub fn select(&self, list: &Vec<StationSummary>) -> (chosen: Vec<usize>)
        ensures
            chosen@ == passing(summary_views(list@), self@, list@.len() as int),
    {
        let mut chosen: Vec<usize> = Vec::new();
        let mut i: usize = 0;
        while i < list.len()
            invariant
                i <= list.len(),
                chosen@ == passing(summary_views(list@), self@, i as int),
            decreases list.len() - i,
        {
            if self.passes(&list[i]) {
                chosen.push(i);
            }
            i = i + 1;
        }
        chosen
    }
}

/// Whether `a` stands before `b` in the list of sites. The sites with a state come first, in
/// the order of their states and, within a state, of their station numbers; the sites without
/// a state follow, in the order of their station numbers.
pub open spec fn site_before(a: SummaryView, b: SummaryView) -> bool {
    match (a.state, b.state) {
        (Some(_), None) => true,
        (None, Some(_)) => false,
        (Some(left), Some(right)) => text_before(left, right) || (left == right
            && a.station_num.num < b.station_num.num),
        (None, None) => a.station_num.num < b.station_num.num,
    }
}

/// Whether no site of `list` stands after one that it should stand before.
pub open spec fn sites_in_order(list: Seq<SummaryView>) -> bool {
    forall|i: int, j: int|
        0 <= i < j < list.len() ==> !site_before(#[trigger] list[j], #[trigger] list[i])
}

/// The order of the list of sites is an order: no site stands before itself, no two stand
/// before each other, what stands before a site stands before all that the site stands before,
/// and sites of which none stands before the other stand at the same place.
pub proof fn lemma_site_order(a: SummaryView, b: SummaryView, c: SummaryView)
    ensures
        !site_before(a, a),
        site_before(a, b) ==> !site_before(b, a),
        site_before(a, b) && site_before(b, c) ==> site_before(a, c),
        !site_before(a, b) && !site_before(b, a) ==> (site_before(a, c) <==> site_before(b, c))
            && (site_before(c, a) <==> site_before(c, b)),
{
    match (a.state, b.state, c.state) {
        (Some(x), Some(y), Some(z)) => {
            lemma_text_before_is_an_order(x, y, z);
            lemma_text_before_is_an_order(y, x, z);
            lemma_text_before_is_an_order(z, x, y);
            lemma_text_before_is_an_order(x, z, y);
            lemma_text_before_is_an_order(y, z, x);
            lemma_text_before_is_an_order(z, y, x);
        },
        (Some(x), Some(y), None) => {
            lemma_text_before_is_an_order(x, y, x);
        },
        (Some(x), None, Some(z)) => {
            lemma_text_before_is_an_order(x, z, x);
        },
        (None, Some(y), Some(z)) => {
            lemma_text_before_is_an_order(y, z, y);
        },
        (Some(x), None, None) => {
            lemma_text_before_is_an_order(x, x, x);
        },
        _ => {},
    }
}

/// Puts the sites into the order of the list: see `site_before`. The sites are those of
/// before.
pub fn sort_sites(list: &mut Vec<StationSummary>)
    ensures
        sites_in_order(summary_views(final(list)@)),
        summary_views(final(list)@).to_multiset() == summary_views(old(list)@).to_multiset(),
{
    sort_by_state_and_number(list);
}

/// An offset from UTC as it is shown: a sign, and hours and minutes with two digits each;
/// seconds too where they are not none.
pub open spec fn offset_text(offset: int) -> Seq<char> {
    let sign = if offset < 0 {
        seq!['-']
    } else {
        seq!['+']
    };
    let size = if offset < 0 {
        -offset
    } else {
        offset
    };
    let hours_and_minutes = sign + zero_padded((size / 3600) as nat) + seq![':'] + zero_padded(
        ((size / 60) % 60) as nat,
    );
    if size % 60 == 0 {
        hours_and_minutes
    } else {
        hours_and_minutes + seq![':'] + zero_padded((size % 60) as nat)
    }
}

/// An offset from UTC as it is shown.
pub fn offset_to_text(offset: i32) -> (text: String)
    ensures
        text@ == offset_text(offset as int),
{
    proof {
        reveal_strlit("-");
        reveal_strlit("+");
        reveal_strlit(":");
    }
    let mut text = String::new();
    let size: u32 = if offset < 0 {
        text.append("-");
        (-(offset as i64)) as u32
    } else {
        text.append("+");
        offset as u32
    };
    push_two_digits(&mut text, size / 3600);
    text.append(":");
    push_two_digits(&mut text, (size / 60) % 60);
    if size % 60 != 0 {
        text.append(":");
        push_two_digits(&mut text, size % 60);
    }
    assert(text@ =~= offset_text(offset as int));
    text
}

/// An optional text as a cell shows it: a hyphen for none.
pub open spec fn or_hyphen(text: Option<Seq<char>>) -> Seq<char> {
    match text {
        Some(text) => text,
        None => "-"@,
    }
}

/// The names of `models`.
pub open spec fn model_names(models: Seq<Model>) -> Seq<Seq<char>> {
    Seq::new(models.len(), |i: int| models[i].name())
}

/// The cells of a site in the list of sites: its station number, its identifiers, its state,
/// its name, its offset from UTC, whether it is downloaded automatically, its models, its
/// notes and the number of its files. A hyphen stands for what is not known.
pub open spec fn site_cells(site: SummaryView) -> Seq<Seq<char>> {
    seq![
        decimal(site.station_num.num as nat),
        joined(site.ids, ", "@, site.ids.len() as int),
        or_hyphen(site.state),
        or_hyphen(site.name),
        match site.utc_offset {
            Some(offset) => offset_text(offset as int),
            None => "-"@,
        },
        if site.auto_download {
            "Yes"@
        } else {
            "No"@
        },
        joined(model_names(site.models), ", "@, site.models.len() as int),
        or_hyphen(site.notes),
        decimal(site.number_of_files as nat),
    ]
}

/// An optional text as a cell shows it.
fn cell_of(text: &Option<String>) -> (cell: String)
    ensures
        cell@ == or_hyphen(text_of(*text)),
{
    match text {
        Some(text) => text.clone(),
        None => "-".to_owned(),
    }
}

/// The cells of a site in the list of sites.
pub fn site_row(site: &StationSummary) -> (row: Vec<String>)
    ensures
        texts(row@) == site_cells(site@),
{
    let mut row: Vec<String> = Vec::new();
    let mut number = String::new();
    push_decimal(&mut number, site.station_num.num as u64);
    assert(number@ =~= decimal(site.station_num.num as nat));
    row.push(number);
    row.push(join_texts(&site.ids, ", "));
    row.push(cell_of(&site.state));
    row.push(cell_of(&site.name));
    row.push(
        match site.utc_offset {
            Some(offset) => offset_to_text(offset),
            None => "-".to_owned(),
        },
    );
    row.push(
        if site.auto_download {
            "Yes".to_owned()
        } else {
            "No".to_owned()
        },
    );
    let mut names: Vec<String> = Vec::new();
    let mut i: usize = 0;
    while i < site.models.len()
        invariant
            i <= site.models.len(),
            names@.len() == i,
            forall|j: int| 0 <= j < i ==> #[trigger] names@[j]@ == site.models@[j].name(),
        decreases site.models.len() - i,
    {
        names.push(site.models[i].as_static_str().to_owned());
        i = i + 1;
    }
    assert(texts(names@) =~= model_names(site.models@));
    row.push(join_texts(&names, ", "));
    row.push(cell_of(&site.notes));
    let mut files = String::new();
    push_decimal(&mut files, site.number_of_files as u64);
    assert(files@ =~= decimal(site.number_of_files as nat));
    row.push(files);
    assert(texts(row@) =~= site_cells(site@));
    row
}

/// The names of the columns of the list of sites, in the order of `site_cells`.
pub fn site_columns() -> (names: Vec<String>)
    ensures
        texts(names@) == seq![
            "Stn Num"@,
            "IDs"@,
            "STATE"@,
            "NAME"@,
            "UTC Offset"@,
            "Auto Download"@,
            "MODELS"@,
            "NOTES"@,
            "Num files"@,
        ],
{
    let mut names: Vec<String> = Vec::new();
    names.push("Stn Num".to_owned());
    names.push("IDs".to_owned());
    names.push("STATE".to_owned());
    names.push("NAME".to_owned());
    names.push("UTC Offset".to_owned());
    names.push("Auto Download".to_owned());
    names.push("MODELS".to_owned());
    names.push("NOTES".to_owned());
    names.push("Num files".to_owned());
    assert(texts(names@) =~= seq![
        "Stn Num"@,
        "IDs"@,
        "STATE"@,
        "NAME"@,
        "UTC Offset"@,
        "Auto Download"@,
        "MODELS"@,
        "NOTES"@,
        "Num files"@,
    ]);
    names
}

/// The seconds of an offset from UTC that is given in hours. `None` where the offset is a day
/// or more: no clock is that far from UTC.
pub fn utc_offset_seconds(hours: i32) -> (seconds: Option<i32>)
    ensures
        seconds == (if -24 < hours < 24 {
            Some((hours * 3600) as i32)
        } else {
            None
        }),
{
    if -24 < hours && hours < 24 {
        Some(hours * 3600)
    } else {
        None
    }
}

/// What the user says of automatic downloads: yes or no, with or without a capital.
pub open spec fn auto_download_of(text: Seq<char>) -> Option<bool> {
    if text == "Yes"@ || text == "yes"@ {
        Some(true)
    } else if text == "No"@ || text == "no"@ {
        Some(false)
    } else {
        None
    }
}

/// What the user says of automatic downloads.
pub fn parse_auto_download(text: &str) -> (choice: Option<bool>)
    ensures
        choice == auto_download_of(text@),
{
    if same_text(text, "Yes") || same_text(text, "yes") {
        Some(true)
    } else if same_text(text, "No") || same_text(text, "no") {
        Some(false)
    } else {
        None
    }
}

/// The changes that the user asks for in the record of a site. What is `None` stays.
#[derive(Clone, Debug)]
pub struct SiteEdits {
    pub state: Option<String>,
    pub auto_download: Option<bool>,
    pub name: Option<String>,
    pub notes: Option<String>,
    /// Seconds that local standard time is ahead of UTC.
    pub utc_offset: Option<i32>,
}

/// `new` where there is one, and `old` otherwise.
pub open spec fn replaced(old: Option<Seq<char>>, new: Option<Seq<char>>) -> Option<Seq<char>> {
    if new.is_some() {
        new
    } else {
        old
    }
}

impl SiteInfo {
    /// The record with the changes that the user asks for: each field that `edits` names is
    /// replaced, and every other stays. The station stays in any case.
    pub fn modified(self, edits: SiteEdits) -> (site: SiteInfo)
        ensures
            site.station_num == self.station_num,
            text_of(site.name) == replaced(text_of(self.name), text_of(edits.name)),
            text_of(site.notes) == replaced(text_of(self.notes), text_of(edits.notes)),
            text_of(site.state) == replaced(text_of(self.state), text_of(edits.state)),
            site.utc_offset == (if edits.utc_offset.is_some() {
                edits.utc_offset
            } else {
                self.utc_offset
            }),
            site.auto_download == (match edits.auto_download {
                Some(choice) => choice,
                None => self.auto_download,
            }),
    {
        SiteInfo {
            station_num: self.station_num,
            name: if edits.name.is_some() {
                edits.name
            } else {
                self.name
            },
            notes: if edits.notes.is_some() {
                edits.notes
            } else {
                self.notes
            },
            state: if edits.state.is_some() {
                edits.state
            } else {
                self.state
            },
            utc_offset: if edits.utc_offset.is_some() {
                edits.utc_offset
            } else {
                self.utc_offset
            },
            auto_download: match edits.auto_download {
                Some(choice) => choice,
                None => self.auto_download,
            },
        }
    }
}

} // verus!
