//! Sorting, by the standard library.

use crate::generator::{candidate_views, having_time, newest_first, DownloadCandidate};
use crate::site::{site_before, sites_in_order, summary_views, StationSummary};
use crate::text::is_text_before;
use std::cmp::Ordering;
use vstd::prelude::*;

verus! {

/// Sorts candidates by initialization time, newest first, by `slice::sort_by_key`.
///
/// Trusted: the standard library's sort by key puts the keys in order and is stable, so that
/// the candidates of any one time are afterwards those of before, in their order of before.
#[verifier::external_body]
pub(crate) fn sort_newest_first(list: &mut Vec<DownloadCandidate>)
    ensures
        newest_first(candidate_views(final(list)@)),
        forall|time: crate::time::Timestamp|
            having_time(candidate_views(final(list)@), time) == having_time(
                candidate_views(old(list)@),
                time,
            ),
{
    list.sort_by_key(|candidate| std::cmp::Reverse(candidate.init_time.secs));
}

/// Where `left` stands in the list of sites, seen from `right`: before it, after it, or at the
/// same place.
pub fn site_ordering(left: &StationSummary, right: &StationSummary) -> (order: Ordering)
    ensures
        (order == Ordering::Less) == site_before(left@, right@),
        (order == Ordering::Greater) == site_before(right@, left@),
{
    proof {
        match (left@.state, right@.state) {
            (Some(l), Some(r)) => {
                crate::text::lemma_text_before_is_an_order(l, r, l);
            },
            _ => {},
        }
    }
    match (&left.state, &right.state) {
        (Some(_), None) => Ordering::Less,
        (None, Some(_)) => Ordering::Greater,
        (Some(l), Some(r)) => {
            if is_text_before(l.as_str(), r.as_str()) {
                Ordering::Less
            } else if is_text_before(r.as_str(), l.as_str()) {
                Ordering::Greater
            } else {
                by_number(left.station_num.num, right.station_num.num)
            }
        },
        (None, None) => by_number(left.station_num.num, right.station_num.num),
    }
}

/// Where the number `left` stands, seen from `right`.
fn by_number(left: u32, right: u32) -> (order: Ordering)
    ensures
        (order == Ordering::Less) == (left < right),
        (order == Ordering::Greater) == (left > right),
{
    if left < right {
        Ordering::Less
    } else if left > right {
        Ordering::Greater
    } else {
        Ordering::Equal
    }
}

/// Sorts the sites by state and station number, by `slice::sort_unstable_by`.
///
/// Trusted: with a comparison that is an order, the standard library's sort leaves no element
/// after one that it compares as less than, and keeps the elements.
#[verifier::external_body]
pub(crate) fn sort_by_state_and_number(list: &mut Vec<StationSummary>)
    ensures
        sites_in_order(summary_views(final(list)@)),
        summary_views(final(list)@).to_multiset() == summary_views(old(list)@).to_multiset(),
{
    list.sort_unstable_by(|left, right| site_ordering(left, right));
}

} // verus!
