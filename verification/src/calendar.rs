//! The release calendar: which episode releases a month or a day lists, and in what order.
use vstd::prelude::*;
use crate::episodes::{lemma_number_order, number_before};

verus! {

/// An episode release with its date in UTC, as the calendar reads it.
#[derive(Clone, Copy, Debug)]
pub struct Release {
    /// Seconds since the Unix epoch.
    pub unix: i64,
    pub year: i32,
    pub month: u32,
    pub day: u32,
    pub season: Option<u64>,
    pub episode: Option<u64>,
}

/// The release falls in the shown month.
pub open spec fn in_month(r: Release, year: i32, month: u32) -> bool {
    r.year == year && r.month == month
}

/// The release is listed: in the shown month, and on the selected day unless the whole
/// month is shown.
pub open spec fn listed(r: Release, year: i32, month: u32, day: u32, full_month: bool) -> bool {
    in_month(r, year, month) && (full_month || r.day == day)
}

/// Release `a` is listed before release `b`: earlier first, then by season and episode
/// number (no number first), and in the order given when all of these are equal.
pub open spec fn release_before(rs: Seq<Release>, a: int, b: int) -> bool {
    let x = rs[a];
    let y = rs[b];
    ||| x.unix < y.unix
    ||| (x.unix == y.unix && number_before(x.season, y.season))
    ||| (x.unix == y.unix && x.season == y.season && number_before(x.episode, y.episode))
    ||| (x.unix == y.unix && x.season == y.season && x.episode == y.episode && a < b)
}

proof fn lemma_release_order(rs: Seq<Release>, a: int, b: int, c: int)
    ensures
        a != b ==> release_before(rs, a, b) || release_before(rs, b, a),
        !release_before(rs, a, a),
        release_before(rs, a, b) && release_before(rs, b, c) ==> release_before(rs, a, c),
{
    lemma_number_order(rs[a].season, rs[b].season, rs[c].season);
    lemma_number_order(rs[a].episode, rs[b].episode, rs[c].episode);
}

/// The days of the shown month that have releases, in release order, once per release.
pub open spec fn marked_days(rs: Seq<Release>, year: i32, month: u32) -> Seq<u32>
    decreases rs.len(),
{
    if rs.len() == 0 {
        Seq::empty()
    } else if in_month(rs.last(), year, month) {
        marked_days(rs.drop_last(), year, month).push(rs.last().day)
    } else {
        marked_days(rs.drop_last(), year, month)
    }
}

fn same_optional(a: Option<u64>, b: Option<u64>) -> (r: bool)
    ensures
        r == (a == b),
{
    match (a, b) {
        (None, None) => true,
        (Some(x), Some(y)) => x == y,
        _ => false,
    }
}

fn optional_before(a: Option<u64>, b: Option<u64>) -> (r: bool)
    ensures
        r == number_before(a, b),
{
    match (a, b) {
        (None, Some(_)) => true,
        (Some(x), Some(y)) => x < y,
        _ => false,
    }
}

/// Whether release `a` keeps its place before a release `b` added after it.
fn stays_before(rs: &Vec<Release>, a: usize, b: usize) -> (r: bool)
    requires
        a < b < rs@.len(),
    ensures
        r == release_before(rs@, a as int, b as int),
{
    let x = &rs[a];
    let y = &rs[b];
    x.unix < y.unix || (x.unix == y.unix && optional_before(x.season, y.season)) || (x.unix == y.unix
        && same_optional(x.season, y.season) && optional_before(x.episode, y.episode)) || (x.unix == y.unix
        && same_optional(x.season, y.season) && same_optional(x.episode, y.episode))
}

/// The calendar's agenda: the positions of the listed releases in order, and the days of
/// the month to mark.
pub fn agenda(releases: &Vec<Release>, year: i32, month: u32, day: u32, full_month: bool) -> (r: (Vec<usize>, Vec<u32>))
    ensures
        forall|i: int| 0 <= i < r.0@.len() ==> (#[trigger] r.0@[i]) < releases@.len()
            && listed(releases@[r.0@[i] as int], year, month, day, full_month),
        forall|k: int| 0 <= k < releases@.len() && listed(#[trigger] releases@[k], year, month, day, full_month)
            ==> r.0@.contains(k as usize),
        forall|i: int, j: int| 0 <= i < j < r.0@.len() ==> release_before(releases@, #[trigger] r.0@[i] as int, #[trigger] r.0@[j] as int),
        r.1@ == marked_days(releases@, year, month),
{
    let mut order: Vec<usize> = Vec::new();
    let mut days: Vec<u32> = Vec::new();
    let mut k: usize = 0;
    while k < releases.len()
        invariant
            k <= releases@.len(),
            forall|i: int| 0 <= i < order@.len() ==> (#[trigger] order@[i]) < k
                && listed(releases@[order@[i] as int], year, month, day, full_month),
            forall|q: int| 0 <= q < k && listed(#[trigger] releases@[q], year, month, day, full_month)
                ==> order@.contains(q as usize),
            forall|i: int, j: int| 0 <= i < j < order@.len() ==> release_before(releases@, #[trigger] order@[i] as int, #[trigger] order@[j] as int),
            days@ == marked_days(releases@.subrange(0, k as int), year, month),
        decreases releases@.len() - k,
    {
        let rel = &releases[k];
        let ghost next = releases@.subrange(0, k + 1);
        assert(next.drop_last() =~= releases@.subrange(0, k as int));
        assert(next.last() == releases@[k as int]);
        if rel.year == year && rel.month == month {
            days.push(rel.day);
            if full_month || rel.day == day {
                let mut p: usize = 0;
                while p < order.len() && stays_before(releases, order[p], k)
                    invariant
                        k < releases@.len(),
                        p <= order@.len(),
                        forall|i: int| 0 <= i < order@.len() ==> (#[trigger] order@[i]) < k,
                        forall|q: int| 0 <= q < p ==> release_before(releases@, #[trigger] order@[q] as int, k as int),
                    decreases order@.len() - p,
                {
                    p = p + 1;
                }
                let ghost before = order@;
                proof {
                    assert forall|q: int| p <= q < before.len() implies release_before(releases@, k as int, #[trigger] before[q] as int) by {
                        lemma_release_order(releases@, before[p as int] as int, k as int, k as int);
                        if q > p {
                            lemma_release_order(releases@, k as int, before[p as int] as int, before[q] as int);
                        }
                    }
                }
                order.insert(p, k);
                assert(order@ == before.insert(p as int, k));
                assert forall|a: int, b: int| 0 <= a < b < order@.len() implies release_before(releases@, #[trigger] order@[a] as int, #[trigger] order@[b] as int) by {
                    if b < p {
                    } else if a < p && b == p {
                    } else if a < p && b > p {
                        assert(order@[b] == before[b - 1]);
                        lemma_release_order(releases@, order@[a] as int, k as int, order@[b] as int);
                    } else if a == p {
                        assert(order@[b] == before[b - 1]);
                    } else {
                        assert(order@[a] == before[a - 1] && order@[b] == before[b - 1]);
                    }
                }
                assert forall|i: int| 0 <= i < order@.len() implies (#[trigger] order@[i]) < k + 1
                    && listed(releases@[order@[i] as int], year, month, day, full_month) by {
                    if i < p {
                        assert(order@[i] == before[i]);
                    } else if i > p {
                        assert(order@[i] == before[i - 1]);
                    }
                }
                assert forall|q: int| 0 <= q < k + 1 && listed(#[trigger] releases@[q], year, month, day, full_month)
                    implies order@.contains(q as usize) by {
                    if q < k {
                        let i = choose|i: int| 0 <= i < before.len() && before[i] == q as usize;
                        if i < p {
                            assert(order@[i] == q as usize);
                        } else {
                            assert(order@[i + 1] == q as usize);
                        }
                    } else {
                        assert(order@[p as int] == k);
                    }
                }
            }
        }
        k = k + 1;
    }
    assert(releases@.subrange(0, releases@.len() as int) =~= releases@);
    (order, days)
}

/// What the calendar says instead of an agenda: no installed addon provides a calendar, or
/// My list is empty.
pub fn calendar_notice(supported: bool, library_empty: bool) -> (r: Option<&'static str>)
    ensures
        !supported ==> (r matches Some(t) && t@ == "None of your enabled addons provides a calendar. Install an addon that declares calendarVideosIds."@),
        supported && library_empty ==> (r matches Some(t) && t@ == "Add shows to My list to follow their episode releases here."@),
        supported && !library_empty ==> r is None,
{
    if !supported {
        Some("None of your enabled addons provides a calendar. Install an addon that declares calendarVideosIds.")
    } else if library_empty {
        Some("Add shows to My list to follow their episode releases here.")
    } else {
        None
    }
}

} // verus!
