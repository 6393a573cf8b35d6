//! The overview's usage numbers: dictations and words per local calendar
//! day, summed over the last 7 and 30 days, over all time, and per
//! Monday-based week from the first active week through the current one.
//! Days are numbered from 1970-01-01, within the calendar's range.

use vstd::prelude::*;

use crate::job::RuntimeError;

verus! {

/// The first day of the calendar, a Thursday.
pub const MIN_DAY: i64 = -96465292;

/// The last day of the calendar (262142-12-31).
pub const MAX_DAY: i64 = 95026236;

/// Days in the overview's recent activity chart.
pub const ACTIVITY_DAYS: i64 = 30;

pub open spec fn valid_day(d: int) -> bool {
    MIN_DAY <= d <= MAX_DAY
}

/// Days since the Monday of `d`'s week; 1970-01-01 was a Thursday.
pub open spec fn weekday(d: int) -> int {
    (d + 3) % 7
}

/// The Monday that starts `d`'s week, or `d` itself when that Monday falls
/// before the calendar's first day.
pub open spec fn spec_monday_of(d: int) -> int {
    if d - weekday(d) >= MIN_DAY {
        d - weekday(d)
    } else {
        d
    }
}

/// Days from the Monday of `day`'s week.
pub fn weekday_of(day: i64) -> (w: i64)
    requires
        valid_day(day as int),
    ensures
        w == weekday(day as int),
        0 <= w < 7,
{
    let x = (day - MIN_DAY) as u64;
    let w = ((x + 3) % 7) as i64;
    proof {
        let d = day as int;
        assert(d + 3 == (x + 3) - 7 * 13780756);
        lemma_mod_shift((x + 3) as int, 13780756);
    }
    w
}

proof fn lemma_mod_shift(a: int, k: int)
    requires
        k >= 0,
    ensures
        (a - 7 * k) % 7 == a % 7,
    decreases k,
{
    if k > 0 {
        lemma_mod_shift(a, k - 1);
        vstd::arithmetic::div_mod::lemma_mod_sub_multiples_vanish(a - 7 * (k - 1), 7);
        assert(a - 7 * k == -7 + (a - 7 * (k - 1)));
    }
}

/// The Monday that starts `day`'s week.
pub fn monday_of(day: i64) -> (monday: i64)
    requires
        valid_day(day as int),
    ensures
        monday == spec_monday_of(day as int),
        valid_day(monday as int),
        monday <= day,
{
    let w = weekday_of(day);
    if day - w >= MIN_DAY {
        day - w
    } else {
        day
    }
}

/// Dictations and words.
#[derive(Clone, Copy, Debug, PartialEq, Eq, Structural)]
pub struct UsageCounts {
    pub dictations: u64,
    pub words: u64,
}

/// The counts of one day, or of the week that starts on it.
#[derive(Clone, Copy, Debug, PartialEq, Eq, Structural)]
pub struct DayCounts {
    pub day: i64,
    pub counts: UsageCounts,
}

/// The overview's numbers.
#[derive(Clone, Debug, PartialEq, Eq)]
pub struct UsageSummary {
    pub last_7_days: UsageCounts,
    pub last_30_days: UsageCounts,
    pub all_time: UsageCounts,
    /// One entry per day of the last 30, oldest first, empty days included.
    pub activity: Vec<DayCounts>,
    /// One entry per week from the first active week through the current
    /// one, empty weeks included, each dated by its Monday.
    pub weekly_activity: Vec<DayCounts>,
}

/// The summed counts of the days that `keep` selects.
pub open spec fn sum_where(days: Seq<DayCounts>, keep: spec_fn(int) -> bool) -> (nat, nat)
    decreases days.len(),
{
    if days.len() == 0 {
        (0, 0)
    } else {
        let rest = sum_where(days.drop_last(), keep);
        let d = days.last();
        if keep(d.day as int) {
            ((rest.0 + d.counts.dictations) as nat, (rest.1 + d.counts.words) as nat)
        } else {
            rest
        }
    }
}

pub open spec fn all_days() -> spec_fn(int) -> bool {
    |x: int| true
}

pub open spec fn in_window(lo: int, hi: int) -> spec_fn(int) -> bool {
    |x: int| lo <= x <= hi
}

pub open spec fn in_week(monday: int) -> spec_fn(int) -> bool {
    |x: int| spec_monday_of(x) == monday
}

pub open spec fn counts_are(c: UsageCounts, s: (nat, nat)) -> bool {
    c.dictations == s.0 && c.words == s.1
}

/// A selection of days sums to no more than all of them.
pub proof fn lemma_sum_where_bounded(days: Seq<DayCounts>, keep: spec_fn(int) -> bool)
    ensures
        sum_where(days, keep).0 <= sum_where(days, all_days()).0,
        sum_where(days, keep).1 <= sum_where(days, all_days()).1,
    decreases days.len(),
{
    if days.len() > 0 {
        lemma_sum_where_bounded(days.drop_last(), keep);
    }
}

pub open spec fn fits(days: Seq<DayCounts>, undated: UsageCounts) -> bool {
    &&& sum_where(days, all_days()).0 + undated.dictations <= u64::MAX
    &&& sum_where(days, all_days()).1 + undated.words <= u64::MAX
}

/// Sums the counts of the days `lo..=hi`, or with `by_week` of the days
/// whose week starts on `lo`.
fn sum_selected(days: &Vec<DayCounts>, lo: i64, hi: i64, by_week: bool) -> (c: UsageCounts)
    requires
        forall|i: int| 0 <= i < days@.len() ==> valid_day(#[trigger] days@[i].day as int),
        fits(days@, UsageCounts { dictations: 0, words: 0 }),
    ensures
        counts_are(c, sum_where(days@, if by_week { in_week(lo as int) } else { in_window(lo as int, hi as int) })),
{
    let ghost keep = if by_week { in_week(lo as int) } else { in_window(lo as int, hi as int) };
    let mut dictations: u64 = 0;
    let mut words: u64 = 0;
    let mut i: usize = 0;
    proof {
        assert(days@.take(0) =~= Seq::<DayCounts>::empty());
    }
    while i < days.len()
        invariant
            i <= days@.len(),
            forall|k: int| 0 <= k < days@.len() ==> valid_day(#[trigger] days@[k].day as int),
            fits(days@, UsageCounts { dictations: 0, words: 0 }),
            keep == (if by_week { in_week(lo as int) } else { in_window(lo as int, hi as int) }),
            dictations == sum_where(days@.take(i as int), keep).0,
            words == sum_where(days@.take(i as int), keep).1,
        decreases days@.len() - i,
    {
        let d = days[i];
        let selected = if by_week {
            monday_of(d.day) == lo
        } else {
            lo <= d.day && d.day <= hi
        };
        proof {
            let t = days@.take(i + 1);
            assert(t.drop_last() =~= days@.take(i as int));
            assert(t.last() == d);
            lemma_sum_where_bounded(t, keep);
            lemma_sum_prefix_bounded(days@, i + 1);
        }
        if selected {
            dictations = dictations + d.counts.dictations;
            words = words + d.counts.words;
        }
        i += 1;
    }
    proof {
        assert(days@.take(days@.len() as int) =~= days@);
    }
    UsageCounts { dictations, words }
}

/// A prefix of the days sums to no more than all of them.
proof fn lemma_sum_prefix_bounded(days: Seq<DayCounts>, n: int)
    requires
        0 <= n <= days.len(),
    ensures
        sum_where(days.take(n), all_days()).0 <= sum_where(days, all_days()).0,
        sum_where(days.take(n), all_days()).1 <= sum_where(days, all_days()).1,
    decreases days.len() - n,
{
    if n < days.len() {
        lemma_sum_prefix_bounded(days, n + 1);
        assert(days.take(n + 1).drop_last() =~= days.take(n));
    } else {
        assert(days.take(n) =~= days);
    }
}

/// The first day of the activity chart: 29 days before `today`, or the
/// calendar's first day.
pub open spec fn activity_start(today: int) -> int {
    if today - (ACTIVITY_DAYS - 1) >= MIN_DAY {
        today - (ACTIVITY_DAYS - 1)
    } else {
        MIN_DAY as int
    }
}

/// The earliest day of `days`.
pub open spec fn first_day(days: Seq<DayCounts>) -> int
    decreases days.len(),
{
    if days.len() <= 1 {
        days[0].day as int
    } else {
        let rest = first_day(days.drop_last());
        if days.last().day < rest { days.last().day as int } else { rest }
    }
}

/// How many weeks the weekly chart has: from the first active week through
/// the week of `today`, none without activity or when that week is later.
pub open spec fn week_count(days: Seq<DayCounts>, today: int) -> int {
    if days.len() == 0 {
        0
    } else {
        let first = spec_monday_of(first_day(days));
        let last = spec_monday_of(today);
        if first > last { 0 } else { (last - first) / 7 + 1 }
    }
}

/// Builds the overview's numbers from per-day counts (one entry per day,
/// as the database groups them) and the counts of days the database could
/// not read, which count toward all time only.
pub fn summarize(days: &Vec<DayCounts>, undated: UsageCounts, today: i64) -> (s: UsageSummary)
    requires
        forall|i: int| 0 <= i < days@.len() ==> valid_day(#[trigger] days@[i].day as int),
        valid_day(today as int),
        fits(days@, undated),
    ensures
        counts_are(s.last_7_days, sum_where(days@, in_window(today - 6, today as int))),
        counts_are(s.last_30_days, sum_where(days@, in_window(today - 29, today as int))),
        s.all_time.dictations == sum_where(days@, all_days()).0 + undated.dictations,
        s.all_time.words == sum_where(days@, all_days()).1 + undated.words,
        s.activity@.len() == today - activity_start(today as int) + 1,
        forall|k: int| 0 <= k < s.activity@.len() ==> {
            &&& (#[trigger] s.activity@[k]).day == activity_start(today as int) + k
            &&& counts_are(s.activity@[k].counts, sum_where(days@, in_window(s.activity@[k].day as int, s.activity@[k].day as int)))
        },
        s.weekly_activity@.len() == week_count(days@, today as int),
        forall|k: int| 0 <= k < s.weekly_activity@.len() ==> {
            &&& (#[trigger] s.weekly_activity@[k]).day == spec_monday_of(first_day(days@)) + 7 * k
            &&& counts_are(s.weekly_activity@[k].counts, sum_where(days@, in_week(s.weekly_activity@[k].day as int)))
        },
{
    proof {
        lemma_sum_where_bounded(days@, all_days());
    }
    let everything = sum_selected(days, MIN_DAY, MAX_DAY, false);
    proof {
        lemma_window_covers_all(days@);
    }
    let all_time = UsageCounts {
        dictations: everything.dictations + undated.dictations,
        words: everything.words + undated.words,
    };
    let last_7_days = sum_selected(days, today - 6, today, false);
    let last_30_days = sum_selected(days, today - 29, today, false);
    let start = if today - (ACTIVITY_DAYS - 1) >= MIN_DAY { today - (ACTIVITY_DAYS - 1) } else { MIN_DAY };
    let mut activity: Vec<DayCounts> = Vec::new();
    let mut day = start;
    while day <= today
        invariant
            start == activity_start(today as int),
            start <= day <= today + 1,
            valid_day(today as int),
            activity@.len() == day - start,
            forall|i: int| 0 <= i < days@.len() ==> valid_day(#[trigger] days@[i].day as int),
            fits(days@, UsageCounts { dictations: 0, words: 0 }),
            forall|k: int| 0 <= k < activity@.len() ==> {
                &&& (#[trigger] activity@[k]).day == start + k
                &&& counts_are(activity@[k].counts, sum_where(days@, in_window(activity@[k].day as int, activity@[k].day as int)))
            },
        decreases today - day + 1,
    {
        let counts = sum_selected(days, day, day, false);
        activity.push(DayCounts { day, counts });
        day = day + 1;
    }
    let mut weekly_activity: Vec<DayCounts> = Vec::new();
    if days.len() > 0 {
        let mut first = days[0].day;
        let mut i: usize = 1;
        proof {
            assert(first_day(days@.take(1)) == first);
        }
        while i < days.len()
            invariant
                1 <= i <= days@.len(),
                first == first_day(days@.take(i as int)),
                valid_day(first as int),
                forall|k: int| 0 <= k < days@.len() ==> valid_day(#[trigger] days@[k].day as int),
            decreases days@.len() - i,
        {
            proof {
                assert(days@.take(i + 1).drop_last() =~= days@.take(i as int));
            }
            if days[i].day < first {
                first = days[i].day;
            }
            i += 1;
        }
        proof {
            assert(days@.take(days@.len() as int) =~= days@);
        }
        let first_week = monday_of(first);
        let last_week = monday_of(today);
        let mut week = first_week;
        let mut k: usize = 0;
        while week <= last_week
            invariant
                valid_day(first_week as int),
                first_week == spec_monday_of(first_day(days@)),
                last_week == spec_monday_of(today as int),
                valid_day(last_week as int),
                week == first_week + 7 * k,
                first_week <= week,
                k > 0 ==> week <= last_week + 7,
                weekly_activity@.len() == k,
                forall|i: int| 0 <= i < days@.len() ==> valid_day(#[trigger] days@[i].day as int),
                fits(days@, UsageCounts { dictations: 0, words: 0 }),
                forall|j: int| 0 <= j < weekly_activity@.len() ==> {
                    &&& (#[trigger] weekly_activity@[j]).day == first_week + 7 * j
                    &&& counts_are(weekly_activity@[j].counts, sum_where(days@, in_week(weekly_activity@[j].day as int)))
                },
            decreases last_week - week + 7,
        {
            let counts = sum_selected(days, week, week, true);
            weekly_activity.push(DayCounts { day: week, counts });
            week = week + 7;
            k = k + 1;
        }
        proof {
            assert(week_count(days@, today as int) == k) by {
                if first_week <= last_week {
                    assert((last_week - first_week) / 7 + 1 == k) by (nonlinear_arith)
                        requires
                            week == first_week + 7 * k,
                            last_week < week,
                            k > 0 ==> week <= last_week + 7,
                            first_week <= last_week,
                            k >= 0;
                } else {
                    assert(k == 0) by (nonlinear_arith)
                        requires
                            week == first_week + 7 * k,
                            k > 0 ==> week <= last_week + 7,
                            first_week > last_week,
                            k >= 0;
                }
            }
        }
    }
    UsageSummary { last_7_days, last_30_days, all_time, activity, weekly_activity }
}

/// The counts of the `n` single days from `lo`, added up.
pub open spec fn window_total(days: Seq<DayCounts>, lo: int, n: nat) -> (nat, nat)
    decreases n,
{
    if n == 0 {
        (0, 0)
    } else {
        let before = window_total(days, lo, (n - 1) as nat);
        let last = sum_where(days, in_window(lo + n - 1, lo + n - 1));
        ((before.0 + last.0) as nat, (before.1 + last.1) as nat)
    }
}

proof fn lemma_window_split(days: Seq<DayCounts>, lo: int, hi: int)
    requires
        lo <= hi,
    ensures
        sum_where(days, in_window(lo, hi)).0 == sum_where(days, in_window(lo, hi - 1)).0 + sum_where(
            days,
            in_window(hi, hi),
        ).0,
        sum_where(days, in_window(lo, hi)).1 == sum_where(days, in_window(lo, hi - 1)).1 + sum_where(
            days,
            in_window(hi, hi),
        ).1,
    decreases days.len(),
{
    if days.len() > 0 {
        lemma_window_split(days.drop_last(), lo, hi);
    }
}

proof fn lemma_same_selection(days: Seq<DayCounts>, lo: int, lo2: int, hi: int)
    requires
        lo <= MIN_DAY,
        lo2 <= MIN_DAY,
        forall|i: int| 0 <= i < days.len() ==> valid_day(#[trigger] days[i].day as int),
    ensures
        sum_where(days, in_window(lo, hi)) == sum_where(days, in_window(lo2, hi)),
    decreases days.len(),
{
    if days.len() > 0 {
        let rest = days.drop_last();
        assert forall|i: int| 0 <= i < rest.len() implies valid_day(#[trigger] rest[i].day as int) by {
            assert(rest[i] == days[i]);
        }
        lemma_same_selection(rest, lo, lo2, hi);
        assert(valid_day(days[days.len() - 1].day as int));
    }
}

proof fn lemma_window_total(days: Seq<DayCounts>, lo: int, n: nat)
    ensures
        window_total(days, lo, n) == sum_where(days, in_window(lo, lo + n - 1)),
    decreases n,
{
    if n == 0 {
        lemma_empty_window(days, lo, lo - 1);
    } else {
        lemma_window_total(days, lo, (n - 1) as nat);
        lemma_window_split(days, lo, lo + n - 1);
    }
}

proof fn lemma_empty_window(days: Seq<DayCounts>, lo: int, hi: int)
    requires
        hi < lo,
    ensures
        sum_where(days, in_window(lo, hi)) == (0nat, 0nat),
    decreases days.len(),
{
    if days.len() > 0 {
        lemma_empty_window(days.drop_last(), lo, hi);
    }
}

/// The activity chart's days add up to the total of the last 30 days: each
/// of its entries is one day's counts, and together they are the window
/// that ends today.
pub proof fn lemma_activity_adds_up(days: Seq<DayCounts>, today: int)
    requires
        forall|i: int| 0 <= i < days.len() ==> valid_day(#[trigger] days[i].day as int),
        valid_day(today),
    ensures
        window_total(days, activity_start(today), (today - activity_start(today) + 1) as nat)
            == sum_where(days, in_window(today - 29, today)),
{
    let start = activity_start(today);
    lemma_window_total(days, start, (today - start + 1) as nat);
    if start != today - 29 {
        lemma_same_selection(days, start, today - 29, today);
    }
}

/// Every day of the calendar lies in its whole range.
proof fn lemma_window_covers_all(days: Seq<DayCounts>)
    requires
        forall|i: int| 0 <= i < days.len() ==> valid_day(#[trigger] days[i].day as int),
    ensures
        sum_where(days, in_window(MIN_DAY as int, MAX_DAY as int)) == sum_where(days, all_days()),
    decreases days.len(),
{
    if days.len() > 0 {
        let rest = days.drop_last();
        assert forall|i: int| 0 <= i < rest.len() implies valid_day(#[trigger] rest[i].day as int) by {
            assert(rest[i] == days[i]);
        }
        lemma_window_covers_all(rest);
        assert(valid_day(days[days.len() - 1].day as int));
    }
}


/// Days from 0001-12-31 to 1970-01-01: the day number of the Unix epoch
/// counted from the Common Era.
pub const UNIX_EPOCH_DAYS_FROM_CE: i64 = 719163;

/// The day that `chrono::NaiveDate::parse_from_str(text, "%Y-%m-%d")` reads,
/// counted as `chrono::Datelike::num_days_from_ce` counts it (0001-01-01 is
/// day 1), or `None` where the parse fails.
pub uninterp spec fn ymd_days_from_ce(text: Seq<char>) -> Option<int>;

/// Calls `chrono::NaiveDate::parse_from_str` with `"%Y-%m-%d"` and counts the
/// date's days from the Common Era. Claimed: the same text gives the same
/// answer, it fails exactly where the parse fails, and a parsed date lies
/// within `NaiveDate::MIN..=NaiveDate::MAX`, which are the calendar's first
/// and last days here. The error's text is chrono's own and is not stated.
#[verifier::external_body]
pub(crate) fn parse_ymd_days_from_ce(text: &str) -> (r: Result<i32, String>)
    ensures
        r matches Ok(d) ==> ymd_days_from_ce(text@) == Some(d as int),
        r matches Ok(d) ==> MIN_DAY + UNIX_EPOCH_DAYS_FROM_CE <= d <= MAX_DAY + UNIX_EPOCH_DAYS_FROM_CE,
        r is Err ==> ymd_days_from_ce(text@) is None,
{
    match chrono::NaiveDate::parse_from_str(text, "%Y-%m-%d") {
        Ok(date) => Ok(chrono::Datelike::num_days_from_ce(&date)),
        Err(error) => Err(error.to_string()),
    }
}

/// Reads a stored local date (`YYYY-MM-DD`) as a day number; text that is
/// not a date is an error that names it.
pub fn usage_day(date: &str) -> (r: Result<i64, RuntimeError>)
    ensures
        r matches Ok(d) ==> ymd_days_from_ce(date@) == Some(d + UNIX_EPOCH_DAYS_FROM_CE) && valid_day(d as int),
        r is Err <==> ymd_days_from_ce(date@) is None,
        r matches Err(e) ==> e matches RuntimeError::InvalidUsageDate { date: t, .. } && t@ == date@,
{
    match parse_ymd_days_from_ce(date) {
        Ok(d) => Ok(d as i64 - UNIX_EPOCH_DAYS_FROM_CE),
        Err(source) => Err(RuntimeError::InvalidUsageDate { date: date.to_string(), source }),
    }
}

/// Whether a row's date, where it has one, reads as a day.
pub open spec fn row_date_ok(row: (Option<String>, UsageCounts)) -> bool {
    match row.0 {
        Some(t) => ymd_days_from_ce(t@) is Some,
        None => true,
    }
}

/// The dated rows, in order, each as its day and its counts.
pub open spec fn dated_days(rows: Seq<(Option<String>, UsageCounts)>) -> Seq<DayCounts>
    decreases rows.len(),
{
    if rows.len() == 0 {
        Seq::empty()
    } else {
        let rest = dated_days(rows.drop_last());
        match rows.last().0 {
            Some(t) => rest.push(
                DayCounts { day: (ymd_days_from_ce(t@).unwrap() - UNIX_EPOCH_DAYS_FROM_CE) as i64, counts: rows.last().1 },
            ),
            None => rest,
        }
    }
}

/// The summed counts of the rows that have no date.
pub open spec fn undated_total(rows: Seq<(Option<String>, UsageCounts)>) -> (nat, nat)
    decreases rows.len(),
{
    if rows.len() == 0 {
        (0, 0)
    } else {
        let rest = undated_total(rows.drop_last());
        let c = rows.last().1;
        match rows.last().0 {
            Some(_) => rest,
            None => ((rest.0 + c.dictations) as nat, (rest.1 + c.words) as nat),
        }
    }
}

proof fn lemma_undated_prefix_bounded(rows: Seq<(Option<String>, UsageCounts)>, n: int)
    requires
        0 <= n <= rows.len(),
    ensures
        undated_total(rows.take(n)).0 <= undated_total(rows).0,
        undated_total(rows.take(n)).1 <= undated_total(rows).1,
    decreases rows.len() - n,
{
    if n < rows.len() {
        lemma_undated_prefix_bounded(rows, n + 1);
        assert(rows.take(n + 1).drop_last() =~= rows.take(n));
    } else {
        assert(rows.take(n) =~= rows);
    }
}

/// Splits the rows the database grouped by local date into dated days, in
/// order, and the summed counts of the rows whose date it could not read.
/// The first date that does not parse is the error.
pub fn dated_counts(rows: &Vec<(Option<String>, UsageCounts)>) -> (r: Result<(Vec<DayCounts>, UsageCounts), RuntimeError>)
    requires
        undated_total(rows@).0 <= u64::MAX,
        undated_total(rows@).1 <= u64::MAX,
    ensures
        r is Ok <==> forall|i: int| 0 <= i < rows@.len() ==> row_date_ok(#[trigger] rows@[i]),
        r matches Ok(p) ==> {
            &&& p.0@ == dated_days(rows@)
            &&& counts_are(p.1, undated_total(rows@))
            &&& forall|k: int| 0 <= k < p.0@.len() ==> valid_day(#[trigger] p.0@[k].day as int)
        },
        r matches Err(e) ==> exists|i: int| {
            &&& 0 <= i < rows@.len()
            &&& !row_date_ok(#[trigger] rows@[i])
            &&& forall|j: int| 0 <= j < i ==> row_date_ok(#[trigger] rows@[j])
            &&& rows@[i].0 matches Some(s)
            &&& e matches RuntimeError::InvalidUsageDate { date: t, .. }
            &&& t@ == s@
        },
{
    let mut days: Vec<DayCounts> = Vec::new();
    let mut dictations: u64 = 0;
    let mut words: u64 = 0;
    let mut i: usize = 0;
    proof {
        assert(rows@.take(0) =~= Seq::<(Option<String>, UsageCounts)>::empty());
    }
    while i < rows.len()
        invariant
            i <= rows@.len(),
            undated_total(rows@).0 <= u64::MAX,
            undated_total(rows@).1 <= u64::MAX,
            forall|j: int| 0 <= j < i ==> row_date_ok(#[trigger] rows@[j]),
            days@ == dated_days(rows@.take(i as int)),
            dictations == undated_total(rows@.take(i as int)).0,
            words == undated_total(rows@.take(i as int)).1,
            forall|k: int| 0 <= k < days@.len() ==> valid_day(#[trigger] days@[k].day as int),
        decreases rows@.len() - i,
    {
        let ghost t = rows@.take(i + 1);
        proof {
            assert(t.drop_last() =~= rows@.take(i as int));
            assert(t.last() == rows@[i as int]);
            lemma_undated_prefix_bounded(rows@, i + 1);
        }
        let counts = rows[i].1;
        match &rows[i].0 {
            Some(date) => {
                match usage_day(date.as_str()) {
                    Ok(day) => {
                        days.push(DayCounts { day, counts });
                    },
                    Err(e) => {
                        proof {
                            assert(!row_date_ok(rows@[i as int]));
                        }
                        return Err(e);
                    },
                }
            },
            None => {
                dictations = dictations + counts.dictations;
                words = words + counts.words;
            },
        }
        i += 1;
    }
    proof {
        assert(rows@.take(rows@.len() as int) =~= rows@);
    }
    Ok((days, UsageCounts { dictations, words }))
}

} // verus!
