use agentdictate::job::RuntimeError;
use agentdictate::usage::{
    dated_counts, monday_of, summarize, usage_day, weekday_of, DayCounts, UsageCounts, MAX_DAY, MIN_DAY,
};
use chrono::{Datelike, NaiveDate};

fn day(text: &str) -> i64 {
    let date = NaiveDate::parse_from_str(text, "%Y-%m-%d").unwrap();
    date.signed_duration_since(NaiveDate::from_ymd_opt(1970, 1, 1).unwrap()).num_days()
}

fn counts(dictations: u64) -> UsageCounts {
    UsageCounts { dictations, words: dictations * 10 }
}

#[test]
fn weekdays_follow_the_calendar() {
    for text in ["1970-01-01", "2026-09-23", "2026-09-21", "1969-12-28", "1600-02-29", "2400-12-31"] {
        let date = NaiveDate::parse_from_str(text, "%Y-%m-%d").unwrap();
        assert_eq!(weekday_of(day(text)), i64::from(date.weekday().num_days_from_monday()), "{text}");
    }
    assert_eq!(monday_of(day("2026-09-23")), day("2026-09-21"));
    assert_eq!(monday_of(day("2026-09-21")), day("2026-09-21"));
    assert_eq!(monday_of(day("2026-08-01")), day("2026-07-27"));
}

#[test]
fn the_calendar_ends_are_the_dates_chrono_has() {
    let epoch = NaiveDate::from_ymd_opt(1970, 1, 1).unwrap();
    assert_eq!(NaiveDate::MIN.signed_duration_since(epoch).num_days(), MIN_DAY);
    assert_eq!(NaiveDate::MAX.signed_duration_since(epoch).num_days(), MAX_DAY);
    for offset in 0..10 {
        for number in [MIN_DAY + offset, MAX_DAY - offset] {
            let date = epoch + chrono::TimeDelta::days(number);
            let monday = date
                .checked_sub_days(chrono::Days::new(date.weekday().num_days_from_monday().into()))
                .unwrap_or(date);
            assert_eq!(monday_of(number), monday.signed_duration_since(epoch).num_days(), "{date}");
        }
    }
}

#[test]
fn totals_cover_recent_windows_all_time_and_every_week() {
    // 2026-09-23 is a Wednesday.
    let today = day("2026-09-23");
    let days = vec![
        DayCounts { day: day("2026-08-01"), counts: counts(1) },
        DayCounts { day: day("2026-08-30"), counts: counts(2) },
        DayCounts { day: day("2026-09-16"), counts: counts(4) },
        DayCounts { day: day("2026-09-17"), counts: counts(8) },
        DayCounts { day: day("2026-09-22"), counts: counts(16) },
    ];

    let usage = summarize(&days, counts(32), today);

    assert_eq!(usage.activity.len(), 30);
    assert_eq!(usage.activity[0].day, day("2026-08-25"));
    assert_eq!(usage.activity[29].day, today);
    assert_eq!(usage.activity[28].counts, counts(16));
    assert_eq!(usage.last_7_days.dictations, 8 + 16);
    assert_eq!(usage.last_30_days.dictations, 2 + 4 + 8 + 16);
    assert_eq!(usage.all_time.dictations, 63);
    assert_eq!(usage.all_time.words, 630);
    let weeks = &usage.weekly_activity;
    assert_eq!(weeks.first().unwrap().day, day("2026-07-27"));
    assert_eq!(weeks.last().unwrap().day, day("2026-09-21"));
    assert_eq!(weeks.len(), 9);
    assert_eq!(weeks[1].counts, counts(0));
    assert_eq!(weeks[7].counts.dictations, 4 + 8);
}

#[test]
fn no_sessions_have_no_weeks_and_empty_days() {
    let usage = summarize(&Vec::new(), counts(0), day("2026-09-23"));

    assert!(usage.weekly_activity.is_empty());
    assert_eq!(usage.activity.len(), 30);
    assert!(usage.activity.iter().all(|entry| entry.counts == counts(0)));
    assert_eq!(usage.all_time, counts(0));
}

#[test]
fn activity_days_add_up_to_the_last_thirty_days() {
    let today = day("2026-01-02");
    let days: Vec<DayCounts> = (0..40).map(|k| DayCounts { day: today - k, counts: counts(k as u64 + 1) }).collect();
    let usage = summarize(&days, counts(0), today);
    let sum: u64 = usage.activity.iter().map(|entry| entry.counts.dictations).sum();
    assert_eq!(sum, usage.last_30_days.dictations);
    assert_eq!(usage.last_30_days.dictations, (1..=30).sum::<u64>());
    assert_eq!(usage.last_7_days.dictations, (1..=7).sum::<u64>());
}

#[test]
fn the_chart_starts_at_the_first_day_of_the_calendar() {
    let usage = summarize(&vec![DayCounts { day: MIN_DAY, counts: counts(1) }], counts(0), MIN_DAY + 3);
    assert_eq!(usage.activity.len(), 4);
    assert_eq!(usage.activity[0].day, MIN_DAY);
    assert_eq!(usage.weekly_activity.len(), 1);
    assert_eq!(usage.weekly_activity[0].day, MIN_DAY);
}

#[test]
fn future_days_make_no_weeks() {
    let today = day("2026-09-23");
    let usage = summarize(&vec![DayCounts { day: today + 30, counts: counts(3) }], counts(0), today);
    assert!(usage.weekly_activity.is_empty());
    assert_eq!(usage.all_time.dictations, 3);
    assert_eq!(usage.last_30_days.dictations, 0);
}

#[test]
fn usage_dates_read_as_day_numbers() {
    assert_eq!(usage_day("1970-01-01"), Ok(0));
    assert_eq!(usage_day("2024-03-01"), Ok(19_783));
    assert_eq!(usage_day("1969-12-31"), Ok(-1));
    assert!(matches!(usage_day("2024-02-30"), Err(RuntimeError::InvalidUsageDate { ref date, .. }) if date == "2024-02-30"));
}

#[test]
fn dated_rows_become_days_and_undated_rows_are_summed_apart() {
    let rows = vec![
        (Some("2024-03-02".to_owned()), UsageCounts { dictations: 2, words: 20 }),
        (None, UsageCounts { dictations: 1, words: 5 }),
        (Some("2024-03-01".to_owned()), UsageCounts { dictations: 3, words: 30 }),
        (None, UsageCounts { dictations: 4, words: 7 }),
    ];
    let (days, undated) = dated_counts(&rows).expect("every date reads");
    assert_eq!(
        days,
        vec![
            DayCounts { day: 19_784, counts: UsageCounts { dictations: 2, words: 20 } },
            DayCounts { day: 19_783, counts: UsageCounts { dictations: 3, words: 30 } },
        ]
    );
    assert_eq!(undated, UsageCounts { dictations: 5, words: 12 });
}

#[test]
fn the_first_unreadable_usage_date_is_the_error() {
    let rows = vec![
        (Some("2024-03-02".to_owned()), UsageCounts { dictations: 2, words: 20 }),
        (Some("March".to_owned()), UsageCounts { dictations: 1, words: 1 }),
        (Some("later".to_owned()), UsageCounts { dictations: 1, words: 1 }),
    ];
    assert!(matches!(dated_counts(&rows), Err(RuntimeError::InvalidUsageDate { ref date, .. }) if date == "March"));
}
