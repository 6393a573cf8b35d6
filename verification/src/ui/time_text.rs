//! How the windows word durations and times to come.

use vstd::prelude::*;

use crate::text::{decimal, decimal_chars, push_char};
use crate::ui::overlay::two_digits;

verus! {

fn push_digits(s: &mut String, n: u64)
    ensures
        final(s)@ == old(s)@ + decimal(n as nat),
{
    let v = decimal_chars(n);
    let mut i: usize = 0;
    while i < v.len()
        invariant
            i <= v@.len(),
            v@ == decimal(n as nat),
            s@ == old(s)@ + v@.take(i as int),
        decreases v@.len() - i,
    {
        push_char(s, v[i]);
        proof {
            assert(s@ =~= old(s)@ + v@.take(i + 1));
        }
        i += 1;
    }
    proof {
        assert(v@.take(v@.len() as int) =~= v@);
    }
}

/// How long until a Recovery item is deleted, `minutes` from now, rounded
/// to the nearest hour below 36 hours and to the nearest day above.
pub open spec fn spec_expiry_text(minutes: int) -> Seq<char> {
    if minutes < 60 {
        "Expires in less than an hour"@
    } else if minutes < 36 * 60 {
        let hours = (minutes + 30) / 60;
        "Expires in "@ + decimal(hours as nat) + (if hours == 1 { " hour"@ } else { " hours"@ })
    } else {
        "Expires in "@ + decimal(((minutes + 720) / 1440) as nat) + " days"@
    }
}

/// Words the time left before a Recovery item expires, from the whole
/// minutes left (negative once it is due).
pub fn expiry_text(minutes: i64) -> (text: String)
    ensures
        text@ == spec_expiry_text(minutes as int),
{
    if minutes < 60 {
        String::from_str("Expires in less than an hour")
    } else if minutes < 36 * 60 {
        let hours = ((minutes + 30) / 60) as u64;
        let mut text = String::from_str("Expires in ");
        push_digits(&mut text, hours);
        if hours == 1 {
            text.append(" hour");
        } else {
            text.append(" hours");
        }
        text
    } else {
        let days = (((minutes as i128) + 720) / 1440) as u64;
        let mut text = String::from_str("Expires in ");
        push_digits(&mut text, days);
        text.append(" days");
        text
    }
}

/// The whole minutes from `now` to `expires_at`, both in seconds since the
/// Unix epoch, truncated toward zero as a time span counts minutes.
pub open spec fn spec_minutes_until(expires_at: int, now: int) -> int {
    let seconds = expires_at - now;
    if seconds >= 0 { seconds / 60 } else { -((-seconds) / 60) }
}

/// Says how long until a Recovery item expiring at `expires_at` is deleted,
/// seen at `now` (both in seconds since the Unix epoch).
pub fn format_expiry(expires_at: i64, now: i64) -> (text: String)
    ensures
        text@ == spec_expiry_text(spec_minutes_until(expires_at as int, now as int)),
{
    let seconds = (expires_at as i128) - (now as i128);
    let minutes: i128 = if seconds >= 0 { seconds / 60 } else { -((-seconds) / 60) };
    if minutes >= 36 * 60 && minutes > i64::MAX as i128 {
        let days = ((minutes + 720) / 1440) as u64;
        let mut text = String::from_str("Expires in ");
        push_digits(&mut text, days);
        text.append(" days");
        return text;
    }
    if minutes < i64::MIN as i128 {
        return String::from_str("Expires in less than an hour");
    }
    expiry_text(minutes as i64)
}

/// A duration in the overview: whole minutes and two-digit seconds.
pub open spec fn spec_format_duration(seconds: nat) -> Seq<char> {
    decimal(seconds / 60) + "m "@ + two_digits(seconds % 60) + "s"@
}

pub fn format_duration(seconds: u64) -> (text: String)
    ensures
        text@ == spec_format_duration(seconds as nat),
{
    let mut text = String::new();
    push_digits(&mut text, seconds / 60);
    text.append("m ");
    let s = seconds % 60;
    if s < 10 {
        push_char(&mut text, '0');
    }
    push_digits(&mut text, s);
    text.append("s");
    proof {
        assert(text@ =~= spec_format_duration(seconds as nat));
    }
    text
}

/// The strftime pattern a History row's time is written with, from how many
/// local calendar days ago it was and whether that day is in the current
/// year: the time of day for today and yesterday, the weekday and time in
/// the last week, then the date, with the year when it differs.
pub open spec fn spec_history_time_format(days_ago: int, same_year: bool) -> Seq<char> {
    if days_ago == 0 {
        "Today %H:%M"@
    } else if days_ago == 1 {
        "Yesterday %H:%M"@
    } else if 2 <= days_ago <= 6 {
        "%a %H:%M"@
    } else if same_year {
        "%b %-d"@
    } else {
        "%b %-d, %Y"@
    }
}

pub fn history_time_format(days_ago: i64, same_year: bool) -> (pattern: &'static str)
    ensures
        pattern@ == spec_history_time_format(days_ago as int, same_year),
{
    if days_ago == 0 {
        "Today %H:%M"
    } else if days_ago == 1 {
        "Yesterday %H:%M"
    } else if 2 <= days_ago && days_ago <= 6 {
        "%a %H:%M"
    } else if same_year {
        "%b %-d"
    } else {
        "%b %-d, %Y"
    }
}

/// The periods the overview's activity chart can show.
#[derive(Clone, Copy, Debug, PartialEq, Eq, Structural)]
pub enum UsagePeriod {
    Last7Days,
    Last30Days,
    AllTime,
}

pub fn activity_scope_label(period: UsagePeriod) -> (label: &'static str)
    ensures
        label@ == match period {
            UsagePeriod::Last7Days => "Last 7 days"@,
            UsagePeriod::Last30Days => "Last 30 days"@,
            UsagePeriod::AllTime => "All time · grouped by week"@,
        },
{
    match period {
        UsagePeriod::Last7Days => "Last 7 days",
        UsagePeriod::Last30Days => "Last 30 days",
        UsagePeriod::AllTime => "All time · grouped by week",
    }
}

} // verus!
