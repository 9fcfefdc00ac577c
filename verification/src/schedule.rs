//! The bot's calendar: which tokens are fresh enough to analyse, how many
//! alerts a day may be sent, and when the daily report, the weekly report
//! and the no-trade warning are due.

use vstd::prelude::*;
use vstd::string::*;
use crate::telegram::{signed_decimal, signed_decimal_string};
use crate::text::{decimal, decimal_string, same_text};

verus! {

/// Telegram alerts sent per day at most.
pub const MAX_DAILY_ALERTS: u32 = 15;

/// Tokens older than this many whole hours are not analysed.
pub const MAX_TOKEN_AGE_HOURS: i64 = 6;

/// Hours without a trade after which the bot warns, and between warnings.
pub const NO_TRADE_WARNING_HOURS: u64 = 6;

/// Another alert may be sent today.
pub fn alert_allowed(daily_alert_count: u32) -> (b: bool)
    ensures
        b == (daily_alert_count < MAX_DAILY_ALERTS),
{
    daily_alert_count < MAX_DAILY_ALERTS
}

/// A listed token is analysed when it is on Solana and, where its creation
/// time is known (a positive Unix time), it is at most 6 whole hours old at
/// `now`, that is less than 7 hours (one created later than `now` counts as
/// new).
pub open spec fn fresh_token(on_solana: bool, created: i64, now: i64) -> bool {
    on_solana && (created > 0 ==> now - created < (MAX_TOKEN_AGE_HOURS + 1) * 3600)
}

/// Whether a listed token is analysed, given its chain, its creation time in
/// seconds (0 when unknown) and the time now.
pub fn is_fresh_token(chain_id: &str, created_secs: i64, now_secs: i64) -> (b: bool)
    requires
        chain_id@ == "solana"@ && created_secs > 0 ==> now_secs - created_secs >= i64::MIN,
    ensures
        b == fresh_token(chain_id@ == "solana"@, created_secs, now_secs),
{
    if !same_text(chain_id, "solana") {
        return false;
    }
    if created_secs > 0 {
        let age_secs = now_secs - created_secs;
        return age_secs < 25200;
    }
    true
}

/// The no-trade warning is due: 6 hours have passed since the last trade and
/// since the last warning.
pub open spec fn warning_due(since_trade_ms: u64, since_warning_ms: u64) -> bool {
    since_trade_ms >= NO_TRADE_WARNING_HOURS * 3_600_000 && since_warning_ms >= NO_TRADE_WARNING_HOURS
        * 3_600_000
}

/// Whether to send the no-trade warning, given the milliseconds since the last
/// trade and since the last warning.
pub fn no_trade_warning_due(since_trade_ms: u64, since_warning_ms: u64) -> (b: bool)
    ensures
        b == warning_due(since_trade_ms, since_warning_ms),
{
    since_trade_ms >= 21_600_000 && since_warning_ms >= 21_600_000
}

/// Whole hours in a span of milliseconds.
pub fn whole_hours(ms: u64) -> (h: u64)
    ensures
        h == ms / 3_600_000,
{
    ms / 3_600_000
}

/// Whether a new day has begun since the date last handled: the daily report
/// is due, and the daily alert count starts over, when today's date differs
/// from the one recorded.
pub fn new_day(today: &str, last_date: &str) -> (b: bool)
    ensures
        b == (today@ != last_date@),
{
    !same_text(today, last_date)
}

/// The key of an ISO week: the year, `-W` and the week number with at least
/// two digits.
pub open spec fn week_key_text(year: i32, week: u32) -> Seq<char> {
    signed_decimal(year as int) + "-W"@ + if week < 10 {
        "0"@ + decimal(week as nat)
    } else {
        decimal(week as nat)
    }
}

/// The key of ISO week `week` of `year`, such as `2025-W03`.
pub fn week_key(year: i32, week: u32) -> (k: String)
    ensures
        k@ == week_key_text(year, week),
{
    let mut k = signed_decimal_string(year as i64);
    k.append("-W");
    if week < 10 {
        k.append("0");
    }
    k.append(decimal_string(week as u64).as_str());
    k
}

/// The weekly report is due on Mondays from 06:00 UTC, once per ISO week.
pub open spec fn weekly_due(is_monday: bool, hour: u32, week_key: Seq<char>, last_week_key: Seq<char>) -> bool {
    is_monday && hour >= 6 && week_key != last_week_key
}

/// Whether the weekly report is due, given the day and hour (UTC) and the keys
/// of this week and of the week last reported.
pub fn weekly_report_due(is_monday: bool, hour: u32, week_key: &str, last_week_key: &str) -> (b: bool)
    ensures
        b == weekly_due(is_monday, hour, week_key@, last_week_key@),
{
    if !is_monday || hour < 6 {
        return false;
    }
    !same_text(week_key, last_week_key)
}

/// Once a report was sent for a week (its key recorded), no other report is
/// due that week.
pub proof fn law_one_weekly_report_per_week(is_monday: bool, hour: u32, key: Seq<char>)
    ensures
        !weekly_due(is_monday, hour, key, key),
{
}

} // verus!
