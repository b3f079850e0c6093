//! The text of `stats` and `list`: the account section, the limit rows,
//! the activity section, the profile labels of the table and the warnings
//! about profiles whose usage could not be read.
use vstd::prelude::*;
use crate::activity::Trend;
use crate::format::{DASH, days_text, duration_text, format_days, format_duration, format_token_count, format_tokens, token_count_text, tokens_text, value_or_dash};
use crate::style::{
    ANSI_CYAN, ANSI_GOLD, ANSI_GREEN, ANSI_HEADING, ANSI_HINT, ANSI_PURPLE, ANSI_RED, ANSI_WHITE,
    ANSI_YELLOW, format_stat_row, styled, styled_message,
};
use crate::text::{append_padded_left, append_padded_right, append_str, decimal, decimal_string, pad_left, pad_right, starts_with, str_eq, str_has_prefix};
use crate::usage::Usage;

verus! {

/// The text `NaiveDate`'s `Display` gives for a day number
/// (`NaiveDate::from_num_days_from_ce_opt`), if the day is a date.
pub uninterp spec fn spec_date_text(day: i32) -> Option<Seq<char>>;

/// A day number as a date (`chrono::NaiveDate::from_num_days_from_ce_opt`,
/// then `to_string`), `None` where chrono has no date for it. The calendar
/// and the text are chrono's, named here.
#[verifier::external_body]
pub(crate) fn date_text(day: i32) -> (r: Option<String>)
    ensures
        match (r, spec_date_text(day)) {
            (Some(a), Some(b)) => a@ == b,
            (None, None) => true,
            _ => false,
        },
{
    match chrono::NaiveDate::from_num_days_from_ce_opt(day) {
        Some(date) => Some(date.to_string()),
        None => None,
    }
}

/// A date as printed, a dash where the day is no date.
pub open spec fn date_or_dash(day: i32) -> Seq<char> {
    match spec_date_text(day) {
        Some(t) => t,
        None => DASH@,
    }
}

/// A day number as printed.
pub fn format_date(day: i32) -> (r: String)
    ensures
        r@ == date_or_dash(day),
{
    match date_text(day) {
        Some(t) => t,
        None => String::from_str(DASH),
    }
}

/// A statistics row as `format_stat_row` writes it.
pub open spec fn stat_row(label: Seq<char>, value: Seq<char>, color: Seq<char>, colors: bool) -> Seq<
    char,
> {
    styled(pad_right(label, 20), ANSI_HINT@, colors) + styled(value, color, colors)
}

/// The available reset credits: their count, a dash when unknown.
pub open spec fn resets_text(credits: Option<u64>) -> Seq<char> {
    match credits {
        Some(c) => decimal(c as nat),
        None => DASH@,
    }
}

/// Reset credits in green when there are any, in the hint color otherwise.
pub open spec fn resets_color(credits: Option<u64>) -> Seq<char> {
    match credits {
        Some(c) => if c == 0 {
            ANSI_HINT@
        } else {
            ANSI_GREEN@
        },
        None => ANSI_HINT@,
    }
}

/// The account section of `stats`: its heading, then the profile, plan,
/// lifetime tokens, today's tokens, daily record, longest turn, the two
/// streaks and the available resets, one row each.
pub open spec fn account_lines(
    name: Seq<char>,
    u: Usage,
    today: i32,
    today_tokens: Option<u64>,
    colors: bool,
) -> Seq<Seq<char>> {
    seq![
        styled("ACCOUNT STATISTICS"@, ANSI_HEADING@, colors),
        stat_row("Profile"@, name, ANSI_GOLD@, colors),
        stat_row(
            "Plan"@,
            if u.plan@.len() == 0 {
                DASH@
            } else {
                u.plan@
            },
            ANSI_PURPLE@,
            colors,
        ),
        stat_row("Lifetime tokens"@, tokens_text(u.lifetime_tokens), ANSI_WHITE@, colors),
        stat_row("Today ("@ + date_or_dash(today) + ")"@, tokens_text(today_tokens), ANSI_CYAN@, colors),
        stat_row("Daily record"@, tokens_text(u.peak_daily_tokens), ANSI_CYAN@, colors),
        stat_row("Longest turn"@, duration_text(u.longest_running_turn_sec), ANSI_WHITE@, colors),
        stat_row("Current streak"@, days_text(u.current_streak_days), ANSI_GREEN@, colors),
        stat_row("Longest streak"@, days_text(u.longest_streak_days), ANSI_WHITE@, colors),
        stat_row(
            "Available resets"@,
            resets_text(u.reset_credits),
            resets_color(u.reset_credits),
            colors,
        ),
    ]
}

/// The account section of `stats` for a profile's usage, with today's day
/// number and today's tokens.
pub fn account_report(name: &str, usage: &Usage, today: i32, today_tokens: Option<u64>, colors: bool) -> (r:
    Vec<String>)
    ensures
        r@.len() == 10,
        forall|i: int|
            0 <= i < 10 ==> (#[trigger] r@[i])@ == account_lines(
                name@,
                *usage,
                today,
                today_tokens,
                colors,
            )[i],
{
    let mut r: Vec<String> = Vec::new();
    r.push(styled_message("ACCOUNT STATISTICS", ANSI_HEADING, colors));
    r.push(format_stat_row("Profile", name, ANSI_GOLD, colors));
    let plan = value_or_dash(usage.plan.as_str());
    r.push(format_stat_row("Plan", plan.as_str(), ANSI_PURPLE, colors));
    let lifetime = format_tokens(usage.lifetime_tokens);
    r.push(format_stat_row("Lifetime tokens", lifetime.as_str(), ANSI_WHITE, colors));
    let mut label = String::from_str("Today (");
    let date = format_date(today);
    append_str(&mut label, date.as_str());
    append_str(&mut label, ")");
    let today_text = format_tokens(today_tokens);
    r.push(format_stat_row(label.as_str(), today_text.as_str(), ANSI_CYAN, colors));
    let record = format_tokens(usage.peak_daily_tokens);
    r.push(format_stat_row("Daily record", record.as_str(), ANSI_CYAN, colors));
    let turn = format_duration(usage.longest_running_turn_sec);
    r.push(format_stat_row("Longest turn", turn.as_str(), ANSI_WHITE, colors));
    let current = format_days(usage.current_streak_days);
    r.push(format_stat_row("Current streak", current.as_str(), ANSI_GREEN, colors));
    let longest = format_days(usage.longest_streak_days);
    r.push(format_stat_row("Longest streak", longest.as_str(), ANSI_WHITE, colors));
    let resets = match usage.reset_credits {
        Some(c) => decimal_string(c),
        None => String::from_str(DASH),
    };
    let color = match usage.reset_credits {
        Some(c) => if c == 0 {
            ANSI_HINT
        } else {
            ANSI_GREEN
        },
        None => ANSI_HINT,
    };
    r.push(format_stat_row("Available resets", resets.as_str(), color, colors));
    proof {
        let want = account_lines(name@, *usage, today, today_tokens, colors);
        assert(r@[0]@ == want[0]);
        assert(r@[1]@ == want[1]);
        assert(r@[2]@ == want[2]);
        assert(r@[3]@ == want[3]);
        assert(r@[4]@ == want[4]);
        assert(r@[5]@ == want[5]);
        assert(r@[6]@ == want[6]);
        assert(r@[7]@ == want[7]);
        assert(r@[8]@ == want[8]);
        assert(r@[9]@ == want[9]);
    }
    r
}

/// The heading of the limits section.
pub const LIMITS_HEADING: &'static str = "LIMITS";

/// The column titles of the limits section.
pub const LIMITS_COLUMNS: &'static str = "WINDOW    LEFT  RESET             PACE       FORECAST";

/// The color of a forecast: red when the quota runs out before the reset,
/// green when it lasts, the hint color otherwise.
pub open spec fn forecast_style(forecast: Seq<char>) -> Seq<char> {
    if starts_with(forecast, "empty"@) {
        ANSI_RED@
    } else if forecast == "lasts until reset"@ {
        ANSI_GREEN@
    } else {
        ANSI_HINT@
    }
}

/// The color of a forecast.
pub fn forecast_color(forecast: &str) -> (r: &'static str)
    ensures
        r@ == forecast_style(forecast@),
{
    if str_has_prefix(forecast, "empty") {
        ANSI_RED
    } else if str_eq(forecast, "lasts until reset") {
        ANSI_GREEN
    } else {
        ANSI_HINT
    }
}

/// A row of the limits section: the window's name, what is left (in its
/// color), the reset time, the pace and the forecast, in columns.
pub open spec fn limit_row_text(
    label: Seq<char>,
    left: Seq<char>,
    left_color: Seq<char>,
    reset: Seq<char>,
    pace: Seq<char>,
    forecast: Seq<char>,
    colors: bool,
) -> Seq<char> {
    styled(pad_right(label, 9), ANSI_WHITE@, colors) + " "@ + styled(pad_left(left, 4), left_color, colors)
        + "  "@ + styled(pad_right(reset, 16), ANSI_WHITE@, colors) + "  "@ + styled(
        pad_right(pace, 9),
        ANSI_YELLOW@,
        colors,
    ) + "  "@ + styled(forecast, forecast_style(forecast), colors)
}

fn padded(text: &str, width: usize, right: bool) -> (r: String)
    ensures
        r@ == if right {
            pad_right(text@, width as nat)
        } else {
            pad_left(text@, width as nat)
        },
{
    let mut r = String::new();
    if right {
        append_padded_right(&mut r, text, width);
    } else {
        append_padded_left(&mut r, text, width);
    }
    r
}

/// A row of the limits section.
pub fn limit_row(
    label: &str,
    left: &str,
    left_color: &str,
    reset: &str,
    pace: &str,
    forecast: &str,
    colors: bool,
) -> (r: String)
    ensures
        r@ == limit_row_text(label@, left@, left_color@, reset@, pace@, forecast@, colors),
{
    let mut r = styled_message(padded(label, 9, true).as_str(), ANSI_WHITE, colors);
    append_str(&mut r, " ");
    append_str(&mut r, styled_message(padded(left, 4, false).as_str(), left_color, colors).as_str());
    append_str(&mut r, "  ");
    append_str(&mut r, styled_message(padded(reset, 16, true).as_str(), ANSI_WHITE, colors).as_str());
    append_str(&mut r, "  ");
    append_str(&mut r, styled_message(padded(pace, 9, true).as_str(), ANSI_YELLOW, colors).as_str());
    append_str(&mut r, "  ");
    append_str(&mut r, styled_message(forecast, forecast_color(forecast), colors).as_str());
    r
}

/// `"ACTIVITY · LAST <n> DAY"`, with `DAYS` for any other count than one.
pub open spec fn activity_title_text(period_days: u64) -> Seq<char> {
    "ACTIVITY \u{b7} LAST "@ + decimal(period_days as nat) + if period_days == 1 {
        " DAY"@
    } else {
        " DAYS"@
    }
}

/// The heading of the activity section.
pub fn activity_title(period_days: u64) -> (r: String)
    ensures
        r@ == activity_title_text(period_days),
{
    let mut r = String::from_str("ACTIVITY \u{b7} LAST ");
    append_str(&mut r, decimal_string(period_days).as_str());
    if period_days == 1 {
        append_str(&mut r, " DAY");
    } else {
        append_str(&mut r, " DAYS");
    }
    r
}

/// The trend text of the cases that need no percentage: `trend flat`,
/// `trend new activity`, and `trend unavailable` when the service sent
/// no daily usage; `None` for a change, which is given as a percentage.
pub open spec fn trend_word(trend: Trend, available: bool) -> Option<Seq<char>> {
    if !available {
        Some("trend unavailable"@)
    } else {
        match trend {
            Trend::Flat => Some("trend flat"@),
            Trend::NewActivity => Some("trend new activity"@),
            Trend::Change { .. } => None,
        }
    }
}

/// The trend text, where it needs no percentage.
pub fn trend_text(trend: &Trend, available: bool) -> (r: Option<String>)
    ensures
        match (r, trend_word(*trend, available)) {
            (Some(a), Some(b)) => a@ == b,
            (None, None) => true,
            _ => false,
        },
{
    if !available {
        return Some(String::from_str("trend unavailable"));
    }
    match trend {
        Trend::Flat => Some(String::from_str("trend flat")),
        Trend::NewActivity => Some(String::from_str("trend new activity")),
        Trend::Change { .. } => None,
    }
}

/// What the activity section says when the period has no buckets.
pub open spec fn no_activity_text(available: bool) -> Seq<char> {
    if available {
        "No activity in this period."@
    } else {
        "No daily activity returned for this period."@
    }
}

/// What the activity section says when the period has no buckets.
pub fn no_activity(available: bool) -> (r: &'static str)
    ensures
        r@ == no_activity_text(available),
{
    if available {
        "No activity in this period."
    } else {
        "No daily activity returned for this period."
    }
}

/// A row of the activity section: the date, the tokens right-aligned in
/// eight columns, and the bar.
pub open spec fn activity_row_text(day: i32, tokens: u64, bar: Seq<char>, colors: bool) -> Seq<char> {
    styled(date_or_dash(day), ANSI_HINT@, colors) + "  "@ + styled(
        pad_left(token_count_text(tokens as nat), 8),
        ANSI_WHITE@,
        colors,
    ) + "  "@ + styled(bar, ANSI_CYAN@, colors)
}

/// A row of the activity section.
pub fn activity_row(day: i32, tokens: u64, bar: &str, colors: bool) -> (r: String)
    ensures
        r@ == activity_row_text(day, tokens, bar@, colors),
{
    let mut r = styled_message(format_date(day).as_str(), ANSI_HINT, colors);
    append_str(&mut r, "  ");
    let count = format_token_count(tokens);
    append_str(&mut r, styled_message(padded(count.as_str(), 8, false).as_str(), ANSI_WHITE, colors).as_str());
    append_str(&mut r, "  ");
    append_str(&mut r, styled_message(bar, ANSI_CYAN, colors).as_str());
    r
}

/// The label of a profile in the table: `* ` before the active profile,
/// two spaces before the others.
pub open spec fn label_text(name: Seq<char>, active: Option<Seq<char>>) -> Seq<char> {
    if active == Some(name) {
        "* "@ + name
    } else {
        "  "@ + name
    }
}

/// The label of a profile in the table.
pub fn profile_label(name: &str, active: Option<&str>) -> (r: String)
    ensures
        r@ == label_text(
            name@,
            match active {
                Some(a) => Some(a@),
                None => None,
            },
        ),
{
    let is_active = match active {
        Some(a) => str_eq(a, name),
        None => false,
    };
    let mut r = if is_active {
        String::from_str("* ")
    } else {
        String::from_str("  ")
    };
    append_str(&mut r, name);
    r
}

/// The warning about a profile whose usage could not be read: the error,
/// or that the query did not finish.
pub open spec fn warning_text(name: Seq<char>, error: Option<Seq<char>>) -> Seq<char> {
    "profile '"@ + name + "': "@ + match error {
        Some(e) => e,
        None => "usage query did not finish"@,
    }
}

/// The warning about a profile whose usage could not be read.
pub fn query_warning(name: &str, error: Option<&str>) -> (r: String)
    ensures
        r@ == warning_text(
            name@,
            match error {
                Some(e) => Some(e@),
                None => None,
            },
        ),
{
    let mut r = String::from_str("profile '");
    append_str(&mut r, name);
    append_str(&mut r, "': ");
    match error {
        Some(e) => append_str(&mut r, e),
        None => append_str(&mut r, "usage query did not finish"),
    }
    r
}

} // verus!
