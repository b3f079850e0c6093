//! The text report of `stats`: the account section, the limits section and
//! the activity section, line by line. The cells that come from floating
//! point or the local clock (what is left of a limit, the reset time, the
//! pace, the forecast, the percentage change and the bars) are given as
//! text; everything else is decided here.
use vstd::prelude::*;
use crate::activity::{DailyUsage, Trend};
use crate::report::{
    LIMITS_COLUMNS, LIMITS_HEADING, account_lines, account_report, activity_row, activity_row_text,
    activity_title, activity_title_text, limit_row, limit_row_text, no_activity, no_activity_text,
    trend_text, trend_word,
};
use crate::style::{ANSI_HEADING, ANSI_HINT, styled, styled_message, trend_color, trend_style};
use crate::text::append_str;
use crate::usage::Usage;

verus! {

/// The cells of a limit row that come from floating point or the clock:
/// what is left and its color, the reset time, the pace and the forecast.
pub struct LimitCells {
    pub left: String,
    pub left_color: String,
    pub reset: String,
    pub pace: String,
    pub forecast: String,
}

/// The texts of a sequence of strings.
pub open spec fn text_lines(v: Seq<String>) -> Seq<Seq<char>> {
    v.map_values(|s: String| s@)
}

/// The row of a limit window.
pub open spec fn limit_line(label: Seq<char>, c: LimitCells, colors: bool) -> Seq<char> {
    limit_row_text(label, c.left@, c.left_color@, c.reset@, c.pace@, c.forecast@, colors)
}

/// The trend as printed: its word where it needs no percentage, else the
/// percentage change.
pub open spec fn trend_shown(trend: Trend, available: bool, change: Seq<char>) -> Seq<char> {
    match trend_word(trend, available) {
        Some(t) => t,
        None => change,
    }
}

/// The heading of the activity section with the trend:
/// `ACTIVITY · LAST <n> DAYS · <trend>`, the trend in its color.
pub open spec fn trend_line(period_days: u64, trend: Seq<char>, colors: bool) -> Seq<char> {
    styled(activity_title_text(period_days), ANSI_HEADING@, colors) + " \u{b7} "@ + styled(
        trend,
        trend_style(trend),
        colors,
    )
}

/// The rows of the activity section: one per bucket of the period with
/// its bar, or the notice that there is none.
pub open spec fn activity_lines(
    selected: Seq<DailyUsage>,
    bars: Seq<Seq<char>>,
    available: bool,
    colors: bool,
) -> Seq<Seq<char>> {
    if selected.len() == 0 {
        seq![no_activity_text(available)]
    } else {
        Seq::new(
            selected.len(),
            |i: int| activity_row_text(selected[i].date, selected[i].tokens, bars[i], colors),
        )
    }
}

/// The whole report of `stats`: a blank line, the account section, a blank
/// line, the limits heading, its columns, the five-hour and weekly rows, a
/// blank line, the activity heading with the trend, the activity rows and
/// a closing blank line.
pub open spec fn stats_text(
    name: Seq<char>,
    u: Usage,
    today: i32,
    today_tokens: Option<u64>,
    five_hours: LimitCells,
    weekly: LimitCells,
    period_days: u64,
    trend: Trend,
    change: Seq<char>,
    selected: Seq<DailyUsage>,
    bars: Seq<Seq<char>>,
    colors: bool,
) -> Seq<Seq<char>> {
    seq![Seq::<char>::empty()] + account_lines(name, u, today, today_tokens, colors) + seq![
        Seq::<char>::empty(),
        styled(LIMITS_HEADING@, ANSI_HEADING@, colors),
        styled(LIMITS_COLUMNS@, ANSI_HINT@, colors),
        limit_line("5 hours"@, five_hours, colors),
        limit_line("Weekly"@, weekly, colors),
        Seq::<char>::empty(),
        trend_line(period_days, trend_shown(trend, u.daily_usage_available, change), colors),
    ] + activity_lines(selected, bars, u.daily_usage_available, colors) + seq![Seq::<char>::empty()]
}

fn push_line(lines: &mut Vec<String>, line: String)
    ensures
        text_lines(final(lines)@) == text_lines(old(lines)@).push(line@),
{
    lines.push(line);
    assert(text_lines(lines@) =~= text_lines(old(lines)@).push(line@));
}

fn limit_cells_row(label: &str, c: &LimitCells, colors: bool) -> (r: String)
    ensures
        r@ == limit_line(label@, *c, colors),
{
    limit_row(
        label,
        c.left.as_str(),
        c.left_color.as_str(),
        c.reset.as_str(),
        c.pace.as_str(),
        c.forecast.as_str(),
        colors,
    )
}

/// The report of `stats`, line by line, for a profile's usage with
/// today's day number and tokens, the float and clock cells of the two
/// limit rows, the trend of the period with its percentage text, the
/// period's buckets and a bar for each.
pub fn stats_lines(
    name: &str,
    usage: &Usage,
    today: i32,
    today_tokens: Option<u64>,
    five_hours: &LimitCells,
    weekly: &LimitCells,
    period_days: u64,
    trend: &Trend,
    change: &str,
    selected: &Vec<DailyUsage>,
    bars: &Vec<String>,
    colors: bool,
) -> (r: Vec<String>)
    requires
        bars@.len() == selected@.len(),
    ensures
        text_lines(r@) == stats_text(
            name@,
            *usage,
            today,
            today_tokens,
            *five_hours,
            *weekly,
            period_days,
            *trend,
            change@,
            selected@,
            text_lines(bars@),
            colors,
        ),
{
    let mut r: Vec<String> = Vec::new();
    push_line(&mut r, String::new());
    let account = account_report(name, usage, today, today_tokens, colors);
    let ghost head = text_lines(r@);
    let ghost acc = account_lines(name@, *usage, today, today_tokens, colors);
    let mut i: usize = 0;
    while i < account.len()
        invariant
            i <= account@.len(),
            account@.len() == 10,
            acc.len() == 10,
            forall|j: int| 0 <= j < 10 ==> (#[trigger] account@[j])@ == acc[j],
            text_lines(r@) == head + acc.take(i as int),
        decreases account@.len() - i,
    {
        push_line(&mut r, account[i].clone());
        assert(acc.take(i + 1) == acc.take(i as int).push(acc[i as int]));
        i = i + 1;
    }
    assert(acc.take(10) == acc);
    push_line(&mut r, String::new());
    push_line(&mut r, styled_message(LIMITS_HEADING, ANSI_HEADING, colors));
    push_line(&mut r, styled_message(LIMITS_COLUMNS, ANSI_HINT, colors));
    push_line(&mut r, limit_cells_row("5 hours", five_hours, colors));
    push_line(&mut r, limit_cells_row("Weekly", weekly, colors));
    push_line(&mut r, String::new());
    let shown = match trend_text(trend, usage.daily_usage_available) {
        Some(t) => t,
        None => change.to_owned(),
    };
    let mut line = styled_message(activity_title(period_days).as_str(), ANSI_HEADING, colors);
    append_str(&mut line, " \u{b7} ");
    append_str(&mut line, styled_message(shown.as_str(), trend_color(shown.as_str()), colors).as_str());
    push_line(&mut r, line);
    let ghost middle = text_lines(r@);
    let ghost rows = activity_lines(selected@, text_lines(bars@), usage.daily_usage_available, colors);
    if selected.len() == 0 {
        push_line(&mut r, no_activity(usage.daily_usage_available).to_owned());
    } else {
        let mut k: usize = 0;
        while k < selected.len()
            invariant
                k <= selected@.len(),
                bars@.len() == selected@.len(),
                selected@.len() > 0,
                rows == activity_lines(selected@, text_lines(bars@), usage.daily_usage_available, colors),
                text_lines(r@) == middle + rows.take(k as int),
            decreases selected@.len() - k,
        {
            let b = selected[k];
            push_line(&mut r, activity_row(b.date, b.tokens, bars[k].as_str(), colors));
            assert(rows.take(k + 1) == rows.take(k as int).push(rows[k as int]));
            k = k + 1;
        }
        assert(rows.take(selected@.len() as int) == rows);
    }
    push_line(&mut r, String::new());
    proof {
        reveal_strlit("5 hours");
        reveal_strlit("Weekly");
    }
    assert(text_lines(r@) =~= stats_text(
        name@,
        *usage,
        today,
        today_tokens,
        *five_hours,
        *weekly,
        period_days,
        *trend,
        change@,
        selected@,
        text_lines(bars@),
        colors,
    ));
    r
}

} // verus!
