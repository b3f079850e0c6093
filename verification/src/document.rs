//! The `--json` output of `current`, `doctor`, `list` and `stats`: one
//! JSON document each, with `schema_version`, `null` for what the service
//! did not send, numbers for quantities and ISO 8601 times.
use vstd::prelude::*;
use crate::activity::DailyUsage;
use crate::format::DASH;
use crate::report::{date_text, spec_date_text};
use crate::text::{append_str, chars_of, decimal, decimal_string, push_char};
use crate::usage::{Usage, Window};

verus! {

/// The version of the documents' layout.
pub const SCHEMA_VERSION: u64 = 1;

/// The hexadecimal digit for `d` (below 16).
pub open spec fn hex_char(d: nat) -> char {
    if d < 10 {
        ((d + 48) as int) as char
    } else {
        ((d + 87) as int) as char
    }
}

/// How a character stands inside a JSON string: quotes, backslashes and
/// control characters escaped, everything else as it is.
pub open spec fn escape_char(c: char) -> Seq<char> {
    if c == '"' {
        seq!['\\', '"']
    } else if c == '\\' {
        seq!['\\', '\\']
    } else if c == '\n' {
        seq!['\\', 'n']
    } else if c == '\r' {
        seq!['\\', 'r']
    } else if c == '\t' {
        seq!['\\', 't']
    } else if (c as u32) < 32 {
        seq!['\\', 'u', '0', '0', hex_char((c as u32) as nat / 16), hex_char((c as u32) as nat % 16)]
    } else {
        seq![c]
    }
}

/// The first `n` characters of `s`, escaped.
pub open spec fn escaped(s: Seq<char>, n: int) -> Seq<char>
    decreases n,
{
    if n <= 0 {
        Seq::empty()
    } else {
        escaped(s, n - 1) + escape_char(s[n - 1])
    }
}

/// A JSON string.
pub open spec fn json_str(s: Seq<char>) -> Seq<char> {
    "\""@ + escaped(s, s.len() as int) + "\""@
}

/// A JSON string, or `null`.
pub open spec fn json_opt_str(s: Option<Seq<char>>) -> Seq<char> {
    match s {
        Some(t) => json_str(t),
        None => "null"@,
    }
}

/// A JSON number, or `null`.
pub open spec fn json_opt_num(n: Option<u64>) -> Seq<char> {
    match n {
        Some(v) => decimal(v as nat),
        None => "null"@,
    }
}

/// `true` or `false`.
pub open spec fn json_bool(b: bool) -> Seq<char> {
    if b {
        "true"@
    } else {
        "false"@
    }
}

fn hex(d: u32) -> (c: char)
    requires
        d < 16,
    ensures
        c == hex_char(d as nat),
{
    let t: [char; 16] = [
        '0', '1', '2', '3', '4', '5', '6', '7', '8', '9', 'a', 'b', 'c', 'd', 'e', 'f',
    ];
    let c = t[d as usize];
    assert(c == hex_char(d as nat)) by {
        assert(t@ == seq!['0', '1', '2', '3', '4', '5', '6', '7', '8', '9', 'a', 'b', 'c', 'd', 'e', 'f']);
    }
    c
}

fn push_escaped(out: &mut String, c: char)
    ensures
        final(out)@ == old(out)@ + escape_char(c),
{
    let specials = c == '"' || c == '\\' || c == '\n' || c == '\r' || c == '\t';
    if specials || (c as u32) < 32 {
        push_char(out, '\\');
        if c == '"' {
            push_char(out, '"');
        } else if c == '\\' {
            push_char(out, '\\');
        } else if c == '\n' {
            push_char(out, 'n');
        } else if c == '\r' {
            push_char(out, 'r');
        } else if c == '\t' {
            push_char(out, 't');
        } else {
            push_char(out, 'u');
            push_char(out, '0');
            push_char(out, '0');
            push_char(out, hex((c as u32) / 16));
            push_char(out, hex((c as u32) % 16));
        }
    } else {
        push_char(out, c);
    }
    assert(final(out)@ =~= old(out)@ + escape_char(c));
}

/// Appends `s` as a JSON string.
pub fn push_json_str(out: &mut String, s: &str)
    ensures
        final(out)@ == old(out)@ + json_str(s@),
{
    let ghost start = out@;
    let v = chars_of(s);
    append_str(out, "\"");
    let mut i: usize = 0;
    while i < v.len()
        invariant
            v@ == s@,
            i <= v@.len(),
            out@ == start + "\""@ + escaped(s@, i as int),
        decreases v@.len() - i,
    {
        push_escaped(out, v[i]);
        assert(start + "\""@ + escaped(s@, i as int) + escape_char(s@[i as int]) =~= start + "\""@
            + escaped(s@, i + 1));
        i = i + 1;
    }
    append_str(out, "\"");
    assert(start + "\""@ + escaped(s@, s@.len() as int) + "\""@ =~= start + json_str(s@));
}

fn push_opt_str(out: &mut String, s: Option<&str>)
    ensures
        final(out)@ == old(out)@ + json_opt_str(
            match s {
                Some(t) => Some(t@),
                None => None,
            },
        ),
{
    match s {
        Some(t) => push_json_str(out, t),
        None => append_str(out, "null"),
    }
}

fn push_opt_num(out: &mut String, n: Option<u64>)
    ensures
        final(out)@ == old(out)@ + json_opt_num(n),
{
    match n {
        Some(v) => append_str(out, decimal_string(v).as_str()),
        None => append_str(out, "null"),
    }
}

fn push_bool(out: &mut String, b: bool)
    ensures
        final(out)@ == old(out)@ + json_bool(b),
{
    if b {
        append_str(out, "true");
    } else {
        append_str(out, "false");
    }
}

/// `{"schema_version":1,` : how every document starts.
pub open spec fn doc_start() -> Seq<char> {
    "{\"schema_version\":"@ + decimal(SCHEMA_VERSION as nat) + ","@
}

fn start_doc() -> (r: String)
    ensures
        r@ == doc_start(),
{
    let mut r = String::from_str("{\"schema_version\":");
    append_str(&mut r, decimal_string(SCHEMA_VERSION).as_str());
    append_str(&mut r, ",");
    r
}

/// `current --json`: the active profile, or `null`.
pub open spec fn current_json(active: Option<Seq<char>>) -> Seq<char> {
    doc_start() + "\"active\":"@ + json_opt_str(active) + "}"@
}

/// The document of `current --json`.
pub fn current_document(active: Option<&str>) -> (r: String)
    ensures
        r@ == current_json(
            match active {
                Some(a) => Some(a@),
                None => None,
            },
        ),
{
    let mut r = start_doc();
    append_str(&mut r, "\"active\":");
    push_opt_str(&mut r, active);
    append_str(&mut r, "}");
    r
}

/// One check of `doctor --json`.
pub open spec fn check_json(name: Seq<char>, ok: bool) -> Seq<char> {
    "{\"name\":"@ + json_str(name) + ",\"ok\":"@ + json_bool(ok) + "}"@
}

/// `doctor --json`: whether all four checks passed, and each check.
pub open spec fn doctor_json(config: bool, auth: bool, profile: bool, codex: bool) -> Seq<char> {
    doc_start() + "\"healthy\":"@ + json_bool(config && auth && profile && codex) + ",\"checks\":["@
        + check_json("credential_storage"@, config) + ","@ + check_json("auth_file"@, auth) + ","@
        + check_json("active_profile"@, profile) + ","@ + check_json("codex_executable"@, codex)
        + "]}"@
}

fn push_check(out: &mut String, name: &str, ok: bool)
    ensures
        final(out)@ == old(out)@ + check_json(name@, ok),
{
    append_str(out, "{\"name\":");
    push_json_str(out, name);
    append_str(out, ",\"ok\":");
    push_bool(out, ok);
    append_str(out, "}");
}

/// The document of `doctor --json`.
pub fn doctor_document(config: bool, auth: bool, profile: bool, codex: bool) -> (r: String)
    ensures
        r@ == doctor_json(config, auth, profile, codex),
{
    let mut r = start_doc();
    append_str(&mut r, "\"healthy\":");
    push_bool(&mut r, config && auth && profile && codex);
    append_str(&mut r, ",\"checks\":[");
    push_check(&mut r, "credential_storage", config);
    append_str(&mut r, ",");
    push_check(&mut r, "auth_file", auth);
    append_str(&mut r, ",");
    push_check(&mut r, "active_profile", profile);
    append_str(&mut r, ",");
    push_check(&mut r, "codex_executable", codex);
    append_str(&mut r, "]}");
    r
}

/// The UTC time of a Unix timestamp in ISO 8601
/// (`DateTime::from_timestamp`, then `to_rfc3339_opts` with whole seconds
/// and `Z`), if chrono can represent it.
pub uninterp spec fn spec_iso_time(secs: i64) -> Option<Seq<char>>;

/// A Unix timestamp as an ISO 8601 UTC time
/// (`chrono::DateTime::from_timestamp` and `to_rfc3339_opts(Secs, true)`),
/// `None` where chrono has no such time. The calendar is chrono's, named
/// here.
#[verifier::external_body]
fn iso_time(secs: i64) -> (r: Option<String>)
    ensures
        match (r, spec_iso_time(secs)) {
            (Some(a), Some(b)) => a@ == b,
            (None, None) => true,
            _ => false,
        },
{
    match chrono::DateTime::from_timestamp(secs, 0) {
        Some(t) => Some(t.to_rfc3339_opts(chrono::SecondsFormat::Secs, true)),
        None => None,
    }
}

/// A reset time in the documents: its ISO 8601 time, or `null`.
pub open spec fn reset_json(resets_at: Option<i64>) -> Seq<char> {
    match resets_at {
        Some(t) => json_opt_str(spec_iso_time(t)),
        None => "null"@,
    }
}

/// A limit window in the documents, or `null`; `used_percent` is the JSON
/// number of its used percentage.
pub open spec fn window_json(window: Option<Window>, used_percent: Seq<char>) -> Seq<char> {
    match window {
        None => "null"@,
        Some(w) => "{\"used_percent\":"@ + used_percent + ",\"window_minutes\":"@ + decimal(
            w.duration_mins as nat,
        ) + ",\"resets_at\":"@ + reset_json(w.resets_at) + "}"@,
    }
}

fn push_window(out: &mut String, window: Option<Window>, used_percent: &str)
    ensures
        final(out)@ == old(out)@ + window_json(window, used_percent@),
{
    match window {
        None => append_str(out, "null"),
        Some(w) => {
            let ghost start = out@;
            append_str(out, "{\"used_percent\":");
            append_str(out, used_percent);
            append_str(out, ",\"window_minutes\":");
            append_str(out, decimal_string(w.duration_mins).as_str());
            append_str(out, ",\"resets_at\":");
            match w.resets_at {
                Some(t) => match iso_time(t) {
                    Some(text) => push_json_str(out, text.as_str()),
                    None => append_str(out, "null"),
                },
                None => append_str(out, "null"),
            }
            append_str(out, "}");
            assert(out@ =~= start + window_json(window, used_percent@));
        },
    }
}

/// A plan in the documents: `null` where the service sent none.
pub open spec fn plan_json(plan: Seq<char>) -> Seq<char> {
    if plan.len() == 0 || plan == DASH@ {
        "null"@
    } else {
        json_str(plan)
    }
}

fn push_plan(out: &mut String, plan: &str)
    ensures
        final(out)@ == old(out)@ + plan_json(plan@),
{
    if plan.unicode_len() == 0 || crate::text::str_eq(plan, DASH) {
        append_str(out, "null");
    } else {
        push_json_str(out, plan);
    }
}

/// What `list --json` shows of one profile: its name, whether it is
/// active, its usage (the unavailable usage when the query failed), the
/// error of a failed query, and the JSON numbers of the two windows' used
/// percentages.
pub struct ListEntry {
    pub name: String,
    pub active: bool,
    pub usage: Usage,
    pub error: Option<String>,
    pub five_hours_percent: String,
    pub weekly_percent: String,
}

/// One profile in `list --json`.
pub open spec fn entry_json(e: ListEntry) -> Seq<char> {
    "{\"name\":"@ + json_str(e.name@) + ",\"active\":"@ + json_bool(e.active) + ",\"plan\":"@
        + plan_json(e.usage.plan@) + ",\"five_hours\":"@ + window_json(
        e.usage.five_hours,
        e.five_hours_percent@,
    ) + ",\"weekly\":"@ + window_json(e.usage.weekly, e.weekly_percent@) + ",\"error\":"@
        + json_opt_str(
        match e.error {
            Some(m) => Some(m@),
            None => None,
        },
    ) + "}"@
}

/// The first `n` profiles of `list --json`, separated by commas.
pub open spec fn entries_json(entries: Seq<ListEntry>, n: int) -> Seq<char>
    decreases n,
{
    if n <= 0 {
        Seq::empty()
    } else if n == 1 {
        entry_json(entries[0])
    } else {
        entries_json(entries, n - 1) + ","@ + entry_json(entries[n - 1])
    }
}

/// `list --json`: every profile, in the order given.
pub open spec fn list_json(entries: Seq<ListEntry>) -> Seq<char> {
    doc_start() + "\"profiles\":["@ + entries_json(entries, entries.len() as int) + "]}"@
}

fn push_entry(out: &mut String, e: &ListEntry)
    ensures
        final(out)@ == old(out)@ + entry_json(*e),
{
    let ghost start = out@;
    append_str(out, "{\"name\":");
    push_json_str(out, e.name.as_str());
    append_str(out, ",\"active\":");
    push_bool(out, e.active);
    append_str(out, ",\"plan\":");
    push_plan(out, e.usage.plan.as_str());
    append_str(out, ",\"five_hours\":");
    push_window(out, e.usage.five_hours, e.five_hours_percent.as_str());
    append_str(out, ",\"weekly\":");
    push_window(out, e.usage.weekly, e.weekly_percent.as_str());
    append_str(out, ",\"error\":");
    match &e.error {
        Some(m) => push_opt_str(out, Some(m.as_str())),
        None => push_opt_str(out, None),
    }
    append_str(out, "}");
    assert(out@ =~= start + entry_json(*e));
}

/// The document of `list --json`.
pub fn list_document(entries: &Vec<ListEntry>) -> (r: String)
    ensures
        r@ == list_json(entries@),
{
    let mut r = start_doc();
    append_str(&mut r, "\"profiles\":[");
    let ghost head = r@;
    let mut i: usize = 0;
    while i < entries.len()
        invariant
            i <= entries@.len(),
            r@ == head + entries_json(entries@, i as int),
        decreases entries@.len() - i,
    {
        if i > 0 {
            append_str(&mut r, ",");
        }
        push_entry(&mut r, &entries[i]);
        proof {
            if i == 0 {
                assert(head + Seq::<char>::empty() + entry_json(entries@[0]) =~= head + entries_json(
                    entries@,
                    1,
                ));
            } else {
                assert(head + entries_json(entries@, i as int) + ","@ + entry_json(entries@[i as int])
                    =~= head + entries_json(entries@, i + 1));
            }
        }
        i = i + 1;
    }
    append_str(&mut r, "]}");
    r
}

/// A day of the activity in `stats --json`.
pub open spec fn day_json(d: DailyUsage) -> Seq<char> {
    "{\"date\":"@ + json_opt_str(spec_date_text(d.date)) + ",\"tokens\":"@ + decimal(d.tokens as nat)
        + "}"@
}

/// The first `n` days, separated by commas.
pub open spec fn days_json(days: Seq<DailyUsage>, n: int) -> Seq<char>
    decreases n,
{
    if n <= 0 {
        Seq::empty()
    } else if n == 1 {
        day_json(days[0])
    } else {
        days_json(days, n - 1) + ","@ + day_json(days[n - 1])
    }
}

/// `stats --json`: the profile, its plan and counts (today's tokens for the
/// day `today`), its two windows, the period and the days of activity in
/// it.
pub open spec fn stats_json(
    name: Seq<char>,
    u: Usage,
    today: i32,
    today_tokens: Option<u64>,
    period_days: u64,
    activity: Seq<DailyUsage>,
    five_hours_percent: Seq<char>,
    weekly_percent: Seq<char>,
) -> Seq<char> {
    doc_start() + "\"profile\":"@ + json_str(name) + ",\"plan\":"@ + plan_json(u.plan@)
        + ",\"lifetime_tokens\":"@ + json_opt_num(u.lifetime_tokens) + ",\"today\":{\"date\":"@
        + json_opt_str(spec_date_text(today)) + ",\"tokens\":"@ + json_opt_num(today_tokens) + "}"@
        + ",\"peak_daily_tokens\":"@ + json_opt_num(u.peak_daily_tokens)
        + ",\"longest_running_turn_sec\":"@ + json_opt_num(u.longest_running_turn_sec)
        + ",\"current_streak_days\":"@ + json_opt_num(u.current_streak_days)
        + ",\"longest_streak_days\":"@ + json_opt_num(u.longest_streak_days)
        + ",\"available_resets\":"@ + json_opt_num(u.reset_credits) + ",\"five_hours\":"@
        + window_json(u.five_hours, five_hours_percent) + ",\"weekly\":"@ + window_json(
        u.weekly,
        weekly_percent,
    ) + ",\"period_days\":"@ + decimal(period_days as nat) + ",\"daily_usage_available\":"@
        + json_bool(u.daily_usage_available) + ",\"activity\":["@ + days_json(
        activity,
        activity.len() as int,
    ) + "]}"@
}

fn push_date_text(out: &mut String, day: i32)
    ensures
        final(out)@ == old(out)@ + json_opt_str(spec_date_text(day)),
{
    match date_text(day) {
        Some(t) => push_json_str(out, t.as_str()),
        None => append_str(out, "null"),
    }
}

/// The document of `stats --json`.
pub fn stats_document(
    name: &str,
    usage: &Usage,
    today: i32,
    today_tokens: Option<u64>,
    period_days: u64,
    activity: &Vec<DailyUsage>,
    five_hours_percent: &str,
    weekly_percent: &str,
) -> (r: String)
    ensures
        r@ == stats_json(
            name@,
            *usage,
            today,
            today_tokens,
            period_days,
            activity@,
            five_hours_percent@,
            weekly_percent@,
        ),
{
    let mut r = start_doc();
    append_str(&mut r, "\"profile\":");
    push_json_str(&mut r, name);
    append_str(&mut r, ",\"plan\":");
    push_plan(&mut r, usage.plan.as_str());
    append_str(&mut r, ",\"lifetime_tokens\":");
    push_opt_num(&mut r, usage.lifetime_tokens);
    append_str(&mut r, ",\"today\":{\"date\":");
    push_date_text(&mut r, today);
    append_str(&mut r, ",\"tokens\":");
    push_opt_num(&mut r, today_tokens);
    append_str(&mut r, "}");
    append_str(&mut r, ",\"peak_daily_tokens\":");
    push_opt_num(&mut r, usage.peak_daily_tokens);
    append_str(&mut r, ",\"longest_running_turn_sec\":");
    push_opt_num(&mut r, usage.longest_running_turn_sec);
    append_str(&mut r, ",\"current_streak_days\":");
    push_opt_num(&mut r, usage.current_streak_days);
    append_str(&mut r, ",\"longest_streak_days\":");
    push_opt_num(&mut r, usage.longest_streak_days);
    append_str(&mut r, ",\"available_resets\":");
    push_opt_num(&mut r, usage.reset_credits);
    append_str(&mut r, ",\"five_hours\":");
    push_window(&mut r, usage.five_hours, five_hours_percent);
    append_str(&mut r, ",\"weekly\":");
    push_window(&mut r, usage.weekly, weekly_percent);
    append_str(&mut r, ",\"period_days\":");
    append_str(&mut r, decimal_string(period_days).as_str());
    append_str(&mut r, ",\"daily_usage_available\":");
    push_bool(&mut r, usage.daily_usage_available);
    append_str(&mut r, ",\"activity\":[");
    let ghost head = r@;
    let mut i: usize = 0;
    while i < activity.len()
        invariant
            i <= activity@.len(),
            r@ == head + days_json(activity@, i as int),
        decreases activity@.len() - i,
    {
        let ghost before = r@;
        if i > 0 {
            append_str(&mut r, ",");
        }
        let d = activity[i];
        append_str(&mut r, "{\"date\":");
        push_date_text(&mut r, d.date);
        append_str(&mut r, ",\"tokens\":");
        append_str(&mut r, decimal_string(d.tokens).as_str());
        append_str(&mut r, "}");
        proof {
            if i == 0 {
                assert(r@ =~= head + days_json(activity@, 1));
            } else {
                assert(r@ =~= head + days_json(activity@, i as int) + ","@ + day_json(
                    activity@[i as int],
                ));
            }
        }
        i = i + 1;
    }
    append_str(&mut r, "]}");
    r
}

} // verus!
