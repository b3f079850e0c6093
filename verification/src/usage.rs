//! A profile's plan, limits and token usage, read from the replies of the
//! Codex app server.
use vstd::prelude::*;
use chrono::Datelike;
use crate::activity::DailyUsage;
use crate::format::DASH;
use crate::json::{
    JsonValue, as_float_bits, as_i64, as_str, as_u64, float_of, get, get2, i64_of, into_member,
    json_get, json_get2, str_of, u64_of,
};
use crate::text::{append_str, chars_of, push_char, str_eq};

verus! {

/// The length of the five-hour limit window, in minutes.
pub const FIVE_HOURS_MINS: u64 = 300;

/// The length of the weekly limit window, in minutes.
pub const WEEK_MINS: u64 = 10080;

/// A rate-limit window: how much of it is used (the bits of the
/// floating-point percentage the service sent), its length, and when it
/// resets (Unix seconds), if the service said.
#[derive(Clone, Copy)]
pub struct Window {
    pub used_percent_bits: u64,
    pub duration_mins: u64,
    pub resets_at: Option<i64>,
}

/// What is known of a profile's account and usage.
pub struct Usage {
    pub plan: String,
    pub five_hours: Option<Window>,
    pub weekly: Option<Window>,
    pub lifetime_tokens: Option<u64>,
    pub peak_daily_tokens: Option<u64>,
    pub longest_running_turn_sec: Option<u64>,
    pub current_streak_days: Option<u64>,
    pub longest_streak_days: Option<u64>,
    pub daily_usage: Vec<DailyUsage>,
    pub daily_usage_available: bool,
    pub reset_credits: Option<u64>,
}

impl Usage {
    /// Nothing known: empty plan, no limits, no counts.
    pub fn empty() -> (r: Usage)
        ensures
            r.plan@.len() == 0,
            r.five_hours is None,
            r.weekly is None,
            r.lifetime_tokens is None,
            r.peak_daily_tokens is None,
            r.longest_running_turn_sec is None,
            r.current_streak_days is None,
            r.longest_streak_days is None,
            r.daily_usage@.len() == 0,
            !r.daily_usage_available,
            r.reset_credits is None,
    {
        Usage {
            plan: String::new(),
            five_hours: None,
            weekly: None,
            lifetime_tokens: None,
            peak_daily_tokens: None,
            longest_running_turn_sec: None,
            current_streak_days: None,
            longest_streak_days: None,
            daily_usage: Vec::new(),
            daily_usage_available: false,
            reset_credits: None,
        }
    }

    /// The usage shown for a profile whose query failed: a dash for the
    /// plan and nothing else.
    pub fn unavailable() -> (r: Usage)
        ensures
            r.plan@ == DASH@,
            r.five_hours is None,
            r.weekly is None,
            r.lifetime_tokens is None,
            r.peak_daily_tokens is None,
            r.longest_running_turn_sec is None,
            r.current_streak_days is None,
            r.longest_streak_days is None,
            r.daily_usage@.len() == 0,
            !r.daily_usage_available,
            r.reset_credits is None,
    {
        let mut r = Usage::empty();
        r.plan = String::from_str(DASH);
        r
    }
}

/// `c` in upper case where it is an ASCII letter.
pub open spec fn ascii_upper(c: char) -> char {
    if 'a' <= c && c <= 'z' {
        ((c as int) - 32) as char
    } else {
        c
    }
}

/// `s` with its ASCII letters in upper case.
pub open spec fn upper(s: Seq<char>) -> Seq<char> {
    s.map_values(|c: char| ascii_upper(c))
}

/// `c` in upper case where it is an ASCII letter.
fn upper_char(c: char) -> (r: char)
    ensures
        r == ascii_upper(c),
{
    if 'a' <= c && c <= 'z' {
        ((c as u8) - 32) as char
    } else {
        c
    }
}

/// The text with its ASCII letters in upper case.
fn to_ascii_uppercase(s: &str) -> (r: String)
    ensures
        r@ == upper(s@),
{
    let v = chars_of(s);
    let mut r = String::new();
    let mut i: usize = 0;
    while i < v.len()
        invariant
            i <= v@.len(),
            v@ == s@,
            r@ == upper(v@.take(i as int)),
        decreases v@.len() - i,
    {
        let c = upper_char(v[i]);
        push_char(&mut r, c);
        assert(v@.take(i + 1) == v@.take(i as int).push(v@[i as int]));
        assert(upper(v@.take(i + 1)) == upper(v@.take(i as int)).push(c));
        i = i + 1;
    }
    assert(v@.take(i as int) == v@);
    r
}

/// The first plan type among the buckets of a per-limit object.
pub open spec fn first_plan(entries: Seq<(String, JsonValue)>) -> Option<Seq<char>>
    decreases entries.len(),
{
    if entries.len() == 0 {
        None
    } else {
        match str_of(json_get(entries[0].1, "planType"@)) {
            Some(p) => Some(p),
            None => first_plan(entries.drop_first()),
        }
    }
}

/// The plan type a rate-limit reply names: at its top, in `rateLimits`, or
/// in the first bucket of `rateLimitsByLimitId` that has one.
pub open spec fn plan_type_in(v: JsonValue) -> Option<Seq<char>> {
    match str_of(json_get(v, "planType"@)) {
        Some(p) => Some(p),
        None => match str_of(json_get2(v, "rateLimits"@, "planType"@)) {
            Some(p) => Some(p),
            None => match json_get(v, "rateLimitsByLimitId"@) {
                Some(JsonValue::Object(entries)) => first_plan(entries@),
                _ => None,
            },
        },
    }
}

/// The plan shown for a profile: `API` for API-key accounts; otherwise the
/// account's plan type, or the one in the rate-limit reply, in upper case;
/// a dash when neither names one.
pub open spec fn plan_of(account: JsonValue, rate_limits: JsonValue) -> Seq<char> {
    let kind = match str_of(json_get2(account, "account"@, "type"@)) {
        Some(t) => t,
        None => Seq::empty(),
    };
    if kind == "apiKey"@ {
        "API"@
    } else {
        match str_of(json_get2(account, "account"@, "planType"@)) {
            Some(p) => upper(p),
            None => match plan_type_in(rate_limits) {
                Some(p) => upper(p),
                None => DASH@,
            },
        }
    }
}

/// The plan type a rate-limit reply names.
pub fn find_plan_type(v: &JsonValue) -> (r: Option<&str>)
    ensures
        match r {
            Some(p) => plan_type_in(*v) == Some(p@),
            None => plan_type_in(*v) is None,
        },
{
    if let Some(p) = as_str(get(v, "planType")) {
        return Some(p);
    }
    if let Some(p) = as_str(get2(v, "rateLimits", "planType")) {
        return Some(p);
    }
    match get(v, "rateLimitsByLimitId") {
        Some(JsonValue::Object(entries)) => {
            let mut i: usize = 0;
            assert(entries@.skip(0) == entries@);
            while i < entries.len()
                invariant
                    i <= entries@.len(),
                    plan_type_in(*v) == first_plan(entries@),
                    first_plan(entries@) == first_plan(entries@.skip(i as int)),
                decreases entries@.len() - i,
            {
                assert(entries@.skip(i as int)[0] == entries@[i as int]);
                if let Some(p) = as_str(get(&entries[i].1, "planType")) {
                    return Some(p);
                }
                assert(entries@.skip(i as int).drop_first() == entries@.skip(i + 1));
                i = i + 1;
            }
            None
        },
        _ => None,
    }
}

/// The window under `key` of a limit bucket, if it gives a length and a
/// used percentage.
pub open spec fn window_at(bucket: JsonValue, key: Seq<char>) -> Seq<(u64, Window)> {
    match json_get(bucket, key) {
        None => Seq::empty(),
        Some(value) => match u64_of(json_get(value, "windowDurationMins"@)) {
            None => Seq::empty(),
            Some(d) => match float_of(json_get(value, "usedPercent"@)) {
                None => Seq::empty(),
                Some(bits) => seq![
                    (
                        d,
                        Window {
                            used_percent_bits: bits,
                            duration_mins: d,
                            resets_at: i64_of(json_get(value, "resetsAt"@)),
                        },
                    ),
                ],
            },
        },
    }
}

/// The primary and secondary windows of a limit bucket.
pub open spec fn bucket_windows(bucket: JsonValue) -> Seq<(u64, Window)> {
    window_at(bucket, "primary"@) + window_at(bucket, "secondary"@)
}

/// The windows of the first `n` buckets of a per-limit object.
pub open spec fn windows_in(entries: Seq<(String, JsonValue)>, n: int) -> Seq<(u64, Window)>
    decreases n,
{
    if n <= 0 {
        Seq::empty()
    } else {
        windows_in(entries, n - 1) + bucket_windows(entries[n - 1].1)
    }
}

/// The windows of a rate-limit reply: those of every bucket of
/// `rateLimitsByLimitId` when it is an object, else those of `rateLimits`.
pub open spec fn windows_of(rate_limits: JsonValue) -> Seq<(u64, Window)> {
    match json_get(rate_limits, "rateLimitsByLimitId"@) {
        Some(JsonValue::Object(entries)) => windows_in(entries@, entries@.len() as int),
        _ => match json_get(rate_limits, "rateLimits"@) {
            Some(bucket) => bucket_windows(bucket),
            None => Seq::empty(),
        },
    }
}

/// The first window of the given length.
pub open spec fn window_with(windows: Seq<(u64, Window)>, duration: u64) -> Option<Window>
    decreases windows.len(),
{
    if windows.len() == 0 {
        None
    } else if windows[0].0 == duration {
        Some(windows[0].1)
    } else {
        window_with(windows.drop_first(), duration)
    }
}

/// Adds the window under `key` of a bucket to `windows`.
fn collect_window(bucket: &JsonValue, key: &str, windows: &mut Vec<(u64, Window)>)
    ensures
        final(windows)@ == old(windows)@ + window_at(*bucket, key@),
{
    let value = match get(bucket, key) {
        Some(v) => v,
        None => {
            assert(old(windows)@ + Seq::<(u64, Window)>::empty() =~= old(windows)@);
            return;
        },
    };
    let duration = match as_u64(get(value, "windowDurationMins")) {
        Some(d) => d,
        None => {
            assert(old(windows)@ + Seq::<(u64, Window)>::empty() =~= old(windows)@);
            return;
        },
    };
    let used = match as_float_bits(get(value, "usedPercent")) {
        Some(b) => b,
        None => {
            assert(old(windows)@ + Seq::<(u64, Window)>::empty() =~= old(windows)@);
            return;
        },
    };
    let w = Window {
        used_percent_bits: used,
        duration_mins: duration,
        resets_at: as_i64(get(value, "resetsAt")),
    };
    windows.push((duration, w));
    assert(old(windows)@.push((duration, w)) =~= old(windows)@ + seq![(duration, w)]);
}

/// Adds the primary and secondary windows of a bucket to `windows`.
pub fn collect_windows(bucket: &JsonValue, windows: &mut Vec<(u64, Window)>)
    ensures
        final(windows)@ == old(windows)@ + bucket_windows(*bucket),
{
    collect_window(bucket, "primary", windows);
    collect_window(bucket, "secondary", windows);
    assert(old(windows)@ + window_at(*bucket, "primary"@) + window_at(*bucket, "secondary"@)
        =~= old(windows)@ + bucket_windows(*bucket));
}

/// The first window of the given length.
pub fn find_window(windows: &Vec<(u64, Window)>, duration: u64) -> (r: Option<Window>)
    ensures
        r == window_with(windows@, duration),
{
    let mut i: usize = 0;
    assert(windows@.skip(0) == windows@);
    while i < windows.len()
        invariant
            i <= windows@.len(),
            window_with(windows@, duration) == window_with(windows@.skip(i as int), duration),
        decreases windows@.len() - i,
    {
        assert(windows@.skip(i as int)[0] == windows@[i as int]);
        if windows[i].0 == duration {
            return Some(windows[i].1);
        }
        assert(windows@.skip(i as int).drop_first() == windows@.skip(i + 1));
        i = i + 1;
    }
    None
}

/// Whether a slot of a limit bucket holds a window of `duration` minutes:
/// a value with that `windowDurationMins` and a `usedPercent` number.
pub open spec fn slot_has_window(slot: Option<JsonValue>, duration: u64) -> bool {
    match slot {
        Some(w) => u64_of(json_get(w, "windowDurationMins"@)) == Some(duration) && float_of(
            json_get(w, "usedPercent"@),
        ) is Some,
        None => false,
    }
}

proof fn lemma_window_with_append(a: Seq<(u64, Window)>, b: Seq<(u64, Window)>, d: u64)
    ensures
        window_with(a + b, d) == match window_with(a, d) {
            Some(w) => Some(w),
            None => window_with(b, d),
        },
    decreases a.len(),
{
    if a.len() == 0 {
        assert(a + b =~= b);
    } else {
        assert((a + b)[0] == a[0]);
        assert((a + b).drop_first() =~= a.drop_first() + b);
        lemma_window_with_append(a.drop_first(), b, d);
    }
}

proof fn lemma_window_at(bucket: JsonValue, key: Seq<char>, d: u64)
    ensures
        window_with(window_at(bucket, key), d) == if slot_has_window(json_get(bucket, key), d) {
            let w = json_get(bucket, key).unwrap();
            Some(
                Window {
                    used_percent_bits: float_of(json_get(w, "usedPercent"@)).unwrap(),
                    duration_mins: d,
                    resets_at: i64_of(json_get(w, "resetsAt"@)),
                },
            )
        } else {
            None
        },
{
    let ws = window_at(bucket, key);
    reveal_with_fuel(window_with, 2);
    if ws.len() > 0 {
        assert(ws.len() == 1);
        assert(ws.drop_first() =~= Seq::<(u64, Window)>::empty());
    }
}

proof fn lemma_bucket_windows(bucket: JsonValue, d: u64)
    ensures
        !slot_has_window(json_get(bucket, "primary"@), d) && !slot_has_window(json_get(bucket, "secondary"@), d)
            ==> window_with(bucket_windows(bucket), d) is None,
        window_with(bucket_windows(bucket), d) == match window_with(window_at(bucket, "primary"@), d) {
            Some(w) => Some(w),
            None => window_with(window_at(bucket, "secondary"@), d),
        },
{
    lemma_window_with_append(window_at(bucket, "primary"@), window_at(bucket, "secondary"@), d);
    lemma_window_at(bucket, "primary"@, d);
    lemma_window_at(bucket, "secondary"@, d);
}

proof fn lemma_windows_in_none(entries: Seq<(String, JsonValue)>, n: int, d: u64)
    requires
        0 <= n <= entries.len(),
        forall|j: int|
            0 <= j < n ==> !slot_has_window(json_get(#[trigger] entries[j].1, "primary"@), d)
                && !slot_has_window(json_get(entries[j].1, "secondary"@), d),
    ensures
        window_with(windows_in(entries, n), d) is None,
    decreases n,
{
    if n > 0 {
        lemma_windows_in_none(entries, n - 1, d);
        lemma_window_with_append(windows_in(entries, n - 1), bucket_windows(entries[n - 1].1), d);
        lemma_bucket_windows(entries[n - 1].1, d);
    }
}

proof fn lemma_windows_in_found(entries: Seq<(String, JsonValue)>, k: int, n: int, d: u64, w: Window)
    requires
        0 <= k < n <= entries.len(),
        window_with(windows_in(entries, k + 1), d) == Some(w),
    ensures
        window_with(windows_in(entries, n), d) == Some(w),
    decreases n,
{
    if n > k + 1 {
        lemma_windows_in_found(entries, k, n - 1, d, w);
        lemma_window_with_append(windows_in(entries, n - 1), bucket_windows(entries[n - 1].1), d);
    }
}

/// Which window a limit is: the five-hour and weekly limits are the
/// windows of 300 and 10 080 minutes, and every bucket of
/// `rateLimitsByLimitId` offers two, in its primary and its secondary
/// slot. The window of a length is the first one of that length, bucket
/// by bucket and the primary slot before the secondary: when bucket `k`
/// holds one in the chosen slot and no bucket before it, nor its primary
/// slot where the secondary is chosen, holds one of that length, the
/// window is the one in that slot, with its used percentage and reset
/// time.
pub proof fn law_limit_window_is_first_of_its_length(
    rate_limits: JsonValue,
    entries: Seq<(String, JsonValue)>,
    k: int,
    secondary: bool,
    duration: u64,
)
    requires
        json_get(rate_limits, "rateLimitsByLimitId"@) matches Some(JsonValue::Object(es)) && es@ == entries,
        0 <= k < entries.len(),
        slot_has_window(
            json_get(
                entries[k].1,
                if secondary {
                    "secondary"@
                } else {
                    "primary"@
                },
            ),
            duration,
        ),
        secondary ==> !slot_has_window(json_get(entries[k].1, "primary"@), duration),
        forall|j: int|
            0 <= j < k ==> !slot_has_window(json_get(#[trigger] entries[j].1, "primary"@), duration)
                && !slot_has_window(json_get(entries[j].1, "secondary"@), duration),
    ensures
        ({
            let w = json_get(
                entries[k].1,
                if secondary {
                    "secondary"@
                } else {
                    "primary"@
                },
            ).unwrap();
            window_with(windows_of(rate_limits), duration) == Some(
                Window {
                    used_percent_bits: float_of(json_get(w, "usedPercent"@)).unwrap(),
                    duration_mins: duration,
                    resets_at: i64_of(json_get(w, "resetsAt"@)),
                },
            )
        }),
{
    let slot = if secondary {
        "secondary"@
    } else {
        "primary"@
    };
    let w = json_get(entries[k].1, slot).unwrap();
    let found = Window {
        used_percent_bits: float_of(json_get(w, "usedPercent"@)).unwrap(),
        duration_mins: duration,
        resets_at: i64_of(json_get(w, "resetsAt"@)),
    };
    lemma_windows_in_none(entries, k, duration);
    lemma_window_with_append(windows_in(entries, k), bucket_windows(entries[k].1), duration);
    lemma_bucket_windows(entries[k].1, duration);
    lemma_window_at(entries[k].1, "primary"@, duration);
    lemma_window_at(entries[k].1, "secondary"@, duration);
    assert(window_with(windows_in(entries, k + 1), duration) == Some(found));
    lemma_windows_in_found(entries, k, entries.len() as int, duration, found);
}

/// Which window a limit is when the reply has no per-limit object: the
/// window of a length is that of the single `rateLimits` bucket, its
/// primary slot before its secondary.
pub proof fn law_single_bucket_window(rate_limits: JsonValue, bucket: JsonValue, secondary: bool, duration: u64)
    requires
        !(json_get(rate_limits, "rateLimitsByLimitId"@) matches Some(JsonValue::Object(_))),
        json_get(rate_limits, "rateLimits"@) == Some(bucket),
        slot_has_window(
            json_get(
                bucket,
                if secondary {
                    "secondary"@
                } else {
                    "primary"@
                },
            ),
            duration,
        ),
        secondary ==> !slot_has_window(json_get(bucket, "primary"@), duration),
    ensures
        ({
            let w = json_get(
                bucket,
                if secondary {
                    "secondary"@
                } else {
                    "primary"@
                },
            ).unwrap();
            window_with(windows_of(rate_limits), duration) == Some(
                Window {
                    used_percent_bits: float_of(json_get(w, "usedPercent"@)).unwrap(),
                    duration_mins: duration,
                    resets_at: i64_of(json_get(w, "resetsAt"@)),
                },
            )
        }),
{
    lemma_bucket_windows(bucket, duration);
    lemma_window_at(bucket, "primary"@, duration);
    lemma_window_at(bucket, "secondary"@, duration);
}

/// The two limits are the window of five hours and the window of a week,
/// in minutes.
pub proof fn law_limit_lengths()
    ensures
        FIVE_HOURS_MINS == 5 * 60,
        WEEK_MINS == 7 * 24 * 60,
{
}

/// The windows of a rate-limit reply.
fn rate_limit_windows(rate_limits: &JsonValue) -> (r: Vec<(u64, Window)>)
    ensures
        r@ == windows_of(*rate_limits),
{
    let mut windows: Vec<(u64, Window)> = Vec::new();
    match get(rate_limits, "rateLimitsByLimitId") {
        Some(JsonValue::Object(entries)) => {
            let mut i: usize = 0;
            while i < entries.len()
                invariant
                    i <= entries@.len(),
                    windows@ == windows_in(entries@, i as int),
                decreases entries@.len() - i,
            {
                collect_windows(&entries[i].1, &mut windows);
                i = i + 1;
            }
        },
        _ => {
            if let Some(bucket) = get(rate_limits, "rateLimits") {
                collect_windows(bucket, &mut windows);
                assert(Seq::<(u64, Window)>::empty() + bucket_windows(*bucket) =~= bucket_windows(*bucket));
            }
        },
    }
    windows
}

/// The plan, limit windows and reset credits of a profile, from the
/// replies to `account/read` and `account/rateLimits/read`. The five-hour
/// and weekly windows are the first windows of 300 and 10 080 minutes; a
/// window the service does not send stays missing.
pub fn parse_usage(account: &JsonValue, rate_limits: &JsonValue) -> (r: Usage)
    ensures
        r.plan@ == plan_of(*account, *rate_limits),
        r.five_hours == window_with(windows_of(*rate_limits), FIVE_HOURS_MINS),
        r.weekly == window_with(windows_of(*rate_limits), WEEK_MINS),
        r.reset_credits == u64_of(
            json_get2(*rate_limits, "rateLimitResetCredits"@, "availableCount"@),
        ),
        r.lifetime_tokens is None,
        r.peak_daily_tokens is None,
        r.longest_running_turn_sec is None,
        r.current_streak_days is None,
        r.longest_streak_days is None,
        r.daily_usage@.len() == 0,
        !r.daily_usage_available,
{
    let kind: &str = match as_str(get2(account, "account", "type")) {
        Some(t) => t,
        None => "",
    };
    proof {
        reveal_strlit("");
        assert(""@ =~= Seq::<char>::empty());
    }
    let plan = if str_eq(kind, "apiKey") {
        String::from_str("API")
    } else {
        match as_str(get2(account, "account", "planType")) {
            Some(p) => to_ascii_uppercase(p),
            None => match find_plan_type(rate_limits) {
                Some(p) => to_ascii_uppercase(p),
                None => String::from_str(DASH),
            },
        }
    };
    let windows = rate_limit_windows(rate_limits);
    let mut usage = Usage::empty();
    usage.plan = plan;
    usage.five_hours = find_window(&windows, FIVE_HOURS_MINS);
    usage.weekly = find_window(&windows, WEEK_MINS);
    usage.reset_credits = as_u64(get2(rate_limits, "rateLimitResetCredits", "availableCount"));
    usage
}

/// The date format of the daily buckets.
pub const DATE_FORMAT: &'static str = "%Y-%m-%d";

/// The day (`num_days_from_ce`) of the date `NaiveDate::parse_from_str`
/// reads from a text in a format, if it reads one.
pub uninterp spec fn spec_parse_date(text: Seq<char>, format: Seq<char>) -> Option<i32>;

/// Reads a date (`chrono::NaiveDate::parse_from_str`) and gives its day
/// number (`Datelike::num_days_from_ce`); `None` where the text is no date
/// in the format. Which texts are dates is chrono's format grammar and
/// calendar, named here.
#[verifier::external_body]
fn parse_date(text: &str, format: &str) -> (r: Option<i32>)
    ensures
        r == spec_parse_date(text@, format@),
{
    match chrono::NaiveDate::parse_from_str(text, format) {
        Ok(date) => Some(date.num_days_from_ce()),
        Err(_) => None,
    }
}

/// A daily bucket from its date and its token count, when both are known.
pub open spec fn bucket_with(date: Option<i32>, tokens: Option<u64>) -> Option<DailyUsage> {
    match (date, tokens) {
        (Some(d), Some(t)) => Some(DailyUsage { date: d, tokens: t }),
        _ => None,
    }
}

/// The date of a bucket's `startDate`, read in the date format.
pub open spec fn bucket_date(item: JsonValue) -> Option<i32> {
    match str_of(json_get(item, "startDate"@)) {
        Some(text) => spec_parse_date(text, DATE_FORMAT@),
        None => None,
    }
}

/// A daily bucket of the usage reply: its `startDate` as a date and its
/// `tokens`, when both are there.
pub open spec fn bucket_of(item: JsonValue) -> Option<DailyUsage> {
    bucket_with(bucket_date(item), u64_of(json_get(item, "tokens"@)))
}

/// The daily buckets among the first `n` items, in order, without the
/// items that are not buckets.
pub open spec fn buckets_of(items: Seq<JsonValue>, n: int) -> Seq<DailyUsage>
    decreases n,
{
    if n <= 0 {
        Seq::empty()
    } else {
        match bucket_of(items[n - 1]) {
            Some(b) => buckets_of(items, n - 1).push(b),
            None => buckets_of(items, n - 1),
        }
    }
}

/// The items of `dailyUsageBuckets`, when it is an array.
pub open spec fn daily_items(token_usage: JsonValue) -> Option<Seq<JsonValue>> {
    match json_get(token_usage, "dailyUsageBuckets"@) {
        Some(JsonValue::Array(items)) => Some(items@),
        _ => None,
    }
}

/// A count of the `summary` of the usage reply.
pub open spec fn summary_count(token_usage: JsonValue, field: Seq<char>) -> Option<u64> {
    u64_of(json_get2(token_usage, "summary"@, field))
}

/// A count of the `summary` of the usage reply.
pub fn summary_u64(token_usage: &JsonValue, field: &str) -> (r: Option<u64>)
    ensures
        r == summary_count(*token_usage, field@),
{
    as_u64(get2(token_usage, "summary", field))
}

/// A daily bucket from the date read from its `startDate` and its token
/// count: a bucket when both are there, none otherwise.
pub fn bucket_from(date: Option<i32>, tokens: Option<u64>) -> (r: Option<DailyUsage>)
    ensures
        r == bucket_with(date, tokens),
{
    match (date, tokens) {
        (Some(d), Some(t)) => Some(DailyUsage { date: d, tokens: t }),
        _ => None,
    }
}

fn daily_bucket(item: &JsonValue) -> (r: Option<DailyUsage>)
    ensures
        r == bucket_of(*item),
{
    let date = match as_str(get(item, "startDate")) {
        Some(text) => parse_date(text, DATE_FORMAT),
        None => None,
    };
    bucket_from(date, as_u64(get(item, "tokens")))
}

/// Fills in the token usage of the reply to `account/usage/read`: the
/// summary counts, and the daily buckets with a valid date and count (the
/// others are left out). Daily data counts as available when the reply has
/// a `dailyUsageBuckets` array, even an empty one. The plan and limits stay
/// as they were.
pub fn apply_token_usage(usage: &mut Usage, token_usage: &JsonValue)
    ensures
        final(usage).plan == old(usage).plan,
        final(usage).five_hours == old(usage).five_hours,
        final(usage).weekly == old(usage).weekly,
        final(usage).reset_credits == old(usage).reset_credits,
        final(usage).lifetime_tokens == summary_count(*token_usage, "lifetimeTokens"@),
        final(usage).peak_daily_tokens == summary_count(*token_usage, "peakDailyTokens"@),
        final(usage).longest_running_turn_sec == summary_count(
            *token_usage,
            "longestRunningTurnSec"@,
        ),
        final(usage).current_streak_days == summary_count(*token_usage, "currentStreakDays"@),
        final(usage).longest_streak_days == summary_count(*token_usage, "longestStreakDays"@),
        final(usage).daily_usage_available == daily_items(*token_usage) is Some,
        final(usage).daily_usage@ == match daily_items(*token_usage) {
            Some(items) => buckets_of(items, items.len() as int),
            None => Seq::empty(),
        },
{
    usage.lifetime_tokens = summary_u64(token_usage, "lifetimeTokens");
    usage.peak_daily_tokens = summary_u64(token_usage, "peakDailyTokens");
    usage.longest_running_turn_sec = summary_u64(token_usage, "longestRunningTurnSec");
    usage.current_streak_days = summary_u64(token_usage, "currentStreakDays");
    usage.longest_streak_days = summary_u64(token_usage, "longestStreakDays");
    let mut daily: Vec<DailyUsage> = Vec::new();
    match get(token_usage, "dailyUsageBuckets") {
        Some(JsonValue::Array(items)) => {
            usage.daily_usage_available = true;
            let mut i: usize = 0;
            while i < items.len()
                invariant
                    i <= items@.len(),
                    daily@ == buckets_of(items@, i as int),
                decreases items@.len() - i,
            {
                if let Some(b) = daily_bucket(&items[i]) {
                    daily.push(b);
                }
                i = i + 1;
            }
        },
        _ => {
            usage.daily_usage_available = false;
        },
    }
    usage.daily_usage = daily;
}

/// `u` holds the plan, limits and reset credits of these two replies.
pub open spec fn limits_from(u: Usage, account: JsonValue, rate_limits: JsonValue) -> bool {
    &&& u.plan@ == plan_of(account, rate_limits)
    &&& u.five_hours == window_with(windows_of(rate_limits), FIVE_HOURS_MINS)
    &&& u.weekly == window_with(windows_of(rate_limits), WEEK_MINS)
    &&& u.reset_credits == u64_of(json_get2(rate_limits, "rateLimitResetCredits"@, "availableCount"@))
}

/// `u` holds the token usage of this reply, or none when there is none.
pub open spec fn tokens_from(u: Usage, token_usage: Option<JsonValue>) -> bool {
    match token_usage {
        Some(t) => {
            &&& u.lifetime_tokens == summary_count(t, "lifetimeTokens"@)
            &&& u.peak_daily_tokens == summary_count(t, "peakDailyTokens"@)
            &&& u.longest_running_turn_sec == summary_count(t, "longestRunningTurnSec"@)
            &&& u.current_streak_days == summary_count(t, "currentStreakDays"@)
            &&& u.longest_streak_days == summary_count(t, "longestStreakDays"@)
            &&& u.daily_usage_available == daily_items(t) is Some
            &&& u.daily_usage@ == match daily_items(t) {
                Some(items) => buckets_of(items, items.len() as int),
                None => Seq::empty(),
            }
        },
        None => {
            &&& u.lifetime_tokens is None
            &&& u.peak_daily_tokens is None
            &&& u.longest_running_turn_sec is None
            &&& u.current_streak_days is None
            &&& u.longest_streak_days is None
            &&& u.daily_usage@.len() == 0
            &&& !u.daily_usage_available
        },
    }
}

/// `"<method> failed: <detail>"`.
pub open spec fn failed_message(method: Seq<char>, detail: Seq<char>) -> Seq<char> {
    method + " failed: "@ + detail
}

/// The outcome of a reply: an `error` member (even `null`) fails with its
/// message, or `unknown app-server error`; otherwise the `result` member,
/// which must be there.
pub open spec fn reply_outcome(message: JsonValue, method: Seq<char>) -> Result<JsonValue, Seq<char>> {
    match json_get(message, "error"@) {
        Some(error) => Err(
            failed_message(
                method,
                match str_of(json_get(error, "message"@)) {
                    Some(d) => d,
                    None => "unknown app-server error"@,
                },
            ),
        ),
        None => match json_get(message, "result"@) {
            Some(result) => Ok(result),
            None => Err(method + " returned no result"@),
        },
    }
}

/// The result of a reply of the app server, or why there is none.
pub fn response_result(message: JsonValue, method: &str) -> (r: Result<JsonValue, String>)
    ensures
        match (r, reply_outcome(message, method@)) {
            (Ok(a), Ok(b)) => a == b,
            (Err(e), Err(m)) => e@ == m,
            _ => false,
        },
{
    if let Some(error) = get(&message, "error") {
        let detail: &str = match as_str(get(error, "message")) {
            Some(d) => d,
            None => "unknown app-server error",
        };
        let mut m = String::from_str(method);
        append_str(&mut m, " failed: ");
        append_str(&mut m, detail);
        return Err(m);
    }
    match into_member(message, "result") {
        Some(result) => Ok(result),
        None => {
            let mut m = String::from_str(method);
            append_str(&mut m, " returned no result");
            Err(m)
        },
    }
}

} // verus!
