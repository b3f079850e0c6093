//! Daily token usage: the buckets of a period in date order, the count for
//! one day, and the comparison of a period with the one before it.
use vstd::prelude::*;

verus! {

broadcast use vstd::seq_lib::group_seq_properties;

/// Tokens used on one day. A day is the number of days since the start of
/// the common era (`NaiveDate::num_days_from_ce`; 0001-01-01 is day 1).
#[derive(Clone, Copy)]
pub struct DailyUsage {
    pub date: i32,
    pub tokens: u64,
}

/// The first day a date can denote (-262143-01-01).
pub const MIN_DAY: i32 = -95_746_129;

/// The last day a date can denote (262142-12-31).
pub const MAX_DAY: i32 = 95_745_399;

/// How many days before its last day a period of `period_days` days
/// starts: one fewer than its length, and none for an empty period, which
/// starts on its last day as a period of one day does.
pub open spec fn period_span(period_days: nat) -> nat {
    if period_days == 0 {
        0
    } else {
        (period_days - 1) as nat
    }
}

/// The first day of a period of `period_days` days that ends `today`.
pub open spec fn period_start(today: int, period_days: nat) -> int {
    today - period_span(period_days)
}

/// Date arithmetic for a period that ends `today` stays within the days a
/// date can denote (otherwise the date subtraction panics).
pub open spec fn period_in_range(today: int, period_days: nat) -> bool {
    &&& MIN_DAY <= today <= MAX_DAY
    &&& MIN_DAY <= period_start(today, period_days) <= MAX_DAY
}

/// `d` falls within `[from, to]`.
pub open spec fn within(d: DailyUsage, from: int, to: int) -> bool {
    from <= d.date <= to
}

/// Dates never decrease along `s`.
pub open spec fn date_ordered(s: Seq<DailyUsage>) -> bool {
    forall|i: int, j: int| 0 <= i <= j < s.len() ==> s[i].date <= s[j].date
}

/// The buckets of the period of `period_days` days that ends `today`, in
/// date order (buckets of the same day in any order).
pub fn usage_for_period(usage: &Vec<DailyUsage>, today: i32, period_days: u64) -> (r: Vec<
    DailyUsage,
>)
    requires
        period_in_range(today as int, period_days as nat),
    ensures
        date_ordered(r@),
        r@.to_multiset() == usage@.filter(
            |d: DailyUsage| within(d, period_start(today as int, period_days as nat), today as int),
        ).to_multiset(),
{
    let span: i64 = if period_days == 0 {
        0
    } else {
        (period_days - 1) as i64
    };
    let start: i32 = (today as i64 - span) as i32;
    let ghost pred = |d: DailyUsage| within(d, period_start(today as int, period_days as nat), today as int);
    let mut out: Vec<DailyUsage> = Vec::new();
    let mut i: usize = 0;
    while i < usage.len()
        invariant
            i <= usage@.len(),
            start == period_start(today as int, period_days as nat),
            pred == (|d: DailyUsage| within(d, period_start(today as int, period_days as nat), today as int)),
            date_ordered(out@),
            out@.to_multiset() == usage@.take(i as int).filter(pred).to_multiset(),
        decreases usage@.len() - i,
    {
        let b = usage[i];
        assert(usage@.take(i + 1) == usage@.take(i as int).push(b));
        proof {
            usage@.take(i as int).lemma_filter_push(b, pred);
            vstd::seq_lib::to_multiset_build(usage@.take(i as int).filter(pred), b);
        }
        if start <= b.date && b.date <= today {
            let mut k = out.len();
            while k > 0 && out[k - 1].date > b.date
                invariant
                    k <= out@.len(),
                    forall|j: int| k <= j < out@.len() ==> out@[j].date > b.date,
                decreases k,
            {
                k = k - 1;
            }
            let ghost before = out@;
            out.insert(k, b);
            proof {
                vstd::seq_lib::to_multiset_insert(before, k as int, b);
                assert forall|p: int, q: int| 0 <= p <= q < out@.len() implies out@[p].date <= out@[q].date by {
                    if p < k as int && q > k as int {
                        assert(out@[q] == before[q - 1]);
                    }
                    if p < k as int && q == k as int && k > 0 {
                        assert(before[p].date <= before[k - 1].date);
                    }
                }
            }
        }
        i = i + 1;
    }
    assert(usage@.take(usage@.len() as int) == usage@);
    out
}

/// The tokens of the first bucket of day `date`, if there is one. A day
/// without a bucket has no count; it is not taken as zero.
pub open spec fn tokens_on(usage: Seq<DailyUsage>, date: int) -> Option<u64>
    decreases usage.len(),
{
    if usage.len() == 0 {
        None
    } else if usage[0].date == date {
        Some(usage[0].tokens)
    } else {
        tokens_on(usage.drop_first(), date)
    }
}

/// The tokens of the day `date`.
pub fn daily_tokens_for_date(usage: &Vec<DailyUsage>, date: i32) -> (r: Option<u64>)
    ensures
        r == tokens_on(usage@, date as int),
{
    let mut i: usize = 0;
    assert(usage@.skip(0) == usage@);
    while i < usage.len()
        invariant
            i <= usage@.len(),
            tokens_on(usage@, date as int) == tokens_on(usage@.skip(i as int), date as int),
        decreases usage@.len() - i,
    {
        assert(usage@.skip(i as int)[0] == usage@[i as int]);
        if usage[i].date == date {
            return Some(usage[i].tokens);
        }
        assert(usage@.skip(i as int).drop_first() == usage@.skip(i + 1));
        i = i + 1;
    }
    None
}

/// The tokens of the buckets among the first `n` that fall within
/// `[from, to]`.
pub open spec fn total_within(usage: Seq<DailyUsage>, n: int, from: int, to: int) -> nat
    decreases n,
{
    if n <= 0 {
        0
    } else {
        total_within(usage, n - 1, from, to) + if within(usage[n - 1], from, to) {
            usage[n - 1].tokens as nat
        } else {
            0
        }
    }
}

/// How a period compares with the one before it.
pub enum Trend {
    /// No tokens in either period.
    Flat,
    /// Tokens in this period only.
    NewActivity,
    /// Tokens in both, or in the previous period only.
    Change { current: u64, previous: u64 },
}

/// The totals of the period ending `today` and of the period of the same
/// length before it.
pub open spec fn period_totals(usage: Seq<DailyUsage>, today: int, period_days: nat) -> (nat, nat) {
    let start = period_start(today, period_days);
    let previous_end = start - 1;
    let previous_start = previous_end - period_span(period_days);
    (
        total_within(usage, usage.len() as int, start, today),
        total_within(usage, usage.len() as int, previous_start, previous_end),
    )
}

/// The sum of the tokens between two days (the overflow check of the sum).
fn sum_within(usage: &Vec<DailyUsage>, from: i64, to: i64) -> (r: u64)
    requires
        total_within(usage@, usage@.len() as int, from as int, to as int) <= u64::MAX,
    ensures
        r as nat == total_within(usage@, usage@.len() as int, from as int, to as int),
{
    let mut total: u64 = 0;
    let mut i: usize = 0;
    while i < usage.len()
        invariant
            i <= usage@.len(),
            total as nat == total_within(usage@, i as int, from as int, to as int),
            total_within(usage@, usage@.len() as int, from as int, to as int) <= u64::MAX,
        decreases usage@.len() - i,
    {
        proof {
            lemma_total_grows(usage@, i + 1, usage@.len() as int, from as int, to as int);
        }
        let b = usage[i];
        if from <= b.date as i64 && b.date as i64 <= to {
            total = total + b.tokens;
        }
        i = i + 1;
    }
    total
}

proof fn lemma_total_grows(usage: Seq<DailyUsage>, m: int, n: int, from: int, to: int)
    requires
        m <= n,
    ensures
        total_within(usage, m, from, to) <= total_within(usage, n, from, to),
    decreases n - m,
{
    if m < n {
        lemma_total_grows(usage, m, n - 1, from, to);
    }
}

/// The sum of the tokens between two days, or `None` when it exceeds
/// `u64::MAX`.
fn checked_sum_within(usage: &Vec<DailyUsage>, from: i64, to: i64) -> (r: Option<u64>)
    ensures
        match r {
            Some(t) => t as nat == total_within(usage@, usage@.len() as int, from as int, to as int),
            None => total_within(usage@, usage@.len() as int, from as int, to as int) > u64::MAX,
        },
{
    let mut total: u64 = 0;
    let mut i: usize = 0;
    while i < usage.len()
        invariant
            i <= usage@.len(),
            total as nat == total_within(usage@, i as int, from as int, to as int),
        decreases usage@.len() - i,
    {
        let b = usage[i];
        if from <= b.date as i64 && b.date as i64 <= to {
            match total.checked_add(b.tokens) {
                Some(t) => {
                    total = t;
                },
                None => {
                    proof {
                        lemma_total_grows(usage@, i + 1, usage@.len() as int, from as int, to as int);
                    }
                    return None;
                },
            }
        }
        i = i + 1;
    }
    Some(total)
}

/// Whether both totals that `activity_trend` adds up, of the period ending
/// `today` and of the one before it, fit in a `u64`.
pub fn period_totals_fit(usage: &Vec<DailyUsage>, today: i32, period_days: u64) -> (r: bool)
    requires
        MIN_DAY <= today <= MAX_DAY,
        MIN_DAY <= period_start(today as int, period_days as nat) - 1 - period_span(
            period_days as nat,
        ),
        period_start(today as int, period_days as nat) <= MAX_DAY,
    ensures
        r == (period_totals(usage@, today as int, period_days as nat).0 <= u64::MAX
            && period_totals(usage@, today as int, period_days as nat).1 <= u64::MAX),
{
    let span: i64 = if period_days == 0 {
        0
    } else {
        (period_days - 1) as i64
    };
    let start: i64 = today as i64 - span;
    let previous_end: i64 = start - 1;
    let previous_start: i64 = previous_end - span;
    let current = checked_sum_within(usage, start, today as i64);
    let previous = checked_sum_within(usage, previous_start, previous_end);
    current.is_some() && previous.is_some()
}

/// How the period of `period_days` days ending `today` compares with the
/// one before it: flat when both are empty, new activity when only the
/// previous one is, otherwise the two totals.
pub fn activity_trend(usage: &Vec<DailyUsage>, today: i32, period_days: u64) -> (r: Trend)
    requires
        MIN_DAY <= today <= MAX_DAY,
        MIN_DAY <= period_start(today as int, period_days as nat) - 1 - period_span(
            period_days as nat,
        ),
        period_start(today as int, period_days as nat) <= MAX_DAY,
        period_totals(usage@, today as int, period_days as nat).0 <= u64::MAX,
        period_totals(usage@, today as int, period_days as nat).1 <= u64::MAX,
    ensures
        ({
            let (c, p) = period_totals(usage@, today as int, period_days as nat);
            match r {
                Trend::Flat => c == 0 && p == 0,
                Trend::NewActivity => c != 0 && p == 0,
                Trend::Change { current, previous } => current as nat == c && previous as nat == p
                    && p != 0,
            }
        }),
{
    let span: i64 = if period_days == 0 {
        0
    } else {
        (period_days - 1) as i64
    };
    let start: i64 = today as i64 - span;
    let previous_end: i64 = start - 1;
    let previous_start: i64 = previous_end - span;
    let current = sum_within(usage, start, today as i64);
    let previous = sum_within(usage, previous_start, previous_end);
    if current == 0 && previous == 0 {
        Trend::Flat
    } else if previous == 0 {
        Trend::NewActivity
    } else {
        Trend::Change { current, previous }
    }
}

/// The largest token count among the buckets, or 0 when there are none.
pub open spec fn peak_of(usage: Seq<DailyUsage>) -> nat
    decreases usage.len(),
{
    if usage.len() == 0 {
        0
    } else {
        let rest = peak_of(usage.drop_last());
        if usage.last().tokens > rest {
            usage.last().tokens as nat
        } else {
            rest
        }
    }
}

/// The largest token count among the buckets, or 0 when there are none.
pub fn peak_tokens(usage: &Vec<DailyUsage>) -> (r: u64)
    ensures
        r as nat == peak_of(usage@),
{
    let mut peak: u64 = 0;
    let mut i: usize = 0;
    while i < usage.len()
        invariant
            i <= usage@.len(),
            peak as nat == peak_of(usage@.take(i as int)),
        decreases usage@.len() - i,
    {
        assert(usage@.take(i + 1).drop_last() == usage@.take(i as int));
        if usage[i].tokens > peak {
            peak = usage[i].tokens;
        }
        i = i + 1;
    }
    assert(usage@.take(usage@.len() as int) == usage@);
    peak
}

proof fn lemma_total_prefix(a: Seq<DailyUsage>, b: Seq<DailyUsage>, n: int, from: int, to: int)
    requires
        0 <= n <= a.len(),
        n <= b.len(),
        forall|i: int| 0 <= i < n ==> a[i] == b[i],
    ensures
        total_within(a, n, from, to) == total_within(b, n, from, to),
    decreases n,
{
    if n > 0 {
        lemma_total_prefix(a, b, n - 1, from, to);
    }
}

/// What the trend compares: a period of `period_days` days is the last
/// `period_days` days up to and including today, and the previous period
/// is the `period_days` days just before it. With no buckets both totals
/// are 0; adding a bucket adds its tokens to the current total exactly
/// when it is dated after `today - period_days` and no later than today,
/// and to the previous total exactly when it is dated after
/// `today - 2 * period_days` and no later than `today - period_days`.
pub proof fn law_trend_periods(usage: Seq<DailyUsage>, today: int, period_days: nat, bucket: DailyUsage)
    requires
        period_days >= 1,
    ensures
        period_totals(Seq::empty(), today, period_days) == (0nat, 0nat),
        period_totals(usage.push(bucket), today, period_days) == (
            period_totals(usage, today, period_days).0 + if today - period_days < bucket.date <= today {
                bucket.tokens as nat
            } else {
                0nat
            },
            period_totals(usage, today, period_days).1 + if today - 2 * period_days < bucket.date
                <= today - period_days {
                bucket.tokens as nat
            } else {
                0nat
            },
        ),
{
    let u = usage.push(bucket);
    let n = usage.len() as int;
    let start = period_start(today, period_days);
    let previous_end = start - 1;
    let previous_start = previous_end - period_span(period_days);
    assert(start == today - period_days + 1);
    assert(previous_start == today - 2 * period_days + 1);
    lemma_total_prefix(u, usage, n, start, today);
    lemma_total_prefix(u, usage, n, previous_start, previous_end);
    assert(u[n] == bucket);
}

/// A period of no days is today alone, as a period of one day is: the
/// totals of both periods are those of a one-day period.
pub proof fn law_empty_period_is_one_day(usage: Seq<DailyUsage>, today: int)
    ensures
        period_totals(usage, today, 0) == period_totals(usage, today, 1),
        period_start(today, 0) == today,
{
}

/// A period of `period_days` days ending `today` holds exactly those days:
/// a bucket falls in it when it is dated after `today - period_days` and
/// no later than today.
pub proof fn law_period_holds_its_days(d: DailyUsage, today: int, period_days: nat)
    requires
        period_days >= 1,
    ensures
        within(d, period_start(today, period_days), today) <==> today - period_days < d.date <= today,
{
}

} // verus!
