//! How numbers appear in the tool's output: token counts with a unit,
//! durations, day counts, and a dash for what the service did not return.
use vstd::prelude::*;
use crate::text::{append_str, decimal, decimal_string, push_char};

verus! {

/// The placeholder for a value that is missing.
pub const DASH: &'static str = "\u{2014}";

/// The unit a token count is shown in: divisor and suffix. Counts that
/// round to 1000 of a unit move to the next unit (999 950 shows as `1M`).
pub open spec fn token_unit(tokens: nat) -> Option<(nat, Seq<char>)> {
    if 999_950_000_000 <= tokens {
        Some((1_000_000_000_000, "T"@))
    } else if 999_950_000 <= tokens {
        Some((1_000_000_000, "B"@))
    } else if 999_950 <= tokens {
        Some((1_000_000, "M"@))
    } else if 1_000 <= tokens {
        Some((1_000, "K"@))
    } else {
        None
    }
}

/// A token count: below 1000 as is; otherwise rounded half up to a tenth
/// of its unit, with a decimal comma and no `,0` (`654,4K`, `1,5M`, `1K`).
pub open spec fn token_count_text(tokens: nat) -> Seq<char> {
    match token_unit(tokens) {
        None => decimal(tokens),
        Some((divisor, suffix)) => {
            let tenths = (tokens * 10 + divisor / 2) / divisor;
            if tenths % 10 == 0 {
                decimal(tenths / 10) + suffix
            } else {
                decimal(tenths / 10) + ","@ + decimal(tenths % 10) + suffix
            }
        },
    }
}

/// A count that may be missing: its text, or a dash.
pub open spec fn tokens_text(tokens: Option<u64>) -> Seq<char> {
    match tokens {
        Some(t) => token_count_text(t as nat),
        None => DASH@,
    }
}

/// A duration in seconds: `1h 1m 1s`, `9m 0s` or `5s`, or a dash.
pub open spec fn duration_text(seconds: Option<u64>) -> Seq<char> {
    match seconds {
        None => DASH@,
        Some(s) => {
            let hours = s as nat / 3600;
            let minutes = s as nat % 3600 / 60;
            let secs = s as nat % 60;
            if 0 < hours {
                decimal(hours) + "h "@ + decimal(minutes) + "m "@ + decimal(secs) + "s"@
            } else if 0 < minutes {
                decimal(minutes) + "m "@ + decimal(secs) + "s"@
            } else {
                decimal(secs) + "s"@
            }
        },
    }
}

/// A number of days (`8 days`), or a dash.
pub open spec fn days_text(days: Option<u64>) -> Seq<char> {
    match days {
        Some(d) => decimal(d as nat) + " days"@,
        None => DASH@,
    }
}

/// A token count with its unit.
pub fn format_token_count(tokens: u64) -> (r: String)
    ensures
        r@ == token_count_text(tokens as nat),
{
    let (divisor, suffix): (u64, &str) = if 999_950_000_000 <= tokens {
        (1_000_000_000_000, "T")
    } else if 999_950_000 <= tokens {
        (1_000_000_000, "B")
    } else if 999_950 <= tokens {
        (1_000_000, "M")
    } else if 1_000 <= tokens {
        (1_000, "K")
    } else {
        return decimal_string(tokens);
    };
    assert(token_unit(tokens as nat) == Some((divisor as nat, suffix@)));
    let num: u128 = tokens as u128 * 10 + divisor as u128 / 2;
    let tenths: u128 = num / divisor as u128;
    proof {
        vstd::arithmetic::div_mod::lemma_div_is_ordered_by_denominator(
            num as int,
            1000,
            divisor as int,
        );
    }
    let whole = (tenths / 10) as u64;
    let fraction = (tenths % 10) as u64;
    let mut r = decimal_string(whole);
    if fraction != 0 {
        push_char(&mut r, ',');
        let f = decimal_string(fraction);
        append_str(&mut r, f.as_str());
        proof {
            reveal_strlit(",");
            assert(","@ =~= seq![',']);
        }
    }
    append_str(&mut r, suffix);
    r
}

/// A token count, or a dash when it is missing.
pub fn format_tokens(tokens: Option<u64>) -> (r: String)
    ensures
        r@ == tokens_text(tokens),
{
    match tokens {
        Some(t) => format_token_count(t),
        None => String::from_str(DASH),
    }
}

/// A duration in hours, minutes and seconds, or a dash.
pub fn format_duration(seconds: Option<u64>) -> (r: String)
    ensures
        r@ == duration_text(seconds),
{
    let seconds = match seconds {
        Some(s) => s,
        None => return String::from_str(DASH),
    };
    let hours = seconds / 3_600;
    let minutes = seconds % 3_600 / 60;
    let secs = seconds % 60;
    let mut r = String::new();
    if 0 < hours {
        let h = decimal_string(hours);
        append_str(&mut r, h.as_str());
        append_str(&mut r, "h ");
    }
    if 0 < hours || 0 < minutes {
        let m = decimal_string(minutes);
        append_str(&mut r, m.as_str());
        append_str(&mut r, "m ");
    }
    let s = decimal_string(secs);
    append_str(&mut r, s.as_str());
    append_str(&mut r, "s");
    proof {
        assert(Seq::<char>::empty() + decimal(hours as nat) =~= decimal(hours as nat));
        assert(Seq::<char>::empty() + decimal(minutes as nat) =~= decimal(minutes as nat));
        assert(Seq::<char>::empty() + decimal(secs as nat) =~= decimal(secs as nat));
    }
    r
}

/// A number of days, or a dash.
pub fn format_days(days: Option<u64>) -> (r: String)
    ensures
        r@ == days_text(days),
{
    match days {
        Some(d) => {
            let mut r = decimal_string(d);
            append_str(&mut r, " days");
            r
        },
        None => String::from_str(DASH),
    }
}

/// The value, or a dash when it is empty.
pub fn value_or_dash(value: &str) -> (r: String)
    ensures
        r@ == if value@.len() == 0 {
            DASH@
        } else {
            value@
        },
{
    if value.is_empty() {
        String::from_str(DASH)
    } else {
        value.to_owned()
    }
}

/// How a count is shown with a unit: below 1000 as is; otherwise in the
/// unit of thousands (`K`), millions (`M`), billions (`B`) or trillions
/// (`T`) that keeps the shown number under 1000 once rounded, the number
/// being the count in that unit rounded half up to one decimal (`tenths`
/// tenths of a unit: `tenths * unit` is within half a unit of
/// `10 * tokens`, rounding up at the half), written with a decimal comma
/// and without `,0`.
pub proof fn law_token_count_rounds_to_tenths(tokens: nat, tenths: nat)
    ensures
        tokens < 1000 ==> token_count_text(tokens) == decimal(tokens),
        ({
            let (unit, suffix) = if tokens < 999_950 {
                (1_000nat, "K"@)
            } else if tokens < 999_950_000 {
                (1_000_000nat, "M"@)
            } else if tokens < 999_950_000_000 {
                (1_000_000_000nat, "B"@)
            } else {
                (1_000_000_000_000nat, "T"@)
            };
            (1000 <= tokens && tenths * unit <= 10 * tokens + unit / 2 < tenths * unit + unit)
                ==> token_count_text(tokens) == if tenths % 10 == 0 {
                decimal(tenths / 10) + suffix
            } else {
                decimal(tenths / 10) + ","@ + decimal(tenths % 10) + suffix
            }
        }),
{
    if 1000 <= tokens {
        let (unit, suffix) = if tokens < 999_950 {
            (1_000nat, "K"@)
        } else if tokens < 999_950_000 {
            (1_000_000nat, "M"@)
        } else if tokens < 999_950_000_000 {
            (1_000_000_000nat, "B"@)
        } else {
            (1_000_000_000_000nat, "T"@)
        };
        if tenths * unit <= 10 * tokens + unit / 2 < tenths * unit + unit {
            assert(token_unit(tokens) == Some((unit, suffix)));
            let x = (tokens * 10 + unit / 2) as int;
            let r = x - tenths * unit;
            assert(x == tenths * unit + r);
            vstd::arithmetic::div_mod::lemma_fundamental_div_mod_converse(x, unit as int, tenths as int, r);
            assert(x / (unit as int) == tenths);
        }
    }
}

} // verus!
