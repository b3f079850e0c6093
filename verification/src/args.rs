//! The command line: which command runs, with which profile name and
//! options, and the messages for arguments that are refused.
use vstd::prelude::*;
use crate::text::{
    append_str, chars_of, decimal, decimal_string, digit_char, digit_value, ends_with, is_digit, starts_with,
    str_eq, str_has_prefix,
};

verus! {

pub const NOT_UTF8: &'static str = "arguments must be valid UTF-8";

pub const MISSING_NAME: &'static str = "missing profile name";

pub const MISSING_PERIOD: &'static str = "missing value for --period";

pub const PERIOD_FORM: &'static str = "period must use the form Nd, for example 30d";

pub const MISSING_FORMAT: &'static str = "missing value for --format";

pub const MISSING_SHELL: &'static str = "missing shell name: use zsh, bash or fish";

/// `"unknown format '<v>': use text or prompt"`.
pub open spec fn unknown_format_message(v: Seq<char>) -> Seq<char> {
    "unknown format '"@ + v + "': use text or prompt"@
}

/// `"unsupported shell '<v>': use zsh, bash or fish"`.
pub open spec fn unsupported_shell_message(v: Seq<char>) -> Seq<char> {
    "unsupported shell '"@ + v + "': use zsh, bash or fish"@
}

/// The longest period `stats` accepts, in days.
pub const MAX_PERIOD_DAYS: u64 = 365;

/// The period `stats` reports when none is given, in days.
pub const DEFAULT_PERIOD_DAYS: u64 = 7;

/// `"unexpected argument '<a>'"`.
pub open spec fn unexpected_message(a: Seq<char>) -> Seq<char> {
    "unexpected argument '"@ + a + "'"@
}

/// `"period must be between 1d and <maximum>d"`.
pub open spec fn period_range_message(maximum: nat) -> Seq<char> {
    "period must be between 1d and "@ + decimal(maximum) + "d"@
}

/// `"unknown command '<c>'. Run 'codex-switcher help'."`.
pub open spec fn unknown_command_message(c: Seq<char>) -> Seq<char> {
    "unknown command '"@ + c + "'. Run 'codex-switcher help'."@
}

pub open spec fn all_digits(s: Seq<char>) -> bool {
    forall|k: int| 0 <= k < s.len() ==> is_digit(#[trigger] s[k])
}

/// The number a string of decimal digits denotes.
pub open spec fn digits_value(s: Seq<char>) -> nat
    decreases s.len(),
{
    if s.len() == 0 {
        0
    } else {
        digits_value(s.drop_last()) * 10 + digit_value(s.last())
    }
}

/// What `str::parse::<u64>` accepts: an optional `+`, then one or more
/// decimal digits, denoting a number no larger than `u64::MAX`.
pub open spec fn parse_u64(s: Seq<char>) -> Option<nat> {
    let d = if s.len() > 0 && s[0] == '+' {
        s.drop_first()
    } else {
        s
    };
    if d.len() > 0 && all_digits(d) && digits_value(d) <= u64::MAX {
        Some(digits_value(d))
    } else {
        None
    }
}

/// A period `<N>d` with `1 <= N <= maximum`.
pub open spec fn period_outcome(value: Seq<char>, maximum: nat) -> Result<nat, Seq<char>> {
    if !ends_with(value, "d"@) {
        Err(PERIOD_FORM@)
    } else {
        match parse_u64(value.drop_last()) {
            None => Err(PERIOD_FORM@),
            Some(days) => if days == 0 || maximum < days {
                Err(period_range_message(maximum))
            } else {
                Ok(days)
            },
        }
    }
}

proof fn lemma_digits_prefix_grows(s: Seq<char>, i: int)
    requires
        0 <= i <= s.len(),
        all_digits(s),
    ensures
        digits_value(s.take(i)) <= digits_value(s),
    decreases s.len(),
{
    if i < s.len() {
        assert(s.drop_last().take(i) == s.take(i));
        lemma_digits_prefix_grows(s.drop_last(), i);
    } else {
        assert(s.take(i) == s);
    }
}

proof fn lemma_decimal_digits(n: nat)
    ensures
        decimal(n).len() > 0,
        all_digits(decimal(n)),
        digits_value(decimal(n)) == n,
        decimal(n)[0] != '+',
    decreases n,
{
    let t = decimal(n);
    if n < 10 {
        assert(t.drop_last() =~= Seq::<char>::empty());
        assert(digit_value(digit_char(n)) == n);
        assert(digits_value(t) == digits_value(t.drop_last()) * 10 + digit_value(t.last()));
    } else {
        lemma_decimal_digits(n / 10);
        let c = digit_char(n % 10);
        assert(t.drop_last() =~= decimal(n / 10));
        assert(t.last() == c);
        assert(digit_value(c) == n % 10);
        vstd::arithmetic::div_mod::lemma_fundamental_div_mod(n as int, 10);
        assert(digits_value(t) == digits_value(t.drop_last()) * 10 + digit_value(t.last()));
        assert(t[0] == decimal(n / 10)[0]);
        assert forall|k: int| 0 <= k < t.len() implies is_digit(#[trigger] t[k]) by {
            if k < t.len() - 1 {
                assert(t[k] == decimal(n / 10)[k]);
            }
        }
    }
}

/// A period is read as the number of days it is written with: the text of
/// a number `n` followed by `d` gives `n` days when `1 <= n <= maximum`,
/// and is refused as out of range otherwise; a text that does not end in
/// `d` is refused as not of the form `Nd`.
pub proof fn law_period_reads_its_days(n: nat, maximum: nat, value: Seq<char>)
    requires
        n <= u64::MAX,
    ensures
        period_outcome(decimal(n) + "d"@, maximum) == if 1 <= n <= maximum {
            Ok::<nat, Seq<char>>(n)
        } else {
            Err(period_range_message(maximum))
        },
        (value.len() == 0 || value.last() != 'd') ==> period_outcome(value, maximum) == Err::<nat, Seq<char>>(
            PERIOD_FORM@,
        ),
{
    reveal_strlit("d");
    let v = decimal(n) + "d"@;
    lemma_decimal_digits(n);
    assert(v.drop_last() =~= decimal(n));
    assert(v.skip(v.len() - 1) =~= "d"@);
    if value.len() == 0 || value.last() != 'd' {
        if ends_with(value, "d"@) {
            assert(value.skip(value.len() - 1)[0] == value.last());
        }
    }
}

/// The number `str::parse::<u64>` reads from `v[from..to]`.
fn parse_u64_in(v: &Vec<char>, from: usize, to: usize) -> (r: Option<u64>)
    requires
        from <= to <= v@.len(),
    ensures
        match r {
            Some(n) => parse_u64(v@.subrange(from as int, to as int)) == Some(n as nat),
            None => parse_u64(v@.subrange(from as int, to as int)) is None,
        },
{
    let ghost s = v@.subrange(from as int, to as int);
    let start = if from < to && v[from] == '+' {
        from + 1
    } else {
        from
    };
    let ghost d = v@.subrange(start as int, to as int);
    assert(d == if s.len() > 0 && s[0] == '+' {
        s.drop_first()
    } else {
        s
    });
    if start == to {
        return None;
    }
    let mut acc: u64 = 0;
    let mut i = start;
    while i < to
        invariant
            from <= start <= i <= to <= v@.len(),
            d == v@.subrange(start as int, to as int),
            s == v@.subrange(from as int, to as int),
            d == if s.len() > 0 && s[0] == '+' {
                s.drop_first()
            } else {
                s
            },
            d.len() > 0,
            all_digits(d.take(i - start)),
            acc as nat == digits_value(d.take(i - start)),
        decreases to - i,
    {
        let c = v[i];
        assert(d[i - start] == c);
        if !('0' <= c && c <= '9') {
            assert(!all_digits(d));
            return None;
        }
        assert(d.take(i + 1 - start).drop_last() == d.take(i - start));
        let dv = (c as u32 - '0' as u32) as u64;
        match acc.checked_mul(10) {
            Some(m) => match m.checked_add(dv) {
                Some(n) => {
                    acc = n;
                },
                None => {
                    proof {
                        if all_digits(d) {
                            lemma_digits_prefix_grows(d, i + 1 - start);
                        }
                    }
                    return None;
                },
            },
            None => {
                proof {
                    if all_digits(d) {
                        lemma_digits_prefix_grows(d, i + 1 - start);
                    }
                }
                return None;
            },
        }
        i = i + 1;
    }
    assert(d.take(to - start) == d);
    Some(acc)
}

/// The number of days in a period written `<N>d`, between 1 and
/// `maximum_days`.
pub fn parse_period(value: &str, maximum_days: u64) -> (r: Result<u64, String>)
    ensures
        match (r, period_outcome(value@, maximum_days as nat)) {
            (Ok(d), Ok(e)) => d as nat == e,
            (Err(m), Err(e)) => m@ == e,
            _ => false,
        },
{
    proof {
        reveal_strlit("d");
        assert("d"@ =~= seq!['d']);
    }
    let v = chars_of(value);
    let n = v.len();
    if n == 0 || v[n - 1] != 'd' {
        proof {
            if n > 0 {
                assert(v@.skip(n - 1)[0] == v@[n - 1]);
            }
        }
        return Err(String::from_str(PERIOD_FORM));
    }
    assert(v@.skip(n - 1) =~= "d"@);
    assert(v@.subrange(0, n - 1) == v@.drop_last());
    match parse_u64_in(&v, 0, n - 1) {
        None => Err(String::from_str(PERIOD_FORM)),
        Some(days) => {
            if days == 0 || maximum_days < days {
                let mut m = String::from_str("period must be between 1d and ");
                let num = decimal_string(maximum_days);
                append_str(&mut m, num.as_str());
                append_str(&mut m, "d");
                Err(m)
            } else {
                Ok(days)
            }
        },
    }
}

/// The view of an argument that may not be valid UTF-8.
pub open spec fn arg_view(a: Option<String>) -> Option<Seq<char>> {
    match a {
        Some(s) => Some(s@),
        None => None,
    }
}

/// `<name> [--force]` read from position `i` on, with what was read so far.
pub open spec fn profile_args_from(
    args: Seq<Option<String>>,
    allow_force: bool,
    i: int,
    name: Option<Seq<char>>,
    force: bool,
) -> Result<(Seq<char>, bool), Seq<char>>
    decreases args.len() - i,
{
    if i < 0 || i >= args.len() {
        match name {
            Some(n) => Ok((n, force)),
            None => Err(MISSING_NAME@),
        }
    } else {
        match arg_view(args[i]) {
            None => Err(NOT_UTF8@),
            Some(a) => if a == "--force"@ && allow_force {
                profile_args_from(args, allow_force, i + 1, name, true)
            } else if !starts_with(a, "-"@) && name is None {
                profile_args_from(args, allow_force, i + 1, Some(a), force)
            } else {
                Err(unexpected_message(a))
            },
        }
    }
}

/// `<name> [--device-auth] [--force]` read from position `i` on.
pub open spec fn login_args_from(
    args: Seq<Option<String>>,
    i: int,
    name: Option<Seq<char>>,
    force: bool,
    device_auth: bool,
) -> Result<(Seq<char>, bool, bool), Seq<char>>
    decreases args.len() - i,
{
    if i < 0 || i >= args.len() {
        match name {
            Some(n) => Ok((n, force, device_auth)),
            None => Err(MISSING_NAME@),
        }
    } else {
        match arg_view(args[i]) {
            None => Err(NOT_UTF8@),
            Some(a) => if a == "--force"@ {
                login_args_from(args, i + 1, name, true, device_auth)
            } else if a == "--device-auth"@ {
                login_args_from(args, i + 1, name, force, true)
            } else if !starts_with(a, "-"@) && name is None {
                login_args_from(args, i + 1, Some(a), force, device_auth)
            } else {
                Err(unexpected_message(a))
            },
        }
    }
}

/// `<name> [--period <Nd>] [--json]` read from position `i` on.
pub open spec fn stats_args_from(
    args: Seq<Option<String>>,
    i: int,
    name: Option<Seq<char>>,
    period: nat,
    json: bool,
) -> Result<(Seq<char>, nat, bool), Seq<char>>
    decreases args.len() - i,
{
    if i < 0 || i >= args.len() {
        match name {
            Some(n) => Ok((n, period, json)),
            None => Err(MISSING_NAME@),
        }
    } else {
        match arg_view(args[i]) {
            None => Err(NOT_UTF8@),
            Some(a) => if a == "--period"@ {
                if i + 1 >= args.len() || arg_view(args[i + 1]) is None {
                    Err(MISSING_PERIOD@)
                } else {
                    match period_outcome(arg_view(args[i + 1]).unwrap(), MAX_PERIOD_DAYS as nat) {
                        Err(m) => Err(m),
                        Ok(d) => stats_args_from(args, i + 2, name, d, json),
                    }
                }
            } else if a == "--json"@ {
                stats_args_from(args, i + 1, name, period, true)
            } else if !starts_with(a, "-"@) && name is None {
                stats_args_from(args, i + 1, Some(a), period, json)
            } else {
                Err(unexpected_message(a))
            },
        }
    }
}

/// `[--json]`, and for `current` also `[--format text|prompt]`, read from
/// position `i` on: whether JSON was asked for, and whether the prompt
/// format was.
pub open spec fn option_args_from(
    args: Seq<Option<String>>,
    i: int,
    allow_format: bool,
    json: bool,
    prompt: bool,
) -> Result<(bool, bool), Seq<char>>
    decreases args.len() - i,
{
    if i < 0 || i >= args.len() {
        Ok((json, prompt))
    } else {
        match arg_view(args[i]) {
            None => Err(NOT_UTF8@),
            Some(a) => if a == "--json"@ {
                option_args_from(args, i + 1, allow_format, true, prompt)
            } else if a == "--format"@ && allow_format {
                if i + 1 >= args.len() || arg_view(args[i + 1]) is None {
                    Err(MISSING_FORMAT@)
                } else {
                    let v = arg_view(args[i + 1]).unwrap();
                    if v == "prompt"@ {
                        option_args_from(args, i + 2, allow_format, json, true)
                    } else if v == "text"@ {
                        option_args_from(args, i + 2, allow_format, json, false)
                    } else {
                        Err(unknown_format_message(v))
                    }
                }
            } else {
                Err(unexpected_message(a))
            },
        }
    }
}

/// The shells the tool writes completion and the `cs` function for.
#[derive(Clone, Copy, Debug)]
pub enum Shell {
    Zsh,
    Bash,
    Fish,
}

/// The shell a name denotes.
pub open spec fn shell_named(a: Seq<char>) -> Option<Shell> {
    if a == "zsh"@ {
        Some(Shell::Zsh)
    } else if a == "bash"@ {
        Some(Shell::Bash)
    } else if a == "fish"@ {
        Some(Shell::Fish)
    } else {
        None
    }
}

/// `<zsh|bash|fish>` read from position `i` on: exactly one shell name.
pub open spec fn shell_args_from(args: Seq<Option<String>>, i: int) -> Result<Shell, Seq<char>> {
    if i < 0 || i >= args.len() {
        Err(MISSING_SHELL@)
    } else {
        match arg_view(args[i]) {
            None => Err(NOT_UTF8@),
            Some(a) => match shell_named(a) {
                None => Err(unsupported_shell_message(a)),
                Some(sh) => if i + 1 < args.len() {
                    match arg_view(args[i + 1]) {
                        None => Err(NOT_UTF8@),
                        Some(b) => Err(unexpected_message(b)),
                    }
                } else {
                    Ok(sh)
                },
            },
        }
    }
}

fn unexpected(a: &str) -> (m: String)
    ensures
        m@ == unexpected_message(a@),
{
    let mut m = String::from_str("unexpected argument '");
    append_str(&mut m, a);
    append_str(&mut m, "'");
    m
}

/// `<name> [--force]` from position `from` on (`--force` only where
/// allowed).
fn profile_args_at(args: &Vec<Option<String>>, from: usize, allow_force: bool) -> (r: Result<
    (String, bool),
    String,
>)
    ensures
        match (r, profile_args_from(args@, allow_force, from as int, None, false)) {
            (Ok((n, f)), Ok((m, g))) => n@ == m && f == g,
            (Err(e), Err(m)) => e@ == m,
            _ => false,
        },
{
    let mut name: Option<String> = None;
    let mut force = false;
    let mut i = from;
    while i < args.len()
        invariant
            from <= i,
            profile_args_from(args@, allow_force, from as int, None, false) == profile_args_from(
                args@,
                allow_force,
                i as int,
                arg_view(name),
                force,
            ),
        decreases args@.len() - i,
    {
        match &args[i] {
            None => return Err(String::from_str(NOT_UTF8)),
            Some(a) => {
                if allow_force && str_eq(a.as_str(), "--force") {
                    force = true;
                } else if !str_has_prefix(a.as_str(), "-") && name.is_none() {
                    name = Some(a.clone());
                } else {
                    return Err(unexpected(a.as_str()));
                }
            },
        }
        i = i + 1;
    }
    match name {
        Some(n) => Ok((n, force)),
        None => Err(String::from_str(MISSING_NAME)),
    }
}

/// The arguments of `add`, `use` and `remove`: one profile name and, where
/// `allow_force` holds, `--force`.
pub fn parse_profile_args(args: &Vec<Option<String>>, allow_force: bool) -> (r: Result<
    (String, bool),
    String,
>)
    ensures
        match (r, profile_args_from(args@, allow_force, 0, None, false)) {
            (Ok((n, f)), Ok((m, g))) => n@ == m && f == g,
            (Err(e), Err(m)) => e@ == m,
            _ => false,
        },
{
    profile_args_at(args, 0, allow_force)
}

fn login_args_at(args: &Vec<Option<String>>, from: usize) -> (r: Result<(String, bool, bool), String>)
    ensures
        match (r, login_args_from(args@, from as int, None, false, false)) {
            (Ok((n, f, d)), Ok((m, g, e))) => n@ == m && f == g && d == e,
            (Err(e), Err(m)) => e@ == m,
            _ => false,
        },
{
    let mut name: Option<String> = None;
    let mut force = false;
    let mut device_auth = false;
    let mut i = from;
    while i < args.len()
        invariant
            from <= i,
            login_args_from(args@, from as int, None, false, false) == login_args_from(
                args@,
                i as int,
                arg_view(name),
                force,
                device_auth,
            ),
        decreases args@.len() - i,
    {
        match &args[i] {
            None => return Err(String::from_str(NOT_UTF8)),
            Some(a) => {
                if str_eq(a.as_str(), "--force") {
                    force = true;
                } else if str_eq(a.as_str(), "--device-auth") {
                    device_auth = true;
                } else if !str_has_prefix(a.as_str(), "-") && name.is_none() {
                    name = Some(a.clone());
                } else {
                    return Err(unexpected(a.as_str()));
                }
            },
        }
        i = i + 1;
    }
    match name {
        Some(n) => Ok((n, force, device_auth)),
        None => Err(String::from_str(MISSING_NAME)),
    }
}

/// The arguments of `login`: one profile name, `--force`, `--device-auth`.
pub fn parse_login_args(args: &Vec<Option<String>>) -> (r: Result<(String, bool, bool), String>)
    ensures
        match (r, login_args_from(args@, 0, None, false, false)) {
            (Ok((n, f, d)), Ok((m, g, e))) => n@ == m && f == g && d == e,
            (Err(e), Err(m)) => e@ == m,
            _ => false,
        },
{
    login_args_at(args, 0)
}

fn stats_args_at(args: &Vec<Option<String>>, from: usize) -> (r: Result<(String, u64, bool), String>)
    ensures
        match (r, stats_args_from(args@, from as int, None, DEFAULT_PERIOD_DAYS as nat, false)) {
            (Ok((n, p, j)), Ok((m, q, k))) => n@ == m && p as nat == q && j == k,
            (Err(e), Err(m)) => e@ == m,
            _ => false,
        },
{
    let mut name: Option<String> = None;
    let mut period_days: u64 = DEFAULT_PERIOD_DAYS;
    let mut json = false;
    let mut i = from;
    while i < args.len()
        invariant
            from <= i,
            stats_args_from(args@, from as int, None, DEFAULT_PERIOD_DAYS as nat, false)
                == stats_args_from(args@, i as int, arg_view(name), period_days as nat, json),
        decreases args@.len() - i,
    {
        match &args[i] {
            None => return Err(String::from_str(NOT_UTF8)),
            Some(a) => {
                if str_eq(a.as_str(), "--period") {
                    if i + 1 >= args.len() {
                        return Err(String::from_str(MISSING_PERIOD));
                    }
                    match &args[i + 1] {
                        None => return Err(String::from_str(MISSING_PERIOD)),
                        Some(value) => {
                            match parse_period(value.as_str(), MAX_PERIOD_DAYS) {
                                Err(m) => return Err(m),
                                Ok(d) => {
                                    period_days = d;
                                },
                            }
                        },
                    }
                    i = i + 1;
                } else if str_eq(a.as_str(), "--json") {
                    json = true;
                } else if !str_has_prefix(a.as_str(), "-") && name.is_none() {
                    name = Some(a.clone());
                } else {
                    return Err(unexpected(a.as_str()));
                }
            },
        }
        i = i + 1;
    }
    match name {
        Some(n) => Ok((n, period_days, json)),
        None => Err(String::from_str(MISSING_NAME)),
    }
}

/// The arguments of `stats`: one profile name, `--period <Nd>` (1 to 365
/// days, 7 when not given) and `--json`.
pub fn parse_stats_args(args: &Vec<Option<String>>) -> (r: Result<(String, u64, bool), String>)
    ensures
        match (r, stats_args_from(args@, 0, None, DEFAULT_PERIOD_DAYS as nat, false)) {
            (Ok((n, p, j)), Ok((m, q, k))) => n@ == m && p as nat == q && j == k,
            (Err(e), Err(m)) => e@ == m,
            _ => false,
        },
{
    stats_args_at(args, 0)
}

/// The options of `list`, `doctor` and `current` from position `from` on.
fn option_args_at(args: &Vec<Option<String>>, from: usize, allow_format: bool) -> (r: Result<
    (bool, bool),
    String,
>)
    ensures
        match (r, option_args_from(args@, from as int, allow_format, false, false)) {
            (Ok(a), Ok(b)) => a == b,
            (Err(e), Err(m)) => e@ == m,
            _ => false,
        },
{
    let mut json = false;
    let mut prompt = false;
    let mut i = from;
    while i < args.len()
        invariant
            from <= i,
            option_args_from(args@, from as int, allow_format, false, false) == option_args_from(
                args@,
                i as int,
                allow_format,
                json,
                prompt,
            ),
        decreases args@.len() - i,
    {
        match &args[i] {
            None => return Err(String::from_str(NOT_UTF8)),
            Some(a) => {
                if str_eq(a.as_str(), "--json") {
                    json = true;
                } else if allow_format && str_eq(a.as_str(), "--format") {
                    if i + 1 >= args.len() {
                        return Err(String::from_str(MISSING_FORMAT));
                    }
                    match &args[i + 1] {
                        None => return Err(String::from_str(MISSING_FORMAT)),
                        Some(v) => {
                            if str_eq(v.as_str(), "prompt") {
                                prompt = true;
                            } else if str_eq(v.as_str(), "text") {
                                prompt = false;
                            } else {
                                let mut m = String::from_str("unknown format '");
                                append_str(&mut m, v.as_str());
                                append_str(&mut m, "': use text or prompt");
                                return Err(m);
                            }
                        },
                    }
                    i = i + 1;
                } else {
                    return Err(unexpected(a.as_str()));
                }
            },
        }
        i = i + 1;
    }
    Ok((json, prompt))
}

/// The shell argument of `completion` and `shell-function` at position
/// `from`.
fn shell_args_at(args: &Vec<Option<String>>, from: usize) -> (r: Result<Shell, String>)
    ensures
        match (r, shell_args_from(args@, from as int)) {
            (Ok(a), Ok(b)) => a == b,
            (Err(e), Err(m)) => e@ == m,
            _ => false,
        },
{
    if from >= args.len() {
        return Err(String::from_str(MISSING_SHELL));
    }
    let a = match &args[from] {
        None => return Err(String::from_str(NOT_UTF8)),
        Some(a) => a.as_str(),
    };
    let shell = if str_eq(a, "zsh") {
        Shell::Zsh
    } else if str_eq(a, "bash") {
        Shell::Bash
    } else if str_eq(a, "fish") {
        Shell::Fish
    } else {
        let mut m = String::from_str("unsupported shell '");
        append_str(&mut m, a);
        append_str(&mut m, "': use zsh, bash or fish");
        return Err(m);
    };
    if from + 1 < args.len() {
        return match &args[from + 1] {
            None => Err(String::from_str(NOT_UTF8)),
            Some(b) => Err(unexpected(b.as_str())),
        };
    }
    Ok(shell)
}

/// A command of the tool, with its arguments.
pub enum Command {
    Init,
    Add { name: String, force: bool },
    Login { name: String, force: bool, device_auth: bool },
    Use { name: String },
    List { json: bool },
    Stats { name: String, period_days: u64, json: bool },
    Current { json: bool, prompt: bool },
    Remove { name: String, force: bool },
    Doctor { json: bool },
    Completion { shell: Shell },
    ShellFunction { shell: Shell },
    Help,
    Version,
}

/// A command, with its text arguments as character sequences.
pub enum CommandView {
    Init,
    Add { name: Seq<char>, force: bool },
    Login { name: Seq<char>, force: bool, device_auth: bool },
    Use { name: Seq<char> },
    List { json: bool },
    Stats { name: Seq<char>, period_days: nat, json: bool },
    Current { json: bool, prompt: bool },
    Remove { name: Seq<char>, force: bool },
    Doctor { json: bool },
    Completion { shell: Shell },
    ShellFunction { shell: Shell },
    Help,
    Version,
}

impl View for Command {
    type V = CommandView;

    open spec fn view(&self) -> CommandView {
        match self {
            Command::Init => CommandView::Init,
            Command::Add { name, force } => CommandView::Add { name: name@, force: *force },
            Command::Login { name, force, device_auth } => CommandView::Login {
                name: name@,
                force: *force,
                device_auth: *device_auth,
            },
            Command::Use { name } => CommandView::Use { name: name@ },
            Command::List { json } => CommandView::List { json: *json },
            Command::Stats { name, period_days, json } => CommandView::Stats {
                name: name@,
                period_days: *period_days as nat,
                json: *json,
            },
            Command::Current { json, prompt } => CommandView::Current { json: *json, prompt: *prompt },
            Command::Remove { name, force } => CommandView::Remove { name: name@, force: *force },
            Command::Doctor { json } => CommandView::Doctor { json: *json },
            Command::Completion { shell } => CommandView::Completion { shell: *shell },
            Command::ShellFunction { shell } => CommandView::ShellFunction { shell: *shell },
            Command::Help => CommandView::Help,
            Command::Version => CommandView::Version,
        }
    }
}

/// The command word: the first argument, or `help` when there is none or
/// it is not valid UTF-8.
pub open spec fn command_word(args: Seq<Option<String>>) -> Seq<char> {
    if args.len() > 0 && arg_view(args[0]) is Some {
        arg_view(args[0]).unwrap()
    } else {
        "help"@
    }
}

/// The command the arguments select, with the aliases `capture` (`add`),
/// `switch` (`use`), `ls` (`list`), `rm` (`remove`), `--help`/`-h` and
/// `--version`/`-V`.
pub open spec fn parsed_command(args: Seq<Option<String>>) -> Result<CommandView, Seq<char>> {
    let w = command_word(args);
    if w == "init"@ {
        Ok(CommandView::Init)
    } else if w == "add"@ || w == "capture"@ {
        match profile_args_from(args, true, 1, None, false) {
            Ok((n, f)) => Ok(CommandView::Add { name: n, force: f }),
            Err(m) => Err(m),
        }
    } else if w == "login"@ {
        match login_args_from(args, 1, None, false, false) {
            Ok((n, f, d)) => Ok(CommandView::Login { name: n, force: f, device_auth: d }),
            Err(m) => Err(m),
        }
    } else if w == "use"@ || w == "switch"@ {
        match profile_args_from(args, false, 1, None, false) {
            Ok((n, f)) => Ok(CommandView::Use { name: n }),
            Err(m) => Err(m),
        }
    } else if w == "list"@ || w == "ls"@ {
        match option_args_from(args, 1, false, false, false) {
            Ok((j, _)) => Ok(CommandView::List { json: j }),
            Err(m) => Err(m),
        }
    } else if w == "stats"@ {
        match stats_args_from(args, 1, None, DEFAULT_PERIOD_DAYS as nat, false) {
            Ok((n, p, j)) => Ok(CommandView::Stats { name: n, period_days: p, json: j }),
            Err(m) => Err(m),
        }
    } else if w == "current"@ {
        match option_args_from(args, 1, true, false, false) {
            Ok((j, q)) => Ok(CommandView::Current { json: j, prompt: q }),
            Err(m) => Err(m),
        }
    } else if w == "remove"@ || w == "rm"@ {
        match profile_args_from(args, true, 1, None, false) {
            Ok((n, f)) => Ok(CommandView::Remove { name: n, force: f }),
            Err(m) => Err(m),
        }
    } else if w == "doctor"@ {
        match option_args_from(args, 1, false, false, false) {
            Ok((j, _)) => Ok(CommandView::Doctor { json: j }),
            Err(m) => Err(m),
        }
    } else if w == "completion"@ {
        match shell_args_from(args, 1) {
            Ok(sh) => Ok(CommandView::Completion { shell: sh }),
            Err(m) => Err(m),
        }
    } else if w == "shell-function"@ {
        match shell_args_from(args, 1) {
            Ok(sh) => Ok(CommandView::ShellFunction { shell: sh }),
            Err(m) => Err(m),
        }
    } else if w == "help"@ || w == "--help"@ || w == "-h"@ {
        Ok(CommandView::Help)
    } else if w == "version"@ || w == "--version"@ || w == "-V"@ {
        Ok(CommandView::Version)
    } else {
        Err(unknown_command_message(w))
    }
}

/// The command selected by the program's arguments (without the program
/// name).
pub fn parse_command(args: &Vec<Option<String>>) -> (r: Result<Command, String>)
    ensures
        match (r, parsed_command(args@)) {
            (Ok(c), Ok(v)) => c@ == v,
            (Err(e), Err(m)) => e@ == m,
            _ => false,
        },
{
    let word: &str = if args.len() > 0 {
        match &args[0] {
            Some(a) => a.as_str(),
            None => "help",
        }
    } else {
        "help"
    };
    assert(word@ == command_word(args@));
    if str_eq(word, "init") {
        Ok(Command::Init)
    } else if str_eq(word, "add") || str_eq(word, "capture") {
        match profile_args_at(args, 1, true) {
            Ok((name, force)) => Ok(Command::Add { name, force }),
            Err(m) => Err(m),
        }
    } else if str_eq(word, "login") {
        match login_args_at(args, 1) {
            Ok((name, force, device_auth)) => Ok(Command::Login { name, force, device_auth }),
            Err(m) => Err(m),
        }
    } else if str_eq(word, "use") || str_eq(word, "switch") {
        match profile_args_at(args, 1, false) {
            Ok((name, _)) => Ok(Command::Use { name }),
            Err(m) => Err(m),
        }
    } else if str_eq(word, "list") || str_eq(word, "ls") {
        match option_args_at(args, 1, false) {
            Ok((json, _)) => Ok(Command::List { json }),
            Err(m) => Err(m),
        }
    } else if str_eq(word, "stats") {
        match stats_args_at(args, 1) {
            Ok((name, period_days, json)) => Ok(Command::Stats { name, period_days, json }),
            Err(m) => Err(m),
        }
    } else if str_eq(word, "current") {
        match option_args_at(args, 1, true) {
            Ok((json, prompt)) => Ok(Command::Current { json, prompt }),
            Err(m) => Err(m),
        }
    } else if str_eq(word, "remove") || str_eq(word, "rm") {
        match profile_args_at(args, 1, true) {
            Ok((name, force)) => Ok(Command::Remove { name, force }),
            Err(m) => Err(m),
        }
    } else if str_eq(word, "doctor") {
        match option_args_at(args, 1, false) {
            Ok((json, _)) => Ok(Command::Doctor { json }),
            Err(m) => Err(m),
        }
    } else if str_eq(word, "completion") {
        match shell_args_at(args, 1) {
            Ok(shell) => Ok(Command::Completion { shell }),
            Err(m) => Err(m),
        }
    } else if str_eq(word, "shell-function") {
        match shell_args_at(args, 1) {
            Ok(shell) => Ok(Command::ShellFunction { shell }),
            Err(m) => Err(m),
        }
    } else if str_eq(word, "help") || str_eq(word, "--help") || str_eq(word, "-h") {
        Ok(Command::Help)
    } else if str_eq(word, "version") || str_eq(word, "--version") || str_eq(word, "-V") {
        Ok(Command::Version)
    } else {
        let mut m = String::from_str("unknown command '");
        append_str(&mut m, word);
        append_str(&mut m, "'. Run 'codex-switcher help'.");
        Err(m)
    }
}

/// The flags of `login` may come before or after the name, in any order:
/// each sets only its own option, and the name is the argument that is
/// not a flag.
pub proof fn law_login_flags_in_any_order(word: String, name: String, force: String, device: String)
    requires
        word@ == "login"@,
        !starts_with(name@, "-"@),
        force@ == "--force"@,
        device@ == "--device-auth"@,
    ensures
        parsed_command(seq![Some(word), Some(name)]) == Ok::<CommandView, Seq<char>>(
            CommandView::Login { name: name@, force: false, device_auth: false },
        ),
        parsed_command(seq![Some(word), Some(force), Some(name)]) == Ok::<CommandView, Seq<char>>(
            CommandView::Login { name: name@, force: true, device_auth: false },
        ),
        parsed_command(seq![Some(word), Some(device), Some(name)]) == Ok::<CommandView, Seq<char>>(
            CommandView::Login { name: name@, force: false, device_auth: true },
        ),
        parsed_command(seq![Some(word), Some(name), Some(device), Some(force)])
            == Ok::<CommandView, Seq<char>>(
            CommandView::Login { name: name@, force: true, device_auth: true },
        ),
{
    reveal_strlit("login");
    reveal_strlit("--force");
    reveal_strlit("--device-auth");
    reveal_strlit("-");
    login_flag_facts();
    reveal_with_fuel(login_args_from, 5);
}

/// `add` and `remove` take `--force` before or after the name, and only
/// it sets the option.
pub proof fn law_force_in_any_order(word: String, name: String, force: String)
    requires
        word@ == "add"@ || word@ == "remove"@,
        !starts_with(name@, "-"@),
        force@ == "--force"@,
    ensures
        ({
            let plain = parsed_command(seq![Some(word), Some(name)]);
            let before = parsed_command(seq![Some(word), Some(force), Some(name)]);
            let after = parsed_command(seq![Some(word), Some(name), Some(force)]);
            if word@ == "add"@ {
                &&& plain == Ok::<CommandView, Seq<char>>(CommandView::Add { name: name@, force: false })
                &&& before == Ok::<CommandView, Seq<char>>(CommandView::Add { name: name@, force: true })
                &&& after == Ok::<CommandView, Seq<char>>(CommandView::Add { name: name@, force: true })
            } else {
                &&& plain == Ok::<CommandView, Seq<char>>(CommandView::Remove { name: name@, force: false })
                &&& before == Ok::<CommandView, Seq<char>>(CommandView::Remove { name: name@, force: true })
                &&& after == Ok::<CommandView, Seq<char>>(CommandView::Remove { name: name@, force: true })
            }
        }),
{
    reveal_strlit("add");
    reveal_strlit("remove");
    reveal_strlit("--force");
    reveal_strlit("-");
    login_flag_facts();
    reveal_with_fuel(profile_args_from, 4);
}

proof fn login_flag_facts()
    ensures
        "login"@ != "init"@,
        "login"@ != "add"@,
        "login"@ != "capture"@,
        "add"@ != "init"@,
        "remove"@ != "init"@,
        "remove"@ != "add"@,
        "remove"@ != "capture"@,
        "remove"@ != "login"@,
        "remove"@ != "use"@,
        "remove"@ != "switch"@,
        "remove"@ != "list"@,
        "remove"@ != "ls"@,
        "remove"@ != "stats"@,
        "remove"@ != "current"@,
        starts_with("--force"@, "-"@),
        starts_with("--device-auth"@, "-"@),
{
    reveal_strlit("login");
    reveal_strlit("init");
    reveal_strlit("add");
    reveal_strlit("capture");
    reveal_strlit("remove");
    reveal_strlit("use");
    reveal_strlit("switch");
    reveal_strlit("list");
    reveal_strlit("ls");
    reveal_strlit("stats");
    reveal_strlit("current");
    reveal_strlit("--force");
    reveal_strlit("--device-auth");
    reveal_strlit("-");
    assert("login"@[0] != "init"@[0]);
    assert("login"@[0] != "add"@[0]);
    assert("login"@[0] != "capture"@[0]);
    assert("add"@[0] != "init"@[0]);
    assert("remove"@[0] != "init"@[0]);
    assert("remove"@[0] != "add"@[0]);
    assert("remove"@[0] != "capture"@[0]);
    assert("remove"@[0] != "login"@[0]);
    assert("remove"@[0] != "use"@[0]);
    assert("remove"@[0] != "switch"@[0]);
    assert("remove"@[0] != "list"@[0]);
    assert("remove"@[0] != "ls"@[0]);
    assert("remove"@[0] != "stats"@[0]);
    assert("remove"@[0] != "current"@[0]);
    assert("--force"@.take(1) =~= "-"@);
    assert("--device-auth"@.take(1) =~= "-"@);
}

} // verus!
