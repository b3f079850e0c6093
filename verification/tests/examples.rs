use codex_switcher::activity::{activity_trend, daily_tokens_for_date, DailyUsage, Trend};
use codex_switcher::args::parse_period;
use codex_switcher::config::{configure_file_credentials, has_file_credentials};
use codex_switcher::format::{format_duration, format_token_count, format_tokens};
use codex_switcher::json::{read_message, JsonValue};
use codex_switcher::names::validate_name;
use codex_switcher::style::{
    colorize_cell, format_stat_row, profile_status, styled_message, switch_confirmation,
    trend_color, ANSI_GOLD, ANSI_GREEN, ANSI_HINT, ANSI_RED,
};
use codex_switcher::usage::{apply_token_usage, parse_usage, Usage};

fn json(text: &str) -> JsonValue {
    read_message(text).expect("valid JSON")
}

/// 2026-09-02 as a day number (days since the start of the common era).
const SEPT_2_2026: i32 = 739_861;

#[test]
fn profile_names_are_restricted() {
    assert!(validate_name("personal").is_ok());
    assert!(validate_name("work-2_test").is_ok());
    assert!(validate_name("../secrets").is_err());
    assert!(validate_name(" space").is_err());
    assert!(validate_name("").is_err());
}

#[test]
fn adds_credential_setting_before_tables() {
    let config = "model = \"gpt\"\n[projects.foo]\ntrusted = true\n";
    let updated = configure_file_credentials(config);
    assert!(updated.starts_with("cli_auth_credentials_store = \"file\"\n"));
    assert!(has_file_credentials(&updated));
}

#[test]
fn replaces_existing_root_credential_setting() {
    let config = "cli_auth_credentials_store = \"keyring\" # old\nmodel = \"gpt\"\n";
    let updated = configure_file_credentials(config);
    assert_eq!(
        updated,
        "cli_auth_credentials_store = \"file\" # old\nmodel = \"gpt\"\n"
    );
    assert!(has_file_credentials(&updated));
}

#[test]
fn ignores_similarly_named_setting() {
    let config = "cli_auth_credentials_store_backup = \"file\"\n";
    assert!(!has_file_credentials(config));
}

#[test]
fn parses_five_hour_and_weekly_windows() {
    let account = json(r#"{ "account": { "type": "chatgpt", "planType": "plus" } }"#);
    let limits = json(
        r#"{
            "rateLimits": {
                "primary": {
                    "usedPercent": 25,
                    "windowDurationMins": 300,
                    "resetsAt": 1893456000
                },
                "secondary": {
                    "usedPercent": 40,
                    "windowDurationMins": 10080,
                    "resetsAt": 1893888000
                }
            }
        }"#,
    );

    let usage = parse_usage(&account, &limits);
    assert_eq!(usage.plan, "PLUS");
    let five_hours = usage.five_hours.expect("5h window");
    let weekly = usage.weekly.expect("weekly window");
    assert_eq!(f64::from_bits(five_hours.used_percent_bits), 25.0);
    assert_eq!(f64::from_bits(weekly.used_percent_bits), 40.0);
}

#[test]
fn does_not_invent_missing_limits_for_api_keys() {
    let usage = parse_usage(
        &json(r#"{ "account": { "type": "apiKey" } }"#),
        &json(r#"{ "rateLimits": null }"#),
    );
    assert_eq!(usage.plan, "API");
    assert!(usage.five_hours.is_none());
    assert!(usage.weekly.is_none());
}

#[test]
fn parses_and_formats_lifetime_token_usage() {
    let token_usage = json(
        r#"{
            "summary": {
                "lifetimeTokens": 1500000,
                "peakDailyTokens": 45678,
                "longestRunningTurnSec": 540,
                "currentStreakDays": 8,
                "longestStreakDays": 14
            },
            "dailyUsageBuckets": [
                { "startDate": "2026-09-01", "tokens": 12345 },
                { "startDate": "invalid", "tokens": 99 }
            ]
        }"#,
    );
    let mut usage = Usage::empty();
    apply_token_usage(&mut usage, &token_usage);
    assert_eq!(usage.lifetime_tokens, Some(1_500_000));
    assert_eq!(usage.peak_daily_tokens, Some(45_678));
    assert_eq!(usage.longest_running_turn_sec, Some(540));
    assert_eq!(usage.current_streak_days, Some(8));
    assert_eq!(usage.longest_streak_days, Some(14));
    assert_eq!(usage.daily_usage.len(), 1);
    assert_eq!(usage.daily_usage[0].tokens, 12_345);
    assert_eq!(format_token_count(100), "100");
    assert_eq!(format_token_count(900), "900");
    assert_eq!(format_token_count(1_000), "1K");
    assert_eq!(format_token_count(654_400), "654,4K");
    assert_eq!(format_token_count(1_500_000), "1,5M");
    assert_eq!(format_token_count(4_200_000), "4,2M");
    assert_eq!(format_token_count(999_999), "1M");
    assert_eq!(format_tokens(None), "—");
}

#[test]
fn parses_stats_period() {
    assert_eq!(parse_period("30d", 365), Ok(30));
    assert!(parse_period("0d", 365).is_err());
    assert!(parse_period("366d", 365).is_err());
    assert!(parse_period("30", 365).is_err());
}

#[test]
fn calculates_activity_trend_and_bar() {
    let today = SEPT_2_2026;
    let usage = vec![
        DailyUsage {
            date: today - 8,
            tokens: 100,
        },
        DailyUsage {
            date: today,
            tokens: 150,
        },
    ];
    // The library gives the two totals; the percentage itself (+50%) is
    // floating-point formatting done by the program around it.
    assert!(matches!(
        activity_trend(&usage, today, 7),
        Trend::Change {
            current: 150,
            previous: 100
        }
    ));
    assert_eq!(format_duration(Some(3_661)), "1h 1m 1s");
}

#[test]
fn does_not_treat_a_missing_daily_bucket_as_zero_usage() {
    let today = SEPT_2_2026;
    let yesterday = DailyUsage {
        date: today - 1,
        tokens: 12_345,
    };
    let zero_today = DailyUsage {
        date: today,
        tokens: 0,
    };

    assert_eq!(daily_tokens_for_date(&vec![yesterday], today), None);
    assert_eq!(daily_tokens_for_date(&vec![zero_today], today), Some(0));
}

#[test]
fn styles_statistics_without_changing_plain_layout() {
    assert_eq!(
        format_stat_row("Profile", "work", ANSI_GOLD, false),
        "Profile             work"
    );
    let colored = format_stat_row("Profile", "work", ANSI_GOLD, true);
    assert!(colored.starts_with("\x1b[2;37mProfile             \x1b[0m"));
    assert!(colored.ends_with("\x1b[1;33mwork\x1b[0m"));
    assert_eq!(trend_color("trend +20% vs previous period"), ANSI_GREEN);
    assert_eq!(trend_color("trend -20% vs previous period"), ANSI_RED);
    assert_eq!(trend_color("trend flat"), ANSI_HINT);
}

#[test]
fn colors_table_cells_by_meaning() {
    assert!(
        colorize_cell("* personal", "* personal", 0, false, true, ANSI_GREEN)
            .starts_with("\x1b[1;33m")
    );
    assert!(colorize_cell("PLUS", "PLUS", 1, false, true, ANSI_GREEN).starts_with("\x1b[35m"));
    assert!(
        colorize_cell("2026-09-02 12:00", "2026-09-02 12:00", 3, false, true, ANSI_GREEN)
            .starts_with("\x1b[37m")
    );
}

#[test]
fn styles_switch_confirmation_without_changing_plain_output() {
    let colored = switch_confirmation("priv", true);
    assert!(colored[0].starts_with("\x1b[32mSwitched to profile "));
    assert!(colored[0].contains("\x1b[1;33m'priv'"));
    assert!(colored[1].starts_with("\x1b[2;37mRestart"));

    assert_eq!(
        switch_confirmation("priv", false),
        [
            "Switched to profile 'priv'.",
            "Restart the Codex chat in your IDE if it was already open."
        ]
    );
}

#[test]
fn styles_status_messages_without_changing_plain_output() {
    assert_eq!(
        profile_status("Removed profile ", "priv", ".", ANSI_GREEN, false),
        "Removed profile 'priv'."
    );
    assert_eq!(
        profile_status("Removed profile ", "priv", ".", ANSI_GREEN, true),
        "\x1b[32mRemoved profile \x1b[1;33m'priv'\x1b[0m\x1b[32m.\x1b[0m"
    );
    assert_eq!(
        styled_message("Everything looks good.", ANSI_GREEN, true),
        "\x1b[32mEverything looks good.\x1b[0m"
    );
    assert_eq!(
        styled_message("Everything looks good.", ANSI_GREEN, false),
        "Everything looks good."
    );
}
