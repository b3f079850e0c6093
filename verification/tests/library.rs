use codex_switcher::activity::{peak_tokens, period_totals_fit, usage_for_period, DailyUsage};
use codex_switcher::args::{parse_command, parse_login_args, parse_profile_args, parse_stats_args, Command, Shell};
use codex_switcher::document::{current_document, doctor_document, list_document, stats_document, ListEntry};
use codex_switcher::exit::exit_code;
use codex_switcher::listing::{list_rows, list_warnings, sort_names};
use codex_switcher::shell::{completion_script, shell_function};
use codex_switcher::statistics::{stats_lines, LimitCells};
use codex_switcher::commands::{capture, current, list, remove, stats, switch};
use codex_switcher::config::configure_file_credentials;
use codex_switcher::flow::{ExitReport, Line, Outcome, Step};
use codex_switcher::format::{format_days, format_duration, value_or_dash};
use codex_switcher::json::read_message;
use codex_switcher::login::{login, LoginFlow};
use codex_switcher::names::{profile_name_from_file, validate_name, NAME_RULE};
use codex_switcher::paths::{join_path, Paths};
use codex_switcher::query::QueryProgress;
use codex_switcher::report::{
    account_report, activity_row, activity_title, forecast_color, format_date, limit_row,
    no_activity, profile_label, query_warning, trend_text,
};
use codex_switcher::activity::Trend;
use codex_switcher::setup::{doctor, initialize, InitFlow};
use codex_switcher::storage::{
    ensure_initialized, lock_decision, read_active, remove_if_exists, save_active, set_mode,
    temporary_name, validate_auth_file, write_active, FileAction, FileText, LockDecision,
    LockOutcome, Metadata, RemoveOutcome, NOT_INITIALIZED,
};
use codex_switcher::style::{report_line, ANSI_GREEN, ANSI_HINT, ANSI_RED};
use codex_switcher::table::{headings, table_row, table_widths};
use codex_switcher::usage::{bucket_from, parse_usage, response_result, Usage, Window};

fn paths() -> Paths {
    Paths {
        codex_home: "/home/u/.codex".to_owned(),
        switcher_home: "/home/u/.codex-switcher".to_owned(),
    }
}

fn done() -> Outcome {
    Outcome::Done(Ok(()))
}

fn finished_with(step: &Step) -> Option<Result<(), String>> {
    match step {
        Step::Finish { result } => Some(result.clone()),
        _ => None,
    }
}

// ---- the commands, step by step ----

#[test]
fn switch_saves_the_current_login_before_replacing_it() {
    let mut flow = switch(paths(), "work".to_owned());
    assert!(matches!(flow.step(Outcome::Start), Step::AcquireLock));
    assert!(matches!(flow.step(done()), Step::EnsureInitialized));
    match flow.step(done()) {
        Step::CheckAuthFile { path } => assert_eq!(path, "/home/u/.codex-switcher/profiles/work.json"),
        _ => panic!("expected a check of the profile"),
    }
    assert!(matches!(flow.step(done()), Step::ReadActive));
    assert!(matches!(
        flow.step(Outcome::Active(Ok(Some("personal".to_owned())))),
        Step::SaveActive
    ));
    match flow.step(done()) {
        Step::Copy { from, to } => {
            assert_eq!(from, "/home/u/.codex-switcher/profiles/work.json");
            assert_eq!(to, "/home/u/.codex/auth.json");
        }
        _ => panic!("expected the copy"),
    }
    match flow.step(done()) {
        Step::WriteActive { name } => assert_eq!(name.as_deref(), Some("work")),
        _ => panic!("expected the active record"),
    }
    assert!(matches!(
        flow.step(done()),
        Step::Print { line: Line::Confirmation { .. } }
    ));
    assert_eq!(finished_with(&flow.step(done())), Some(Ok(())));
}

struct MemoryDisk {
    files: std::collections::BTreeMap<String, Vec<u8>>,
    active: Option<String>,
}

fn carry_out_switch(disk: &mut MemoryDisk, name: &str) -> Option<Result<(), String>> {
    let p = paths();
    let mut flow = switch(paths(), name.to_owned());
    let mut outcome = Outcome::Start;
    for _ in 0..20 {
        let step = flow.step(outcome);
        outcome = match step {
            Step::Finish { result } => return Some(result),
            Step::CheckAuthFile { path } => match disk.files.get(&path) {
                Some(bytes) if !bytes.is_empty() => done(),
                _ => Outcome::Done(Err(format!("{path} is not a non-empty file"))),
            },
            Step::ReadActive => Outcome::Active(Ok(disk.active.clone())),
            Step::SaveActive => {
                let auth_valid = disk.files.get(&p.auth()).map_or(false, |b| !b.is_empty());
                if let Some((from, to)) = save_active(&p, disk.active.clone(), auth_valid) {
                    let bytes = disk.files[&from].clone();
                    disk.files.insert(to, bytes);
                }
                done()
            }
            Step::Copy { from, to } => {
                let bytes = disk.files[&from].clone();
                disk.files.insert(to, bytes);
                done()
            }
            Step::WriteActive { name } => {
                disk.active = name;
                done()
            }
            _ => done(),
        };
    }
    None
}

#[test]
fn switching_away_and_back_keeps_refreshed_credentials() {
    let p = paths();
    let mut disk = MemoryDisk { files: std::collections::BTreeMap::new(), active: Some("personal".to_owned()) };
    disk.files.insert(p.auth(), b"personal-refreshed".to_vec());
    disk.files.insert(p.profile("personal"), b"personal-v1".to_vec());
    disk.files.insert(p.profile("work"), b"work-v1".to_vec());
    assert_eq!(carry_out_switch(&mut disk, "work"), Some(Ok(())));
    assert_eq!(disk.files[&p.auth()], b"work-v1".to_vec());
    assert_eq!(disk.files[&p.profile("personal")], b"personal-refreshed".to_vec());
    assert_eq!(disk.active.as_deref(), Some("work"));
    assert_eq!(carry_out_switch(&mut disk, "personal"), Some(Ok(())));
    assert_eq!(disk.files[&p.auth()], b"personal-refreshed".to_vec());
    assert_eq!(disk.files[&p.profile("work")], b"work-v1".to_vec());
    assert_eq!(disk.active.as_deref(), Some("personal"));
}

#[test]
fn switching_to_the_active_profile_leaves_the_disk_alone() {
    let p = paths();
    let mut disk = MemoryDisk { files: std::collections::BTreeMap::new(), active: Some("work".to_owned()) };
    disk.files.insert(p.auth(), b"current".to_vec());
    disk.files.insert(p.profile("work"), b"saved".to_vec());
    let before = disk.files.clone();
    assert_eq!(carry_out_switch(&mut disk, "work"), Some(Ok(())));
    assert_eq!(disk.files, before);
    assert_eq!(disk.active.as_deref(), Some("work"));
}

#[test]
fn switch_to_the_active_profile_changes_nothing() {
    let mut flow = switch(paths(), "work".to_owned());
    flow.step(Outcome::Start);
    flow.step(done());
    flow.step(done());
    flow.step(done());
    match flow.step(Outcome::Active(Ok(Some("work".to_owned())))) {
        Step::Print { line: Line::Status { prefix, suffix, .. } } => {
            assert_eq!(prefix, "Profile ");
            assert_eq!(suffix, " is already active.");
        }
        _ => panic!("expected the notice"),
    }
    assert_eq!(finished_with(&flow.step(done())), Some(Ok(())));
}

#[test]
fn switch_to_a_missing_profile_fails() {
    let mut flow = switch(paths(), "work".to_owned());
    flow.step(Outcome::Start);
    flow.step(done());
    flow.step(done());
    let step = flow.step(Outcome::Done(Err("x is not a non-empty file".to_owned())));
    assert_eq!(
        finished_with(&step),
        Some(Err("profile 'work' does not exist or is invalid".to_owned()))
    );
}

#[test]
fn a_failed_save_stops_the_switch() {
    let mut flow = switch(paths(), "work".to_owned());
    flow.step(Outcome::Start);
    flow.step(done());
    flow.step(done());
    flow.step(done());
    flow.step(Outcome::Active(Ok(None)));
    let step = flow.step(Outcome::Done(Err("disk full".to_owned())));
    assert_eq!(finished_with(&step), Some(Err("disk full".to_owned())));
}

#[test]
fn every_command_rejects_an_invalid_name_first() {
    let bad = "../secrets".to_owned();
    let rule = Some(Err(NAME_RULE.to_owned()));
    assert_eq!(finished_with(&switch(paths(), bad.clone()).step(Outcome::Start)), rule);
    assert_eq!(
        finished_with(&capture(paths(), bad.clone(), true).step(Outcome::Start)),
        rule
    );
    assert_eq!(
        finished_with(&remove(paths(), bad.clone(), true).step(Outcome::Start)),
        rule
    );
    assert_eq!(
        finished_with(&stats(paths(), bad.clone(), 7, false).step(Outcome::Start)),
        rule
    );
    assert_eq!(
        finished_with(&login(paths(), bad, true, false).step(Outcome::Start)),
        rule
    );
}

#[test]
fn add_refuses_to_replace_a_profile_without_force() {
    let mut flow = capture(paths(), "work".to_owned(), false);
    flow.step(Outcome::Start);
    flow.step(done());
    match flow.step(done()) {
        Step::CheckAuthFile { path } => assert_eq!(path, "/home/u/.codex/auth.json"),
        _ => panic!("expected a check of the login"),
    }
    assert!(matches!(flow.step(done()), Step::PathExists { .. }));
    assert_eq!(
        finished_with(&flow.step(Outcome::Found(true))),
        Some(Err("profile 'work' already exists; pass --force to replace it".to_owned()))
    );
}

#[test]
fn add_with_force_saves_then_copies_the_login() {
    let mut flow = capture(paths(), "work".to_owned(), true);
    flow.step(Outcome::Start);
    flow.step(done());
    flow.step(done());
    flow.step(done());
    assert!(matches!(flow.step(Outcome::Found(true)), Step::SaveActive));
    match flow.step(done()) {
        Step::Copy { from, to } => {
            assert_eq!(from, "/home/u/.codex/auth.json");
            assert_eq!(to, "/home/u/.codex-switcher/profiles/work.json");
        }
        _ => panic!("expected the copy"),
    }
    assert!(matches!(flow.step(done()), Step::WriteActive { .. }));
    match flow.step(done()) {
        Step::Print { line: Line::Status { prefix, name, suffix, color } } => {
            assert_eq!(prefix, "Captured the current Codex login as profile ");
            assert_eq!(name, "work");
            assert_eq!(suffix, ".");
            assert_eq!(color, ANSI_GREEN);
        }
        _ => panic!("expected the confirmation"),
    }
    assert_eq!(finished_with(&flow.step(done())), Some(Ok(())));
}

fn login_until_run(flow: &mut LoginFlow) {
    assert!(matches!(flow.step(Outcome::Start), Step::PathExists { .. }));
    assert!(matches!(flow.step(Outcome::Found(false)), Step::AcquireLock));
    assert!(matches!(flow.step(done()), Step::EnsureInitialized));
    assert!(matches!(flow.step(done()), Step::SaveActive));
    assert!(matches!(flow.step(done()), Step::ReadAuth));
    assert!(matches!(
        flow.step(Outcome::Content(Some(b"old login".to_vec()))),
        Step::ReadActive
    ));
    assert!(matches!(
        flow.step(Outcome::Active(Ok(Some("personal".to_owned())))),
        Step::RemoveAuth
    ));
    assert!(matches!(flow.step(done()), Step::Print { .. }));
    assert!(matches!(flow.step(done()), Step::RunLogin { device_auth: true }));
}

fn expect_restore(flow: &mut LoginFlow, outcome: Outcome) {
    match flow.step(outcome) {
        Step::RestoreAuth { content } => assert_eq!(content, Some(b"old login".to_vec())),
        _ => panic!("expected the login to be put back"),
    }
    match flow.step(done()) {
        Step::WriteActive { name } => assert_eq!(name.as_deref(), Some("personal")),
        _ => panic!("expected the active profile to be put back"),
    }
}

#[test]
fn a_failed_login_restores_the_previous_login() {
    let mut flow = login(paths(), "work".to_owned(), false, true);
    login_until_run(&mut flow);
    let exit = ExitReport { success: false, status: "exit status: 1".to_owned() };
    expect_restore(&mut flow, Outcome::Exit(Ok(exit)));
    assert_eq!(
        finished_with(&flow.step(done())),
        Some(Err(
            "Codex login failed; restored the previous active profile (exit exit status: 1)"
                .to_owned()
        ))
    );
}

#[test]
fn a_login_that_cannot_start_restores_the_previous_login() {
    let mut flow = login(paths(), "work".to_owned(), false, true);
    login_until_run(&mut flow);
    expect_restore(&mut flow, Outcome::Exit(Err("No such file or directory".to_owned())));
    assert_eq!(
        finished_with(&flow.step(done())),
        Some(Err(
            "cannot start 'codex login': No such file or directory; restored the previous active profile"
                .to_owned()
        ))
    );
}

#[test]
fn a_login_without_a_saved_login_restores_the_previous_login() {
    let mut flow = login(paths(), "work".to_owned(), false, true);
    login_until_run(&mut flow);
    let exit = ExitReport { success: true, status: "exit status: 0".to_owned() };
    assert!(matches!(flow.step(Outcome::Exit(Ok(exit))), Step::CheckAuthFile { .. }));
    expect_restore(&mut flow, Outcome::Done(Err("empty".to_owned())));
    assert!(finished_with(&flow.step(done())).unwrap().is_err());
}

#[test]
fn a_successful_login_saves_the_profile() {
    let mut flow = login(paths(), "work".to_owned(), false, true);
    login_until_run(&mut flow);
    let exit = ExitReport { success: true, status: "exit status: 0".to_owned() };
    flow.step(Outcome::Exit(Ok(exit)));
    match flow.step(done()) {
        Step::Copy { from, to } => {
            assert_eq!(from, "/home/u/.codex/auth.json");
            assert_eq!(to, "/home/u/.codex-switcher/profiles/work.json");
        }
        _ => panic!("expected the copy"),
    }
    match flow.step(done()) {
        Step::WriteActive { name } => assert_eq!(name.as_deref(), Some("work")),
        _ => panic!("expected the active record"),
    }
    assert!(matches!(flow.step(done()), Step::Print { .. }));
    assert_eq!(finished_with(&flow.step(done())), Some(Ok(())));
}

#[test]
fn login_refuses_an_existing_profile_before_taking_the_lock() {
    let mut flow = login(paths(), "work".to_owned(), false, false);
    flow.step(Outcome::Start);
    assert_eq!(
        finished_with(&flow.step(Outcome::Found(true))),
        Some(Err("profile 'work' already exists; pass --force to replace it".to_owned()))
    );
}

#[test]
fn remove_keeps_the_active_profile_without_force() {
    let mut flow = remove(paths(), "work".to_owned(), false);
    flow.step(Outcome::Start);
    assert!(matches!(flow.step(done()), Step::PathExists { .. }));
    assert!(matches!(flow.step(Outcome::Found(true)), Step::ReadActive));
    assert_eq!(
        finished_with(&flow.step(Outcome::Active(Ok(Some("work".to_owned()))))),
        Some(Err("profile 'work' is active; switch first or pass --force".to_owned()))
    );
}

#[test]
fn remove_with_force_forgets_the_active_profile() {
    let mut flow = remove(paths(), "work".to_owned(), true);
    flow.step(Outcome::Start);
    flow.step(done());
    flow.step(Outcome::Found(true));
    match flow.step(Outcome::Active(Ok(Some("work".to_owned())))) {
        Step::RemoveProfile { path } => {
            assert_eq!(path, "/home/u/.codex-switcher/profiles/work.json")
        }
        _ => panic!("expected the removal"),
    }
    match flow.step(done()) {
        Step::WriteActive { name } => assert!(name.is_none()),
        _ => panic!("expected the active record to go"),
    }
    assert!(matches!(flow.step(done()), Step::Print { .. }));
    assert_eq!(finished_with(&flow.step(done())), Some(Ok(())));
}

#[test]
fn remove_reports_a_missing_profile_and_a_failed_removal() {
    let mut flow = remove(paths(), "work".to_owned(), false);
    flow.step(Outcome::Start);
    flow.step(done());
    assert_eq!(
        finished_with(&flow.step(Outcome::Found(false))),
        Some(Err("profile 'work' does not exist".to_owned()))
    );
    let mut flow = remove(paths(), "work".to_owned(), false);
    flow.step(Outcome::Start);
    flow.step(done());
    flow.step(Outcome::Found(true));
    assert!(matches!(flow.step(Outcome::Active(Ok(None))), Step::RemoveProfile { .. }));
    assert_eq!(
        finished_with(&flow.step(Outcome::Done(Err("permission denied".to_owned())))),
        Some(Err("cannot remove profile 'work': permission denied".to_owned()))
    );
}

#[test]
fn current_prints_the_active_profile_or_a_warning() {
    let mut flow = current(false, false);
    assert!(matches!(flow.step(Outcome::Start), Step::ReadActive));
    match flow.step(Outcome::Active(Ok(None))) {
        Step::Print { line: Line::Styled { message, .. } } => {
            assert_eq!(message, "No managed profile is active.")
        }
        _ => panic!("expected the warning"),
    }
}

#[test]
fn stats_checks_the_profile_then_queries_it() {
    let mut flow = stats(paths(), "work".to_owned(), 30, false);
    flow.step(Outcome::Start);
    flow.step(done());
    flow.step(done());
    assert!(matches!(flow.step(done()), Step::CheckAuthFile { .. }));
    match flow.step(done()) {
        Step::QueryStats { name, period_days, .. } => {
            assert_eq!(name, "work");
            assert_eq!(period_days, 30);
        }
        _ => panic!("expected the query"),
    }
    assert_eq!(finished_with(&flow.step(done())), Some(Ok(())));
}

#[test]
fn list_reads_the_active_profile_before_the_table() {
    let mut flow = list(false);
    assert!(matches!(flow.step(Outcome::Start), Step::AcquireLock));
    flow.step(done());
    assert!(matches!(flow.step(done()), Step::SaveActive));
    assert!(matches!(flow.step(done()), Step::ReadActive));
    match flow.step(Outcome::Active(Ok(Some("work".to_owned())))) {
        Step::ListUsage { active, .. } => assert_eq!(active.as_deref(), Some("work")),
        _ => panic!("expected the table"),
    }
}

fn init_until_read(flow: &mut InitFlow) {
    assert!(matches!(flow.step(Outcome::Start), Step::AcquireLock));
    match flow.step(done()) {
        Step::SecureDir { path } => assert_eq!(path, "/home/u/.codex"),
        _ => panic!("expected Codex's directory"),
    }
    match flow.step(done()) {
        Step::SecureDir { path } => assert_eq!(path, "/home/u/.codex-switcher/profiles"),
        _ => panic!("expected the profile directory"),
    }
    assert!(matches!(flow.step(done()), Step::ReadConfig));
}

#[test]
fn init_backs_up_the_configuration_once() {
    let config_text = "model = \"gpt\"\n";
    let mut flow = initialize(paths());
    init_until_read(&mut flow);
    match flow.step(Outcome::Text(FileText::Text(config_text.to_owned()))) {
        Step::PathExists { path } => {
            assert_eq!(path, "/home/u/.codex/config.toml.codex-switcher.bak")
        }
        _ => panic!("expected the backup check"),
    }
    match flow.step(Outcome::Found(false)) {
        Step::WriteFile { path, content } => {
            assert_eq!(path, "/home/u/.codex/config.toml.codex-switcher.bak");
            assert_eq!(content, config_text);
        }
        _ => panic!("expected the backup"),
    }
    match flow.step(done()) {
        Step::WriteFile { path, content } => {
            assert_eq!(path, "/home/u/.codex/config.toml");
            assert_eq!(content, configure_file_credentials(config_text));
        }
        _ => panic!("expected the new configuration"),
    }
    match flow.step(done()) {
        Step::Print { line: Line::Styled { message, .. } } => assert_eq!(
            message,
            "Configured file-based Codex credentials in /home/u/.codex/config.toml."
        ),
        _ => panic!("expected the confirmation"),
    }
    match flow.step(done()) {
        Step::Print { line: Line::Styled { message, color } } => {
            assert_eq!(message, "Next: codex-switcher add personal");
            assert_eq!(color, ANSI_HINT);
        }
        _ => panic!("expected the hint"),
    }
    assert_eq!(finished_with(&flow.step(done())), Some(Ok(())));
}

#[test]
fn init_keeps_an_existing_backup() {
    let mut flow = initialize(paths());
    init_until_read(&mut flow);
    flow.step(Outcome::Text(FileText::Text("model = \"gpt\"\n".to_owned())));
    match flow.step(Outcome::Found(true)) {
        Step::WriteFile { path, .. } => assert_eq!(path, "/home/u/.codex/config.toml"),
        _ => panic!("expected the configuration"),
    }
}

#[test]
fn init_on_a_configured_file_writes_nothing() {
    let mut flow = initialize(paths());
    init_until_read(&mut flow);
    let configured = configure_file_credentials("");
    match flow.step(Outcome::Text(FileText::Text(configured))) {
        Step::Print { line: Line::Styled { message, .. } } => {
            assert_eq!(message, "File-based Codex credentials are already configured.")
        }
        _ => panic!("expected the notice"),
    }
}

#[test]
fn init_writes_a_missing_configuration_without_backup() {
    let mut flow = initialize(paths());
    init_until_read(&mut flow);
    match flow.step(Outcome::Text(FileText::NotFound)) {
        Step::WriteFile { path, content } => {
            assert_eq!(path, "/home/u/.codex/config.toml");
            assert_eq!(content, "cli_auth_credentials_store = \"file\"\n");
        }
        _ => panic!("expected the configuration"),
    }
}

#[test]
fn init_reports_an_unreadable_configuration() {
    let mut flow = initialize(paths());
    init_until_read(&mut flow);
    assert_eq!(
        finished_with(&flow.step(Outcome::Text(FileText::Failed("denied".to_owned())))),
        Some(Err("cannot read /home/u/.codex/config.toml: denied".to_owned()))
    );
}

fn doctor_run(config: &str, auth_ok: bool, codex_ok: bool) -> (Vec<bool>, Step) {
    let mut flow = doctor(paths(), false);
    let mut reports = Vec::new();
    let record = |step: Step, reports: &mut Vec<bool>| {
        if let Step::Print { line: Line::Report { ok, .. } } = step {
            reports.push(ok);
        }
    };
    assert!(matches!(flow.step(Outcome::Start), Step::ReadConfig));
    let step = flow.step(Outcome::Text(FileText::Text(config.to_owned())));
    record(step, &mut reports);
    assert!(matches!(flow.step(done()), Step::CheckAuthFile { .. }));
    let auth = if auth_ok { done() } else { Outcome::Done(Err("missing".to_owned())) };
    let step = flow.step(auth);
    record(step, &mut reports);
    assert!(matches!(flow.step(done()), Step::ReadActive));
    match flow.step(Outcome::Active(Ok(Some("work".to_owned())))) {
        Step::CheckAuthFile { path } => assert_eq!(path, "/home/u/.codex-switcher/profiles/work.json"),
        _ => panic!("expected a check of the profile"),
    }
    let step = flow.step(done());
    record(step, &mut reports);
    assert!(matches!(flow.step(done()), Step::CheckCodex));
    let step = flow.step(Outcome::Found(codex_ok));
    record(step, &mut reports);
    (reports, flow.step(done()))
}

#[test]
fn doctor_succeeds_when_every_check_passes() {
    let (reports, step) = doctor_run("cli_auth_credentials_store = \"file\"\n", true, true);
    assert_eq!(reports, vec![true, true, true, true]);
    assert!(matches!(step, Step::Print { .. }));
}

#[test]
fn doctor_fails_when_a_check_fails() {
    let (reports, step) = doctor_run("", true, false);
    assert_eq!(reports, vec![false, true, true, false]);
    assert_eq!(finished_with(&step), Some(Err("one or more checks failed".to_owned())));
}

// ---- arguments ----

fn args(words: &[&str]) -> Vec<Option<String>> {
    words.iter().map(|w| Some(w.to_string())).collect()
}

#[test]
fn commands_are_read_with_their_aliases() {
    assert!(matches!(parse_command(&args(&[])), Ok(Command::Help)));
    assert!(matches!(parse_command(&vec![None]), Ok(Command::Help)));
    match parse_command(&args(&["switch", "work"])) {
        Ok(Command::Use { name }) => assert_eq!(name, "work"),
        _ => panic!("expected use"),
    }
    match parse_command(&args(&["rm", "work", "--force"])) {
        Ok(Command::Remove { name, force }) => {
            assert_eq!(name, "work");
            assert!(force);
        }
        _ => panic!("expected remove"),
    }
    match parse_command(&args(&["stats", "work"])) {
        Ok(Command::Stats { period_days, .. }) => assert_eq!(period_days, 7),
        _ => panic!("expected stats"),
    }
    match parse_command(&args(&["frobnicate"])) {
        Err(e) => assert_eq!(e, "unknown command 'frobnicate'. Run 'codex-switcher help'."),
        _ => panic!("expected an error"),
    }
}

#[test]
fn command_arguments_are_checked() {
    assert_eq!(parse_profile_args(&args(&[]), true), Err("missing profile name".to_owned()));
    assert_eq!(
        parse_profile_args(&args(&["a", "b"]), true),
        Err("unexpected argument 'b'".to_owned())
    );
    assert_eq!(
        parse_profile_args(&args(&["a", "--force"]), false),
        Err("unexpected argument '--force'".to_owned())
    );
    assert_eq!(
        parse_login_args(&args(&["work", "--device-auth"])),
        Ok(("work".to_owned(), false, true))
    );
    assert_eq!(
        parse_stats_args(&args(&["work", "--period", "30d"])),
        Ok(("work".to_owned(), 30, false))
    );
    assert_eq!(
        parse_stats_args(&args(&["work", "--period"])),
        Err("missing value for --period".to_owned())
    );
    assert_eq!(parse_profile_args(&vec![None], true), Err("arguments must be valid UTF-8".to_owned()));
}

// ---- names, paths and files ----

#[test]
fn name_rule_edges() {
    assert!(validate_name(&"a".repeat(64)).is_ok());
    assert_eq!(validate_name(&"a".repeat(65)), Err(NAME_RULE.to_owned()));
    assert!(validate_name("-work").is_err());
    assert!(validate_name("wörk").is_err());
}

#[test]
fn profiles_are_the_json_files() {
    assert_eq!(profile_name_from_file(Some("work.json".to_owned())), Some("work".to_owned()));
    assert_eq!(profile_name_from_file(Some("a.b.json".to_owned())), Some("a.b".to_owned()));
    assert_eq!(profile_name_from_file(Some("work.txt".to_owned())), None);
    assert_eq!(profile_name_from_file(Some(".json".to_owned())), None);
    assert_eq!(profile_name_from_file(None), None);
}

#[test]
fn paths_come_from_the_environment() {
    assert_eq!(
        Paths::discover(None, None, None).err(),
        Some("HOME is not set".to_owned())
    );
    let p = Paths::discover(Some("/home/u".to_owned()), None, None).unwrap();
    assert_eq!(p.codex_home, "/home/u/.codex");
    assert_eq!(p.switcher_home, "/home/u/.codex-switcher");
    let p = Paths::discover(Some("/home/u".to_owned()), Some("/c".to_owned()), Some("/s/".to_owned()))
        .unwrap();
    assert_eq!(p.auth(), "/c/auth.json");
    assert_eq!(p.state(), "/s/active");
    assert_eq!(p.lock(), "/s/lock");
    assert_eq!(join_path("/a", "/b"), "/b");
    assert_eq!(join_path("", "b"), "b");
}

#[test]
fn the_active_profile_is_read_and_recorded() {
    assert_eq!(read_active(FileText::Text("  work\n".to_owned())), Ok(Some("work".to_owned())));
    assert_eq!(read_active(FileText::Text(" \n".to_owned())), Ok(None));
    assert_eq!(read_active(FileText::NotFound), Ok(None));
    assert_eq!(read_active(FileText::Text("../x".to_owned())), Err(NAME_RULE.to_owned()));
    assert_eq!(
        read_active(FileText::Failed("denied".to_owned())),
        Err("cannot read active profile: denied".to_owned())
    );
    match write_active(&paths(), Some("work")) {
        FileAction::Write { path, content, mode } => {
            assert_eq!(path, "/home/u/.codex-switcher/active");
            assert_eq!(content, b"work\n".to_vec());
            assert_eq!(mode, 0o600);
        }
        _ => panic!("expected a write"),
    }
    assert!(matches!(write_active(&paths(), None), FileAction::RemoveIfExists { .. }));
}

#[test]
fn saving_copies_the_login_into_the_active_profile() {
    assert_eq!(
        save_active(&paths(), Some("work".to_owned()), true),
        Some((
            "/home/u/.codex/auth.json".to_owned(),
            "/home/u/.codex-switcher/profiles/work.json".to_owned()
        ))
    );
    assert_eq!(save_active(&paths(), Some("work".to_owned()), false), None);
    assert_eq!(save_active(&paths(), None, true), None);
}

#[test]
fn file_checks_give_their_messages() {
    assert_eq!(ensure_initialized(""), Err(NOT_INITIALIZED.to_owned()));
    assert_eq!(ensure_initialized("cli_auth_credentials_store = \"file\"\n"), Ok(()));
    assert_eq!(ensure_initialized("cli_auth_credentials_store = file # plain\n"), Ok(()));
    assert!(ensure_initialized("cli_auth_credentials_store = 'file'\n").is_err());
    assert_eq!(
        validate_auth_file("/a", Metadata::File { is_file: true, len: 0 }),
        Err("/a is not a non-empty file".to_owned())
    );
    assert_eq!(validate_auth_file("/a", Metadata::File { is_file: true, len: 3 }), Ok(()));
    assert_eq!(
        validate_auth_file("/a", Metadata::Failed("gone".to_owned())),
        Err("cannot read /a: gone".to_owned())
    );
    assert_eq!(remove_if_exists("/a", RemoveOutcome::NotFound), Ok(()));
    assert_eq!(
        remove_if_exists("/a", RemoveOutcome::Failed("busy".to_owned())),
        Err("cannot remove /a: busy".to_owned())
    );
    assert_eq!(
        set_mode("/a", 0o600, Err("denied".to_owned())),
        Err("cannot secure /a: denied".to_owned())
    );
    assert_eq!(temporary_name("auth.json", 42), ".auth.json.42.tmp");
}

#[test]
fn the_lock_is_retried_until_the_attempts_run_out() {
    assert!(matches!(lock_decision(0, LockOutcome::Created), LockDecision::Acquired));
    assert!(matches!(lock_decision(18, LockOutcome::AlreadyExists), LockDecision::Retry));
    match lock_decision(19, LockOutcome::AlreadyExists) {
        LockDecision::Fail(m) => assert!(m.starts_with("another codex-switcher operation")),
        _ => panic!("expected a failure"),
    }
    match lock_decision(0, LockOutcome::Failed("denied".to_owned())) {
        LockDecision::Fail(m) => assert_eq!(m, "cannot create operation lock: denied"),
        _ => panic!("expected a failure"),
    }
}

// ---- the usage query ----

#[test]
fn query_replies_are_collected() {
    let mut q = QueryProgress::new();
    assert!(!q.is_complete());
    let account = read_message(r#"{"id":1,"result":{"account":{"type":"chatgpt","planType":"pro"}}}"#)
        .unwrap();
    assert!(q.accept(account).is_ok());
    let limits = read_message(
        r#"{"id":2,"result":{"rateLimits":{"primary":{"usedPercent":10,"windowDurationMins":300}},"rateLimitResetCredits":{"availableCount":2}}}"#,
    )
    .unwrap();
    assert!(q.accept(limits).is_ok());
    assert!(q.accept(read_message(r#"{"method":"other"}"#).unwrap()).is_ok());
    assert!(!q.is_complete());
    let usage = read_message(r#"{"id":3,"error":{"message":"nope"}}"#).unwrap();
    assert!(q.accept(usage).is_ok());
    assert!(q.is_complete());
    let u = q.finish().unwrap();
    assert_eq!(u.plan, "PRO");
    assert_eq!(u.reset_credits, Some(2));
    assert!(u.five_hours.is_some());
    assert!(u.weekly.is_none());
    assert_eq!(u.lifetime_tokens, None);
}

#[test]
fn query_errors_end_the_query() {
    let mut q = QueryProgress::new();
    let failed = read_message(r#"{"id":1,"error":{"message":"boom"}}"#).unwrap();
    assert_eq!(q.accept(failed), Err("account/read failed: boom".to_owned()));
    let empty = read_message(r#"{"id":2}"#).unwrap();
    assert_eq!(q.accept(empty), Err("account/rateLimits/read returned no result".to_owned()));
    assert_eq!(
        QueryProgress::new().finish().err(),
        Some("account query timed out".to_owned())
    );
    let mut q = QueryProgress::new();
    q.accept(read_message(r#"{"id":1,"result":{}}"#).unwrap()).unwrap();
    assert_eq!(q.finish().err(), Some("rate-limit query timed out".to_owned()));
    let unknown = read_message(r#"{"error":{}}"#).unwrap();
    assert_eq!(
        response_result(unknown, "m").err(),
        Some("m failed: unknown app-server error".to_owned())
    );
    assert!(read_message("not json").is_none());
}

#[test]
fn plans_come_from_the_limits_when_the_account_has_none() {
    let account = read_message(r#"{"account":{"type":"chatgpt"}}"#).unwrap();
    let limits = read_message(
        r#"{"rateLimitsByLimitId":{"codex":{"planType":"team","primary":{"usedPercent":5,"windowDurationMins":10080}}}}"#,
    )
    .unwrap();
    let u = parse_usage(&account, &limits);
    assert_eq!(u.plan, "TEAM");
    assert!(u.five_hours.is_none());
    assert_eq!(u.weekly.unwrap().duration_mins, 10_080);
    let none = parse_usage(&read_message("{}").unwrap(), &read_message("{}").unwrap());
    assert_eq!(none.plan, "—");
}

// ---- the text of stats and list ----

#[test]
fn dates_are_printed_from_day_numbers() {
    assert_eq!(format_date(739_861), "2026-09-02");
    assert_eq!(format_date(1), "0001-01-01");
}

#[test]
fn the_account_section_lists_every_count() {
    let mut usage = Usage::empty();
    usage.plan = "PLUS".to_owned();
    usage.lifetime_tokens = Some(1_500_000);
    usage.reset_credits = Some(0);
    let lines = account_report("work", &usage, 739_861, Some(12_345), false);
    assert_eq!(lines.len(), 10);
    assert_eq!(lines[0], "ACCOUNT STATISTICS");
    assert_eq!(lines[1], "Profile             work");
    assert_eq!(lines[2], "Plan                PLUS");
    assert_eq!(lines[3], "Lifetime tokens     1,5M");
    assert_eq!(lines[4], "Today (2026-09-02)  12,3K");
    assert_eq!(lines[5], "Daily record        —");
    assert_eq!(lines[8], "Longest streak      —");
    assert_eq!(lines[9], "Available resets    0");
    let colored = account_report("work", &Usage::unavailable(), 739_861, None, true);
    assert!(colored[9].ends_with("\x1b[2;37m—\x1b[0m"));
}

#[test]
fn limit_rows_are_aligned_and_colored_by_forecast() {
    assert_eq!(
        limit_row("5 hours", "75%", ANSI_GREEN, "2030-01-01 10:00", "1.5%/h", "lasts until reset", false),
        "5 hours    75%  2030-01-01 10:00  1.5%/h     lasts until reset"
    );
    assert_eq!(forecast_color("empty ~2030-01-01 09:00"), ANSI_RED);
    assert_eq!(forecast_color("lasts until reset"), ANSI_GREEN);
    assert_eq!(forecast_color("—"), ANSI_HINT);
}

#[test]
fn the_activity_section_has_its_title_rows_and_messages() {
    assert_eq!(activity_title(1), "ACTIVITY · LAST 1 DAY");
    assert_eq!(activity_title(30), "ACTIVITY · LAST 30 DAYS");
    assert_eq!(activity_row(739_861, 12_345, "███", false), "2026-09-02     12,3K  ███");
    assert_eq!(no_activity(true), "No activity in this period.");
    assert_eq!(no_activity(false), "No daily activity returned for this period.");
    assert_eq!(trend_text(&Trend::Flat, true), Some("trend flat".to_owned()));
    assert_eq!(trend_text(&Trend::NewActivity, true), Some("trend new activity".to_owned()));
    assert_eq!(trend_text(&Trend::Flat, false), Some("trend unavailable".to_owned()));
    assert_eq!(trend_text(&Trend::Change { current: 1, previous: 2 }, true), None);
}

#[test]
fn the_period_holds_its_buckets_in_date_order() {
    let today = 739_861;
    let usage = vec![
        DailyUsage { date: today, tokens: 5 },
        DailyUsage { date: today - 7, tokens: 1 },
        DailyUsage { date: today - 6, tokens: 9 },
        DailyUsage { date: today + 1, tokens: 3 },
    ];
    let selected = usage_for_period(&usage, today, 7);
    let dates: Vec<i32> = selected.iter().map(|d| d.date).collect();
    assert_eq!(dates, vec![today - 6, today]);
    assert_eq!(peak_tokens(&selected), 9);
    assert_eq!(peak_tokens(&Vec::new()), 0);
}

#[test]
fn an_empty_period_is_today_alone() {
    let today = 739_861;
    let usage = vec![
        DailyUsage { date: today, tokens: 5 },
        DailyUsage { date: today - 1, tokens: 4 },
        DailyUsage { date: today + 1, tokens: 3 },
    ];
    let selected = usage_for_period(&usage, today, 0);
    let dates: Vec<i32> = selected.iter().map(|d| d.date).collect();
    assert_eq!(dates, vec![today]);
    assert_eq!(usage_for_period(&usage, today, 1).len(), 1);
    assert!(period_totals_fit(&usage, today, 0));
    assert!(matches!(
        codex_switcher::activity::activity_trend(&usage, today, 0),
        Trend::Change { current: 5, previous: 4 }
    ));
}

#[test]
fn table_labels_warnings_and_rows() {
    assert_eq!(profile_label("work", Some("work")), "* work");
    assert_eq!(profile_label("work", Some("home")), "  work");
    assert_eq!(profile_label("work", None), "  work");
    assert_eq!(query_warning("work", Some("boom")), "profile 'work': boom");
    assert_eq!(query_warning("work", None), "profile 'work': usage query did not finish");
    let row: Vec<String> = ["* work", "PLUS", "75%", "—", "60%", "—"]
        .iter()
        .map(|s| s.to_string())
        .collect();
    let rows = vec![row.clone()];
    let widths = table_widths(&rows);
    assert_eq!(widths, vec![7, 4, 7, 8, 11, 12]);
    assert_eq!(headings()[4], "WEEKLY LEFT");
    let colors: Vec<String> = vec![String::new(); 6];
    assert_eq!(
        table_row(&row, &widths, false, false, &colors),
        "* work   PLUS  75%      —         60%          —"
    );
}

#[test]
fn small_formats() {
    assert_eq!(format_duration(None), "—");
    assert_eq!(format_duration(Some(59)), "59s");
    assert_eq!(format_duration(Some(61)), "1m 1s");
    assert_eq!(format_days(Some(8)), "8 days");
    assert_eq!(format_days(None), "—");
    assert_eq!(value_or_dash(""), "—");
    assert_eq!(value_or_dash("PLUS"), "PLUS");
    assert_eq!(report_line(true, "fine", false), "[ok] fine");
    assert_eq!(report_line(false, "bad", true), "\x1b[31m[!!]\x1b[0m bad");
}

#[test]
fn configuring_twice_changes_nothing() {
    let once = configure_file_credentials("model = \"gpt\"\n[t]\ncli_auth_credentials_store = \"x\"\n");
    assert_eq!(once, "cli_auth_credentials_store = \"file\"\nmodel = \"gpt\"\n[t]\ncli_auth_credentials_store = \"x\"\n");
    assert_eq!(configure_file_credentials(&once), once);
}

#[test]
fn the_recorded_active_profile_reads_back() {
    match write_active(&paths(), Some("work-2")) {
        FileAction::Write { content, .. } => {
            let text = String::from_utf8(content).unwrap();
            assert_eq!(read_active(FileText::Text(text)), Ok(Some("work-2".to_owned())));
        }
        _ => panic!("expected a write"),
    }
}

#[test]
fn profiles_stay_in_the_profile_directory() {
    let p = Paths { codex_home: "/c".to_owned(), switcher_home: "/s/".to_owned() };
    assert_eq!(p.profiles(), "/s/profiles");
    assert_eq!(p.profile("work"), "/s/profiles/work.json");
    assert!(validate_name("../work").is_err());
    assert!(validate_name("a/b").is_err());
}

#[test]
fn daily_buckets_carry_their_dates() {
    let token_usage = read_message(
        r#"{"dailyUsageBuckets":[{"startDate":"2026-09-01","tokens":5},{"startDate":"2026-02-30","tokens":7},{"tokens":9}]}"#,
    )
    .unwrap();
    let mut usage = Usage::empty();
    codex_switcher::usage::apply_token_usage(&mut usage, &token_usage);
    assert!(usage.daily_usage_available);
    assert_eq!(usage.daily_usage.len(), 1);
    assert_eq!(usage.daily_usage[0].date, 739_860);
    assert_eq!(usage.daily_usage[0].tokens, 5);
}

// ---- scripting: prompt, JSON, completion, exit codes ----

#[test]
fn the_prompt_format_prints_only_the_name() {
    let mut flow = current(false, true);
    flow.step(Outcome::Start);
    match flow.step(Outcome::Active(Ok(Some("work".to_owned())))) {
        Step::Print { line: Line::Plain { text } } => assert_eq!(text, "work\n"),
        _ => panic!("expected the name"),
    }
    let mut flow = current(false, true);
    flow.step(Outcome::Start);
    assert_eq!(finished_with(&flow.step(Outcome::Active(Ok(None)))), Some(Ok(())));
    match parse_command(&args(&["current", "--format", "prompt"])) {
        Ok(Command::Current { json, prompt }) => {
            assert!(prompt);
            assert!(!json);
        }
        _ => panic!("expected current"),
    }
    assert_eq!(
        parse_command(&args(&["current", "--format", "fancy"])).err(),
        Some("unknown format 'fancy': use text or prompt".to_owned())
    );
}

#[test]
fn json_is_asked_for_with_a_flag() {
    assert!(matches!(parse_command(&args(&["list", "--json"])), Ok(Command::List { json: true })));
    assert!(matches!(parse_command(&args(&["doctor", "--json"])), Ok(Command::Doctor { json: true })));
    assert!(matches!(
        parse_command(&args(&["stats", "work", "--json", "--period", "3d"])),
        Ok(Command::Stats { period_days: 3, json: true, .. })
    ));
    assert_eq!(
        parse_command(&args(&["list", "--format", "prompt"])).err(),
        Some("unexpected argument '--format'".to_owned())
    );
    let mut flow = current(true, false);
    flow.step(Outcome::Start);
    match flow.step(Outcome::Active(Ok(None))) {
        Step::Print { line: Line::Plain { text } } => {
            assert_eq!(text, "{\"schema_version\":1,\"active\":null}\n")
        }
        _ => panic!("expected the document"),
    }
}

#[test]
fn json_documents_escape_and_use_null() {
    assert_eq!(
        current_document(Some("a\"b\\c\n\u{1}")),
        "{\"schema_version\":1,\"active\":\"a\\\"b\\\\c\\n\\u0001\"}"
    );
    assert_eq!(
        doctor_document(true, false, true, true),
        "{\"schema_version\":1,\"healthy\":false,\"checks\":[{\"name\":\"credential_storage\",\"ok\":true},{\"name\":\"auth_file\",\"ok\":false},{\"name\":\"active_profile\",\"ok\":true},{\"name\":\"codex_executable\",\"ok\":true}]}"
    );
    let mut usage = Usage::empty();
    usage.plan = "PLUS".to_owned();
    usage.five_hours = Some(Window { used_percent_bits: 25f64.to_bits(), duration_mins: 300, resets_at: Some(0) });
    let entries = vec![ListEntry {
        name: "work".to_owned(),
        active: true,
        usage,
        error: None,
        five_hours_percent: "25.0".to_owned(),
        weekly_percent: "null".to_owned(),
    }];
    assert_eq!(
        list_document(&entries),
        "{\"schema_version\":1,\"profiles\":[{\"name\":\"work\",\"active\":true,\"plan\":\"PLUS\",\"five_hours\":{\"used_percent\":25.0,\"window_minutes\":300,\"resets_at\":\"1970-01-01T00:00:00Z\"},\"weekly\":null,\"error\":null}]}"
    );
    let mut usage = Usage::unavailable();
    usage.lifetime_tokens = Some(5);
    let days = vec![DailyUsage { date: 739_861, tokens: 7 }];
    let doc = stats_document("work", &usage, 739_861, None, 7, &days, "null", "null");
    assert!(doc.starts_with("{\"schema_version\":1,\"profile\":\"work\",\"plan\":null,\"lifetime_tokens\":5,\"today\":{\"date\":\"2026-09-02\",\"tokens\":null}"));
    assert!(doc.ends_with("\"period_days\":7,\"daily_usage_available\":false,\"activity\":[{\"date\":\"2026-09-02\",\"tokens\":7}]}"));
}

#[test]
fn doctor_in_json_mode_prints_one_document() {
    let mut flow = doctor(paths(), true);
    flow.step(Outcome::Start);
    let ok = Outcome::Text(FileText::Text("cli_auth_credentials_store = \"file\"\n".to_owned()));
    assert!(matches!(flow.step(ok), Step::CheckAuthFile { .. }));
    assert!(matches!(flow.step(done()), Step::ReadActive));
    assert!(matches!(flow.step(Outcome::Active(Ok(None))), Step::CheckCodex));
    match flow.step(Outcome::Found(true)) {
        Step::Print { line: Line::Plain { text } } => {
            assert_eq!(text, doctor_document(true, true, false, true) + "\n")
        }
        _ => panic!("expected the document"),
    }
    assert_eq!(
        finished_with(&flow.step(done())),
        Some(Err("one or more checks failed".to_owned()))
    );
}

#[test]
fn completion_offers_the_valid_profile_names() {
    let names = vec!["home".to_owned(), "bad name".to_owned(), "work".to_owned()];
    let script = completion_script(Shell::Bash, &names);
    assert!(script.contains("local profiles=\"home work\""));
    assert!(script.ends_with("complete -F _codex_switcher codex-switcher\n"));
    assert!(completion_script(Shell::Zsh, &names).contains("profiles=(home work)"));
    assert!(completion_script(Shell::Fish, &Vec::new()).ends_with("-a ''\n"));
    assert!(shell_function(Shell::Zsh).contains("codex-switcher use \"$@\""));
    assert!(shell_function(Shell::Fish).starts_with("function cs\n"));
    assert!(matches!(
        parse_command(&args(&["completion", "zsh"])),
        Ok(Command::Completion { shell: Shell::Zsh })
    ));
    assert!(matches!(
        parse_command(&args(&["shell-function", "fish"])),
        Ok(Command::ShellFunction { shell: Shell::Fish })
    ));
    assert_eq!(
        parse_command(&args(&["completion", "tcsh"])).err(),
        Some("unsupported shell 'tcsh': use zsh, bash or fish".to_owned())
    );
    assert_eq!(
        parse_command(&args(&["completion"])).err(),
        Some("missing shell name: use zsh, bash or fish".to_owned())
    );
}

#[test]
fn list_rows_follow_the_sorted_names() {
    let names = sort_names(vec!["work".to_owned(), "Home".to_owned(), "home".to_owned()]);
    assert_eq!(names, vec!["Home".to_owned(), "home".to_owned(), "work".to_owned()]);
    let mut plus = Usage::empty();
    plus.plan = "PLUS".to_owned();
    let rows = list_rows(
        &names,
        Some("work"),
        vec![Some(Ok(plus)), Some(Err("boom".to_owned())), None],
    );
    assert_eq!(rows[0].label, "  Home");
    assert_eq!(rows[0].usage.plan, "PLUS");
    assert_eq!(rows[1].usage.plan, "—");
    assert_eq!(rows[2].label, "* work");
    assert!(rows[2].active);
    assert_eq!(
        list_warnings(&rows),
        vec![
            "profile 'home': boom".to_owned(),
            "profile 'work': usage query did not finish".to_owned()
        ]
    );
}

#[test]
fn failures_have_stable_exit_codes() {
    assert_eq!(exit_code(&Ok(()), false), 0);
    assert_eq!(exit_code(&Err("disk full".to_owned()), false), 1);
    assert_eq!(exit_code(&Err("unexpected argument 'x'".to_owned()), true), 2);
    assert_eq!(exit_code(&Err(NAME_RULE.to_owned()), false), 2);
    assert_eq!(exit_code(&Err(NOT_INITIALIZED.to_owned()), false), 3);
    assert_eq!(exit_code(&Err("profile 'work' does not exist".to_owned()), false), 4);
    assert_eq!(exit_code(&Err("account/read failed: nope".to_owned()), false), 5);
    assert_eq!(exit_code(&Err("account query timed out".to_owned()), false), 6);
    assert_eq!(
        exit_code(
            &Err("another codex-switcher operation is running (remove ~/.codex-switcher/lock if it is stale)".to_owned()),
            false
        ),
        7
    );
}

#[test]
fn buckets_need_a_date_and_a_count() {
    assert!(bucket_from(Some(3), None).is_none());
    assert!(bucket_from(None, Some(3)).is_none());
    let b = bucket_from(Some(739_861), Some(9)).unwrap();
    assert_eq!((b.date, b.tokens), (739_861, 9));
    let big = vec![
        DailyUsage { date: 739_861, tokens: u64::MAX },
        DailyUsage { date: 739_860, tokens: 1 },
        DailyUsage { date: 739_000, tokens: u64::MAX },
    ];
    assert!(!period_totals_fit(&big, 739_861, 7));
    assert!(period_totals_fit(&big[..1].to_vec(), 739_861, 7));
}

#[test]
fn the_stats_report_puts_its_sections_in_order() {
    let cells = |left: &str| LimitCells {
        left: left.to_owned(),
        left_color: "\x1b[32m".to_owned(),
        reset: "—".to_owned(),
        pace: "—".to_owned(),
        forecast: "—".to_owned(),
    };
    let mut usage = Usage::empty();
    usage.daily_usage_available = true;
    let today = 739_861;
    let selected = vec![DailyUsage { date: today - 1, tokens: 10 }, DailyUsage { date: today, tokens: 20 }];
    let bars = vec!["█".repeat(10), "█".repeat(20)];
    let trend = Trend::Change { current: 30, previous: 20 };
    let lines = stats_lines(
        "work", &usage, today, Some(20), &cells("75%"), &cells("60%"), 7, &trend,
        "trend +50% vs previous period", &selected, &bars, false,
    );
    let account = account_report("work", &usage, today, Some(20), false);
    assert_eq!(lines.len(), 1 + account.len() + 7 + 2 + 1);
    assert_eq!(lines[0], "");
    assert_eq!(&lines[1..11], &account[..]);
    assert_eq!(lines[11], "");
    assert_eq!(lines[12], "LIMITS");
    assert_eq!(lines[14], limit_row("5 hours", "75%", "\x1b[32m", "—", "—", "—", false));
    assert_eq!(lines[15], limit_row("Weekly", "60%", "\x1b[32m", "—", "—", "—", false));
    assert_eq!(lines[16], "");
    assert_eq!(lines[17], "ACTIVITY · LAST 7 DAYS · trend +50% vs previous period");
    assert_eq!(lines[18], activity_row(today - 1, 10, &bars[0], false));
    assert_eq!(lines[19], activity_row(today, 20, &bars[1], false));
    assert_eq!(lines[20], "");

    usage.daily_usage_available = false;
    let none = stats_lines(
        "work", &usage, today, None, &cells("—"), &cells("—"), 1, &Trend::Flat, "", &Vec::new(),
        &Vec::new(), false,
    );
    assert_eq!(none[17], "ACTIVITY · LAST 1 DAY · trend unavailable");
    assert_eq!(none[18], "No daily activity returned for this period.");
    assert_eq!(none.len(), 20);
}
