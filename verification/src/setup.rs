//! `init`, which selects file-based credential storage in Codex's
//! configuration, and `doctor`, which checks the setup.
use vstd::prelude::*;
use crate::commands::{FINISHED, failure};
use crate::config::{configure_file_credentials, configured, file_credentials, has_file_credentials, law_configured_selects_file};
use crate::flow::{
    Line, LineView, Outcome, OutcomeView, Step, StepView, exchange, lemma_run_at, reports, run,
    state_at,
};
use crate::paths::{Paths, PathsView, auth_path, backup_path, config_path, profile_path, profiles_path};
use crate::storage::FileText;
use crate::style::{ANSI_GREEN, ANSI_HINT};
use crate::document::doctor_json;
use crate::document::doctor_document;
use crate::text::{append_str, str_eq};

verus! {

/// Where `init` stands: its stage, and the configuration text it read.
pub struct InitState {
    pub stage: nat,
    pub config_text: Seq<char>,
}

/// What reading the configuration gave: its text, the empty text when the
/// file is missing, nothing when the read failed.
pub open spec fn config_read(o: OutcomeView) -> Option<Seq<char>> {
    match o {
        OutcomeView::Text(Some(t), None) => Some(t),
        OutcomeView::Text(None, None) => Some(Seq::empty()),
        _ => None,
    }
}

/// A line printed in a color.
pub open spec fn styled_step(message: Seq<char>, color: Seq<char>) -> StepView {
    StepView::Print { line: LineView::Styled { message, color } }
}

/// `"cannot read <config>: <error>"`.
pub open spec fn config_unreadable_message(p: PathsView, error: Seq<char>) -> Seq<char> {
    "cannot read "@ + config_path(p) + ": "@ + error
}

/// The transitions of `init`: take the lock, create Codex's directory and
/// the profile directory, read the configuration (a missing file reads as
/// empty) and select file-based credentials in it. When that changes the
/// text, back up the text read, when not empty, unless a backup exists, write the
/// new text and say where; otherwise say nothing needed changing. Then
/// give the next command to run.
#[verifier::opaque]
pub open spec fn init_next(p: PathsView, s: InitState, o: OutcomeView) -> (InitState, StepView) {
    let stop = |r: Result<(), Seq<char>>| (
        InitState { stage: FINISHED as nat, ..s },
        StepView::Finish { result: r },
    );
    let write_config = StepView::WriteFile {
        path: config_path(p),
        content: configured(s.config_text),
    };
    if s.stage == 0 {
        (InitState { stage: 1, ..s }, StepView::AcquireLock)
    } else if s.stage == 1 {
        match failure(o) {
            Some(e) => stop(Err(e)),
            None => (InitState { stage: 2, ..s }, StepView::SecureDir { path: p.codex_home }),
        }
    } else if s.stage == 2 {
        match failure(o) {
            Some(e) => stop(Err(e)),
            None => (InitState { stage: 3, ..s }, StepView::SecureDir { path: profiles_path(p) }),
        }
    } else if s.stage == 3 {
        match failure(o) {
            Some(e) => stop(Err(e)),
            None => (InitState { stage: 4, ..s }, StepView::ReadConfig),
        }
    } else if s.stage == 4 {
        match o {
            OutcomeView::Text(_, Some(e)) => stop(Err(config_unreadable_message(p, e))),
            _ => {
                let config_text = match config_read(o) {
                    Some(t) => t,
                    None => Seq::empty(),
                };
                let t = InitState { stage: 0, config_text };
                if configured(config_text) != config_text {
                    if config_text.len() > 0 {
                        (InitState { stage: 5, ..t }, StepView::PathExists { path: backup_path(p) })
                    } else {
                        (
                            InitState { stage: 6, ..t },
                            StepView::WriteFile {
                                path: config_path(p),
                                content: configured(config_text),
                            },
                        )
                    }
                } else {
                    (
                        InitState { stage: 7, ..t },
                        styled_step(
                            "File-based Codex credentials are already configured."@,
                            ANSI_GREEN@,
                        ),
                    )
                }
            },
        }
    } else if s.stage == 5 {
        if o == OutcomeView::Found(true) {
            (InitState { stage: 6, ..s }, write_config)
        } else {
            (
                InitState { stage: 9, ..s },
                StepView::WriteFile { path: backup_path(p), content: s.config_text },
            )
        }
    } else if s.stage == 9 {
        match failure(o) {
            Some(e) => stop(Err(e)),
            None => (InitState { stage: 6, ..s }, write_config),
        }
    } else if s.stage == 6 {
        match failure(o) {
            Some(e) => stop(Err(e)),
            None => (
                InitState { stage: 8, ..s },
                styled_step(
                    "Configured file-based Codex credentials in "@ + config_path(p) + "."@,
                    ANSI_GREEN@,
                ),
            ),
        }
    } else if s.stage == 7 || s.stage == 8 {
        (
            InitState { stage: 10, ..s },
            styled_step("Next: codex-switcher add personal"@, ANSI_HINT@),
        )
    } else {
        stop(Ok(()))
    }
}

/// `init`: select file-based credential storage and create the profile
/// directory.
pub struct InitFlow {
    pub paths: Paths,
    pub stage: u32,
    pub config_text: String,
}

fn styled(message: String, color: &str) -> (r: Step)
    ensures
        r@ == styled_step(message@, color@),
{
    Step::Print { line: Line::Styled { message, color: color.to_owned() } }
}

impl InitFlow {
    /// The state of `init` as the transitions see it.
    pub open spec fn state(&self) -> InitState {
        InitState { stage: self.stage as nat, config_text: self.config_text@ }
    }

    /// The next step, given what the last one gave.
    pub fn step(&mut self, outcome: Outcome) -> (r: Step)
        ensures
            (final(self).state(), r@) == init_next(old(self).paths@, old(self).state(), outcome@),
            final(self).paths == old(self).paths,
    {
        proof {
            reveal(init_next);
        }
        if self.stage == 0 {
            self.stage = 1;
            Step::AcquireLock
        } else if self.stage == 1 || self.stage == 2 || self.stage == 3 {
            match outcome {
                Outcome::Done(Err(e)) => {
                    self.stage = FINISHED;
                    Step::Finish { result: Err(e) }
                },
                _ => if self.stage == 1 {
                    self.stage = 2;
                    Step::SecureDir { path: self.paths.codex_home.clone() }
                } else if self.stage == 2 {
                    self.stage = 3;
                    Step::SecureDir { path: self.paths.profiles() }
                } else {
                    self.stage = 4;
                    Step::ReadConfig
                },
            }
        } else if self.stage == 4 {
            match outcome {
                Outcome::Text(FileText::Failed(e)) => {
                    let mut m = String::from_str("cannot read ");
                    append_str(&mut m, self.paths.config().as_str());
                    append_str(&mut m, ": ");
                    append_str(&mut m, e.as_str());
                    self.stage = FINISHED;
                    Step::Finish { result: Err(m) }
                },
                _ => {
                    self.config_text = match outcome {
                        Outcome::Text(FileText::Text(t)) => t,
                        _ => String::new(),
                    };
                    let updated = configure_file_credentials(self.config_text.as_str());
                    if !str_eq(updated.as_str(), self.config_text.as_str()) {
                        if self.config_text.unicode_len() > 0 {
                            self.stage = 5;
                            Step::PathExists { path: self.paths.backup() }
                        } else {
                            self.stage = 6;
                            Step::WriteFile { path: self.paths.config(), content: updated }
                        }
                    } else {
                        self.stage = 7;
                        styled(
                            String::from_str("File-based Codex credentials are already configured."),
                            ANSI_GREEN,
                        )
                    }
                },
            }
        } else if self.stage == 5 {
            match outcome {
                Outcome::Found(true) => {
                    self.stage = 6;
                    Step::WriteFile {
                        path: self.paths.config(),
                        content: configure_file_credentials(self.config_text.as_str()),
                    }
                },
                _ => {
                    self.stage = 9;
                    Step::WriteFile { path: self.paths.backup(), content: self.config_text.clone() }
                },
            }
        } else if self.stage == 9 || self.stage == 6 {
            match outcome {
                Outcome::Done(Err(e)) => {
                    self.stage = FINISHED;
                    Step::Finish { result: Err(e) }
                },
                _ => if self.stage == 9 {
                    self.stage = 6;
                    Step::WriteFile {
                        path: self.paths.config(),
                        content: configure_file_credentials(self.config_text.as_str()),
                    }
                } else {
                    let mut m = String::from_str("Configured file-based Codex credentials in ");
                    append_str(&mut m, self.paths.config().as_str());
                    append_str(&mut m, ".");
                    self.stage = 8;
                    styled(m, ANSI_GREEN)
                },
            }
        } else if self.stage == 7 || self.stage == 8 {
            self.stage = 10;
            styled(String::from_str("Next: codex-switcher add personal"), ANSI_HINT)
        } else {
            self.stage = FINISHED;
            Step::Finish { result: Ok(()) }
        }
    }
}

/// `init`: the machine that selects file-based credential storage.
pub fn initialize(paths: Paths) -> (r: InitFlow)
    ensures
        r.paths == paths,
        r.state() == init_start(),
{
    InitFlow { paths, stage: 0, config_text: String::new() }
}

/// Where `doctor` stands: its stage, and the checks done so far, in order
/// (whether each passed).
pub struct DoctorState {
    pub stage: nat,
    pub checks: Seq<bool>,
}

/// A line of `doctor`'s report.
pub open spec fn report_step(ok: bool, message: Seq<char>) -> StepView {
    StepView::Print { line: LineView::Report { ok, message } }
}

/// Text printed as it is.
pub open spec fn plain_step(text: Seq<char>) -> StepView {
    StepView::Print { line: LineView::Plain { text } }
}

/// The text of a read that may have failed, empty when it failed.
pub open spec fn text_or_empty(o: OutcomeView) -> Seq<char> {
    match o {
        OutcomeView::Text(Some(t), _) => t,
        _ => Seq::empty(),
    }
}

/// Every check passed.
pub open spec fn all_passed(checks: Seq<bool>) -> bool {
    forall|k: int| 0 <= k < checks.len() ==> #[trigger] checks[k]
}

/// Check `k`, or `false` where there is none.
pub open spec fn check_at(checks: Seq<bool>, k: int) -> bool {
    0 <= k < checks.len() && checks[k]
}

/// The JSON document of four checks, with its line break.
pub open spec fn doctor_output(checks: Seq<bool>) -> Seq<char> {
    doctor_json(check_at(checks, 0), check_at(checks, 1), check_at(checks, 2), check_at(checks, 3))
        + "\n"@
}

/// `"one or more checks failed"`.
pub const CHECKS_FAILED: &'static str = "one or more checks failed";

pub const CONFIG_CHECK: &'static str = "credential storage is set to 'file'";

pub const AUTH_CHECK: &'static str = "active auth.json exists and is non-empty";

pub const PROFILE_CHECK: &'static str = "active profile points to a valid saved login";

pub const CODEX_CHECK: &'static str = "codex executable is available";

/// A check that gave `ok`: in text mode its report line, then the stage
/// `text_stage`; in JSON mode no line, but the next action `json_step` at
/// stage `json_stage`.
pub open spec fn checked(
    s: DoctorState,
    json: bool,
    ok: bool,
    message: Seq<char>,
    text_stage: nat,
    json_stage: nat,
    json_step: StepView,
) -> (DoctorState, StepView) {
    if json {
        (DoctorState { stage: json_stage, checks: s.checks.push(ok) }, json_step)
    } else {
        (DoctorState { stage: text_stage, checks: s.checks.push(ok) }, report_step(ok, message))
    }
}

/// The transitions of `doctor`: check whether the configuration selects
/// file-based credentials, whether Codex's authentication cache is a
/// non-empty file, whether the active profile holds a saved login, and
/// whether `codex --version` runs. In text mode each check is reported as
/// it is done; with `--json` one document gives all four at the end.
/// Succeed when all four hold.
#[verifier::opaque]
pub open spec fn doctor_next(p: PathsView, json: bool, s: DoctorState, o: OutcomeView) -> (
    DoctorState,
    StepView,
) {
    let stop = |r: Result<(), Seq<char>>| (
        DoctorState { stage: FINISHED as nat, ..s },
        StepView::Finish { result: r },
    );
    if s.stage == 0 {
        (DoctorState { stage: 1, ..s }, StepView::ReadConfig)
    } else if s.stage == 1 {
        checked(
            s,
            json,
            file_credentials(text_or_empty(o)),
            CONFIG_CHECK@,
            2,
            3,
            StepView::CheckAuthFile { path: auth_path(p) },
        )
    } else if s.stage == 2 {
        (DoctorState { stage: 3, ..s }, StepView::CheckAuthFile { path: auth_path(p) })
    } else if s.stage == 3 {
        checked(s, json, failure(o) is None, AUTH_CHECK@, 4, 5, StepView::ReadActive)
    } else if s.stage == 4 {
        (DoctorState { stage: 5, ..s }, StepView::ReadActive)
    } else if s.stage == 5 {
        match o {
            OutcomeView::Active(Err(e)) => stop(Err(e)),
            OutcomeView::Active(Ok(Some(a))) => (
                DoctorState { stage: 6, ..s },
                StepView::CheckAuthFile { path: profile_path(p, a) },
            ),
            _ => checked(s, json, false, PROFILE_CHECK@, 7, 8, StepView::CheckCodex),
        }
    } else if s.stage == 6 {
        checked(s, json, failure(o) is None, PROFILE_CHECK@, 7, 8, StepView::CheckCodex)
    } else if s.stage == 7 {
        (DoctorState { stage: 8, ..s }, StepView::CheckCodex)
    } else if s.stage == 8 {
        let checks = s.checks.push(o == OutcomeView::Found(true));
        if json {
            (DoctorState { stage: 11, checks }, plain_step(doctor_output(checks)))
        } else {
            (
                DoctorState { stage: 9, checks },
                report_step(o == OutcomeView::Found(true), CODEX_CHECK@),
            )
        }
    } else if s.stage == 9 {
        if all_passed(s.checks) {
            (DoctorState { stage: 10, ..s }, styled_step("Everything looks good."@, ANSI_GREEN@))
        } else {
            stop(Err(CHECKS_FAILED@))
        }
    } else if s.stage == 11 {
        if all_passed(s.checks) {
            stop(Ok(()))
        } else {
            stop(Err(CHECKS_FAILED@))
        }
    } else {
        stop(Ok(()))
    }
}

/// `doctor [--json]`: check the local setup.
pub struct DoctorFlow {
    pub paths: Paths,
    pub json: bool,
    pub stage: u32,
    pub checks: Vec<bool>,
}

fn report(ok: bool, message: &str) -> (r: Step)
    ensures
        r@ == report_step(ok, message@),
{
    Step::Print { line: Line::Report { ok, message: message.to_owned() } }
}

fn all_true(checks: &Vec<bool>) -> (r: bool)
    ensures
        r == all_passed(checks@),
{
    let mut i: usize = 0;
    while i < checks.len()
        invariant
            i <= checks@.len(),
            forall|k: int| 0 <= k < i ==> #[trigger] checks@[k],
        decreases checks@.len() - i,
    {
        if !checks[i] {
            return false;
        }
        i = i + 1;
    }
    true
}

fn check_of(checks: &Vec<bool>, k: usize) -> (r: bool)
    ensures
        r == check_at(checks@, k as int),
{
    k < checks.len() && checks[k]
}

impl DoctorFlow {
    /// The state of `doctor` as the transitions see it.
    pub open spec fn state(&self) -> DoctorState {
        DoctorState { stage: self.stage as nat, checks: self.checks@ }
    }

    /// Records a check and gives its report line, or, in JSON mode, the
    /// next action.
    fn record(&mut self, ok: bool, message: &str, text_stage: u32, json_stage: u32, json_step: Step) -> (r:
        Step)
        ensures
            (final(self).state(), r@) == checked(
                old(self).state(),
                old(self).json,
                ok,
                message@,
                text_stage as nat,
                json_stage as nat,
                json_step@,
            ),
            final(self).paths == old(self).paths,
            final(self).json == old(self).json,
    {
        self.checks.push(ok);
        if self.json {
            self.stage = json_stage;
            json_step
        } else {
            self.stage = text_stage;
            report(ok, message)
        }
    }

    /// The next step, given what the last one gave.
    pub fn step(&mut self, outcome: Outcome) -> (r: Step)
        ensures
            (final(self).state(), r@) == doctor_next(
                old(self).paths@,
                old(self).json,
                old(self).state(),
                outcome@,
            ),
            final(self).paths == old(self).paths,
            final(self).json == old(self).json,
    {
        proof {
            reveal(doctor_next);
        }
        if self.stage == 0 {
            self.stage = 1;
            Step::ReadConfig
        } else if self.stage == 1 {
            let ok = match &outcome {
                Outcome::Text(FileText::Text(t)) => has_file_credentials(t.as_str()),
                _ => {
                    proof {
                        reveal_strlit("");
                    }
                    has_file_credentials("")
                },
            };
            let next = Step::CheckAuthFile { path: self.paths.auth() };
            self.record(ok, CONFIG_CHECK, 2, 3, next)
        } else if self.stage == 2 {
            self.stage = 3;
            Step::CheckAuthFile { path: self.paths.auth() }
        } else if self.stage == 3 || self.stage == 6 {
            let ok = match outcome {
                Outcome::Done(Err(_)) => false,
                _ => true,
            };
            if self.stage == 3 {
                self.record(ok, AUTH_CHECK, 4, 5, Step::ReadActive)
            } else {
                self.record(ok, PROFILE_CHECK, 7, 8, Step::CheckCodex)
            }
        } else if self.stage == 4 {
            self.stage = 5;
            Step::ReadActive
        } else if self.stage == 5 {
            match outcome {
                Outcome::Active(Err(e)) => {
                    self.stage = FINISHED;
                    Step::Finish { result: Err(e) }
                },
                Outcome::Active(Ok(Some(a))) => {
                    self.stage = 6;
                    Step::CheckAuthFile { path: self.paths.profile(a.as_str()) }
                },
                _ => self.record(false, PROFILE_CHECK, 7, 8, Step::CheckCodex),
            }
        } else if self.stage == 7 {
            self.stage = 8;
            Step::CheckCodex
        } else if self.stage == 8 {
            let ok = match outcome {
                Outcome::Found(true) => true,
                _ => false,
            };
            self.checks.push(ok);
            if self.json {
                self.stage = 11;
                let mut text = doctor_document(
                    check_of(&self.checks, 0),
                    check_of(&self.checks, 1),
                    check_of(&self.checks, 2),
                    check_of(&self.checks, 3),
                );
                append_str(&mut text, "\n");
                Step::Print { line: Line::Plain { text } }
            } else {
                self.stage = 9;
                report(ok, CODEX_CHECK)
            }
        } else if self.stage == 9 {
            if all_true(&self.checks) {
                self.stage = 10;
                styled(String::from_str("Everything looks good."), ANSI_GREEN)
            } else {
                self.stage = FINISHED;
                Step::Finish { result: Err(CHECKS_FAILED.to_owned()) }
            }
        } else if self.stage == 11 {
            let passed = all_true(&self.checks);
            self.stage = FINISHED;
            if passed {
                Step::Finish { result: Ok(()) }
            } else {
                Step::Finish { result: Err(CHECKS_FAILED.to_owned()) }
            }
        } else {
            self.stage = FINISHED;
            Step::Finish { result: Ok(()) }
        }
    }
}

/// `doctor [--json]`: the machine that checks the local setup.
pub fn doctor(paths: Paths, json: bool) -> (r: DoctorFlow)
    ensures
        r.paths == paths,
        r.json == json,
        r.state() == doctor_start(),
{
    DoctorFlow { paths, json, stage: 0, checks: Vec::new() }
}

/// The machine of `doctor`.
pub open spec fn doctor_machine(p: PathsView, json: bool) -> spec_fn(DoctorState, OutcomeView) -> (
    DoctorState,
    StepView,
) {
    |s: DoctorState, o: OutcomeView| doctor_next(p, json, s, o)
}

/// The state `doctor` starts in.
pub open spec fn doctor_start() -> DoctorState {
    DoctorState { stage: 0, checks: Seq::empty() }
}

/// How many checks are done at a stage.
pub open spec fn checks_done(stage: nat) -> nat {
    if stage <= 1 {
        0
    } else if stage <= 3 {
        1
    } else if stage <= 6 {
        2
    } else if stage <= 8 {
        3
    } else if stage <= 11 {
        4
    } else {
        0
    }
}

proof fn lemma_doctor_next_facts(p: PathsView, json: bool, s: DoctorState, o: OutcomeView)
    ensures
        ({
            let (t, step) = doctor_next(p, json, s, o);
            &&& (s.checks.len() == checks_done(s.stage) && t.stage != FINISHED) ==> t.checks.len()
                == checks_done(t.stage)
            &&& step == (StepView::Finish { result: Ok(()) }) ==> s.stage >= 10 && (s.stage == 11
                ==> all_passed(s.checks))
            &&& t.stage == 10 ==> all_passed(t.checks)
            &&& t.stage >= 12 ==> t.stage == FINISHED && step is Finish
            &&& s.stage == 0 ==> step == StepView::ReadConfig
        }),
{
    reveal(doctor_next);
}

proof fn lemma_doctor_count(p: PathsView, json: bool, outcomes: Seq<OutcomeView>, n: int)
    requires
        0 <= n <= outcomes.len(),
    ensures
        ({
            let t = state_at(doctor_machine(p, json), doctor_start(), outcomes, n);
            t.stage != FINISHED ==> t.checks.len() == checks_done(t.stage)
        }),
    decreases n,
{
    let m = doctor_machine(p, json);
    if n > 0 {
        lemma_doctor_count(p, json, outcomes, n - 1);
        lemma_run_at(m, doctor_start(), outcomes, n - 1);
        let s = state_at(m, doctor_start(), outcomes, n - 1);
        lemma_doctor_next_facts(p, json, s, outcomes[n - 1]);
        if s.stage == FINISHED {
            reveal(doctor_next);
        }
    } else {
        assert(outcomes.take(0).len() == 0);
    }
}

/// `doctor` succeeds only when all four checks were done and passed: in
/// every run of the command, in text or JSON mode, a successful finish
/// comes in a state that holds four checks, all passed.
pub proof fn law_doctor_succeeds_only_when_healthy(p: PathsView, json: bool, outcomes: Seq<OutcomeView>)
    requires
        exchange(doctor_machine(p, json), doctor_start(), outcomes),
    ensures
        forall|i: int|
            0 <= i < outcomes.len() && #[trigger] run(doctor_machine(p, json), doctor_start(), outcomes).1[i]
                == (StepView::Finish { result: Ok(()) }) ==> ({
                let s = state_at(doctor_machine(p, json), doctor_start(), outcomes, i);
                s.checks.len() == 4 && all_passed(s.checks)
            }),
{
    let m = doctor_machine(p, json);
    let start = doctor_start();
    let steps = run(m, start, outcomes).1;
    assert forall|i: int|
        0 <= i < outcomes.len() && #[trigger] steps[i] == (StepView::Finish {
            result: Ok(()),
        }) implies ({
        let s = state_at(m, start, outcomes, i);
        s.checks.len() == 4 && all_passed(s.checks)
    }) by {
        lemma_run_at(m, start, outcomes, i);
        let s = state_at(m, start, outcomes, i);
        lemma_doctor_next_facts(p, json, s, outcomes[i]);
        assert(i > 0);
        lemma_run_at(m, start, outcomes, i - 1);
        lemma_doctor_next_facts(p, json, state_at(m, start, outcomes, i - 1), outcomes[i - 1]);
        assert(outcomes[i].kind() == reports(steps[i - 1]));
        assert(!(steps[i - 1] is Finish));
        lemma_doctor_count(p, json, outcomes, i);
    }
}

/// The machine of `init`.
pub open spec fn init_machine(p: PathsView) -> spec_fn(InitState, OutcomeView) -> (
    InitState,
    StepView,
) {
    |s: InitState, o: OutcomeView| init_next(p, s, o)
}

/// The state `init` starts in.
pub open spec fn init_start() -> InitState {
    InitState { stage: 0, config_text: Seq::empty() }
}

/// At index `k` the command read the configuration, which gave `text`.
pub open spec fn config_read_at(
    steps: Seq<StepView>,
    outcomes: Seq<OutcomeView>,
    k: int,
    text: Seq<char>,
) -> bool {
    &&& 0 <= k
    &&& k + 1 < outcomes.len()
    &&& steps[k] == StepView::ReadConfig
    &&& config_read(outcomes[k + 1]) == Some(text)
}

proof fn lemma_init_next_facts(p: PathsView, s: InitState, o: OutcomeView)
    ensures
        ({
            let (t, step) = init_next(p, s, o);
            &&& t.stage == 4 ==> step == StepView::ReadConfig
            &&& (s.stage == 4 && o is Text && t.stage != FINISHED) ==> config_read(o) == Some(t.config_text)
            &&& t.stage == 5 ==> s.stage == 4 && t.config_text.len() > 0 && step == (
            StepView::PathExists { path: backup_path(p) })
            &&& t.stage == 9 ==> s.stage == 5 && t.config_text == s.config_text
            &&& step is WriteFile ==> (t.stage == 6 || t.stage == 9)
            &&& step is WriteFile ==> (s.stage == 4 || s.stage == 5 || s.stage == 9) && (s.stage
                != 4 ==> t.config_text == s.config_text) && (step == (StepView::WriteFile {
                path: config_path(p),
                content: configured(t.config_text),
            }) || (s.stage == 5 && o != OutcomeView::Found(true) && step == (StepView::WriteFile {
                path: backup_path(p),
                content: s.config_text,
            })))
        }),
{
    reveal(init_next);
}

proof fn lemma_init_history(p: PathsView, outcomes: Seq<OutcomeView>, n: int)
    requires
        exchange(init_machine(p), init_start(), outcomes),
        0 <= n <= outcomes.len(),
    ensures
        ({
            let t = state_at(init_machine(p), init_start(), outcomes, n);
            (t.stage == 5 || t.stage == 9) ==> exists|k: int|
                k + 1 < n && #[trigger] config_read_at(
                    run(init_machine(p), init_start(), outcomes).1,
                    outcomes,
                    k,
                    t.config_text,
                )
        }),
    decreases n,
{
    let m = init_machine(p);
    let start = init_start();
    let steps = run(m, start, outcomes).1;
    if n > 0 {
        lemma_init_history(p, outcomes, n - 1);
        lemma_run_at(m, start, outcomes, n - 1);
        let s = state_at(m, start, outcomes, n - 1);
        let t = state_at(m, start, outcomes, n);
        lemma_init_next_facts(p, s, outcomes[n - 1]);
        if t.stage == 5 {
            assert(n - 1 > 0);
            lemma_run_at(m, start, outcomes, n - 2);
            lemma_init_next_facts(p, state_at(m, start, outcomes, n - 2), outcomes[n - 2]);
            assert(outcomes[n - 1].kind() == reports(steps[n - 2]));
            assert(config_read_at(steps, outcomes, n - 2, t.config_text));
        } else if t.stage == 9 {
            let k = choose|k: int| k + 1 < n - 1 && #[trigger] config_read_at(steps, outcomes, k, s.config_text);
            assert(config_read_at(steps, outcomes, k, t.config_text));
        }
    } else {
        assert(outcomes.take(0).len() == 0);
    }
}

/// The files `init` writes, in one run of the command: a write at index
/// `i` either replaces the configuration with the text read at some
/// earlier index with file-based credentials selected, or writes a backup
/// of a non-empty text read earlier, right after a check found that no
/// backup exists.
pub open spec fn init_write_ok(
    p: PathsView,
    steps: Seq<StepView>,
    outcomes: Seq<OutcomeView>,
    i: int,
) -> bool {
    exists|k: int, t: Seq<char>|
        k < i && #[trigger] config_read_at(steps, outcomes, k, t) && ({
            ||| steps[i] == (StepView::WriteFile { path: config_path(p), content: configured(t) })
                && file_credentials(configured(t))
            ||| steps[i] == (StepView::WriteFile { path: backup_path(p), content: t }) && t.len()
                > 0 && steps[i - 1] == (StepView::PathExists { path: backup_path(p) }) && outcomes[i]
                == OutcomeView::Found(false)
        })
}

/// `init` writes only what it read: every file it writes is either the
/// configuration it read with file-based credentials selected, or a
/// backup of that configuration, written only when the configuration is
/// not empty and no backup exists yet, so an earlier backup is never
/// replaced.
pub proof fn law_init_writes_what_it_read(p: PathsView, outcomes: Seq<OutcomeView>)
    requires
        exchange(init_machine(p), init_start(), outcomes),
    ensures
        forall|i: int|
            0 <= i < outcomes.len() && (#[trigger] run(init_machine(p), init_start(), outcomes).1[i]
                is WriteFile) ==> init_write_ok(
                p,
                run(init_machine(p), init_start(), outcomes).1,
                outcomes,
                i,
            ),
{
    let m = init_machine(p);
    let start = init_start();
    let steps = run(m, start, outcomes).1;
    assert forall|i: int| 0 <= i < outcomes.len() && (#[trigger] steps[i] is WriteFile) implies init_write_ok(
        p,
        steps,
        outcomes,
        i,
    ) by {
        lemma_run_at(m, start, outcomes, i);
        let s = state_at(m, start, outcomes, i);
        let t = state_at(m, start, outcomes, i + 1);
        lemma_init_next_facts(p, s, outcomes[i]);
        assert(i > 0);
        lemma_run_at(m, start, outcomes, i - 1);
        lemma_init_next_facts(p, state_at(m, start, outcomes, i - 1), outcomes[i - 1]);
        assert(outcomes[i].kind() == reports(steps[i - 1]));
        lemma_init_history(p, outcomes, i);
        law_configured_selects_file(t.config_text);
        law_configured_selects_file(s.config_text);
        if s.stage == 4 {
            assert(config_read_at(steps, outcomes, i - 1, t.config_text));
        } else {
            let k = choose|k: int| k + 1 < i && #[trigger] config_read_at(steps, outcomes, k, s.config_text);
            assert(config_read_at(steps, outcomes, k, s.config_text));
        }
    }
}

} // verus!
