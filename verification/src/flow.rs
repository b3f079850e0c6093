//! The steps of the commands that touch the tool's files. Each command is a
//! machine: given what the last step gave, it names the next step. The
//! caller performs the steps (file access, the lock, printing) and reports
//! back, until the machine finishes with the command's result.
use vstd::prelude::*;

verus! {

/// A line the command prints on standard output.
#[allow(inconsistent_fields)]
pub enum Line {
    /// `<prefix>'<name>'<suffix>` in a color, the name in gold.
    Status { prefix: String, name: String, suffix: String, color: String },
    /// The two lines after switching to a profile.
    Confirmation { name: String },
    /// A message in a color.
    Styled { message: String, color: String },
    /// A line of `doctor`'s report.
    Report { ok: bool, message: String },
    /// Text printed as it is, without color and without an added line
    /// break.
    Plain { text: String },
}

#[allow(inconsistent_fields)]
pub enum LineView {
    Status { prefix: Seq<char>, name: Seq<char>, suffix: Seq<char>, color: Seq<char> },
    Confirmation { name: Seq<char> },
    Styled { message: Seq<char>, color: Seq<char> },
    Report { ok: bool, message: Seq<char> },
    Plain { text: Seq<char> },
}

impl View for Line {
    type V = LineView;

    open spec fn view(&self) -> LineView {
        match self {
            Line::Status { prefix, name, suffix, color } => LineView::Status {
                prefix: prefix@,
                name: name@,
                suffix: suffix@,
                color: color@,
            },
            Line::Confirmation { name } => LineView::Confirmation { name: name@ },
            Line::Styled { message, color } => LineView::Styled { message: message@, color: color@ },
            Line::Report { ok, message } => LineView::Report { ok: *ok, message: message@ },
            Line::Plain { text } => LineView::Plain { text: text@ },
        }
    }
}

/// A step for the caller to perform, and the outcome it reports back.
#[allow(inconsistent_fields)]
pub enum Step {
    /// Take the operation lock (held until the command ends). Reports `Done`.
    AcquireLock,
    /// Check that `init` has run and create the profile directory. Reports `Done`.
    EnsureInitialized,
    /// Create a directory with owner-only permissions. Reports `Done`.
    SecureDir { path: String },
    /// Read Codex's configuration file. Reports `Text`.
    ReadConfig,
    /// Check that a file is a non-empty regular file. Reports `Done`.
    CheckAuthFile { path: String },
    /// Check whether a path exists. Reports `Found`.
    PathExists { path: String },
    /// Read the active profile. Reports `Active`.
    ReadActive,
    /// Save the current login into the active profile. Reports `Done`.
    SaveActive,
    /// Copy a file, owner-only, replacing the destination atomically. Reports `Done`.
    Copy { from: String, to: String },
    /// Replace a file atomically with a text, owner-only. Reports `Done`.
    WriteFile { path: String, content: String },
    /// Record the active profile (none: remove the record). Reports `Done`.
    WriteActive { name: Option<String> },
    /// Read the bytes of the authentication cache, if it can be read. Reports `Content`.
    ReadAuth,
    /// Remove the authentication cache if it is there. Reports `Done`.
    RemoveAuth,
    /// Put the authentication cache back as it was. Reports `Done`.
    RestoreAuth { content: Option<Vec<u8>> },
    /// Run `codex login` (with `--device-auth`). Reports `Exit`.
    RunLogin { device_auth: bool },
    /// Remove a profile's file. Reports `Done` with the file system's error.
    RemoveProfile { path: String },
    /// Run `codex --version`. Reports `Found` (whether it ran and succeeded).
    CheckCodex,
    /// Query a profile's usage and print its statistics. Reports `Done`.
    QueryStats { name: String, period_days: u64, json: bool },
    /// Query every saved profile's usage and print the table, marking the
    /// active profile. Reports `Done`.
    ListUsage { active: Option<String>, json: bool },
    /// Print a line. Reports `Done`.
    Print { line: Line },
    /// The command ends with this result.
    Finish { result: Result<(), String> },
}

#[allow(inconsistent_fields)]
pub enum StepView {
    AcquireLock,
    EnsureInitialized,
    SecureDir { path: Seq<char> },
    ReadConfig,
    CheckAuthFile { path: Seq<char> },
    PathExists { path: Seq<char> },
    ReadActive,
    SaveActive,
    Copy { from: Seq<char>, to: Seq<char> },
    WriteFile { path: Seq<char>, content: Seq<char> },
    WriteActive { name: Option<Seq<char>> },
    ReadAuth,
    RemoveAuth,
    RestoreAuth { content: Option<Seq<u8>> },
    RunLogin { device_auth: bool },
    RemoveProfile { path: Seq<char> },
    CheckCodex,
    QueryStats { name: Seq<char>, period_days: nat, json: bool },
    ListUsage { active: Option<Seq<char>>, json: bool },
    Print { line: LineView },
    Finish { result: Result<(), Seq<char>> },
}

pub open spec fn opt_view(o: Option<String>) -> Option<Seq<char>> {
    match o {
        Some(s) => Some(s@),
        None => None,
    }
}

pub open spec fn result_view(r: Result<(), String>) -> Result<(), Seq<char>> {
    match r {
        Ok(()) => Ok(()),
        Err(e) => Err(e@),
    }
}

impl View for Step {
    type V = StepView;

    open spec fn view(&self) -> StepView {
        match self {
            Step::AcquireLock => StepView::AcquireLock,
            Step::EnsureInitialized => StepView::EnsureInitialized,
            Step::SecureDir { path } => StepView::SecureDir { path: path@ },
            Step::ReadConfig => StepView::ReadConfig,
            Step::CheckAuthFile { path } => StepView::CheckAuthFile { path: path@ },
            Step::PathExists { path } => StepView::PathExists { path: path@ },
            Step::ReadActive => StepView::ReadActive,
            Step::SaveActive => StepView::SaveActive,
            Step::Copy { from, to } => StepView::Copy { from: from@, to: to@ },
            Step::WriteFile { path, content } => StepView::WriteFile {
                path: path@,
                content: content@,
            },
            Step::WriteActive { name } => StepView::WriteActive { name: opt_view(*name) },
            Step::ReadAuth => StepView::ReadAuth,
            Step::RemoveAuth => StepView::RemoveAuth,
            Step::RestoreAuth { content } => StepView::RestoreAuth {
                content: match content {
                    Some(c) => Some(c@),
                    None => None,
                },
            },
            Step::RunLogin { device_auth } => StepView::RunLogin { device_auth: *device_auth },
            Step::RemoveProfile { path } => StepView::RemoveProfile { path: path@ },
            Step::CheckCodex => StepView::CheckCodex,
            Step::QueryStats { name, period_days, json } => StepView::QueryStats {
                name: name@,
                period_days: *period_days as nat,
                json: *json,
            },
            Step::ListUsage { active, json } => StepView::ListUsage {
                active: opt_view(*active),
                json: *json,
            },
            Step::Print { line } => StepView::Print { line: line@ },
            Step::Finish { result } => StepView::Finish { result: result_view(*result) },
        }
    }
}

/// How `codex login` ended: whether it succeeded, and its exit status as
/// text.
pub struct ExitReport {
    pub success: bool,
    pub status: String,
}

/// What the caller reports after a step.
pub enum Outcome {
    /// Before the first step.
    Start,
    Done(Result<(), String>),
    Found(bool),
    Active(Result<Option<String>, String>),
    Content(Option<Vec<u8>>),
    Text(crate::storage::FileText),
    Exit(Result<ExitReport, String>),
}

/// The kind of outcome a step reports.
pub enum Kind {
    Start,
    Done,
    Found,
    Active,
    Content,
    Text,
    Exit,
}

pub enum OutcomeView {
    Start,
    Done(Result<(), Seq<char>>),
    Found(bool),
    Active(Result<Option<Seq<char>>, Seq<char>>),
    Content(Option<Seq<u8>>),
    Text(Option<Seq<char>>, Option<Seq<char>>),
    Exit(Result<(bool, Seq<char>), Seq<char>>),
}

impl View for Outcome {
    type V = OutcomeView;

    open spec fn view(&self) -> OutcomeView {
        match self {
            Outcome::Start => OutcomeView::Start,
            Outcome::Done(r) => OutcomeView::Done(result_view(*r)),
            Outcome::Found(b) => OutcomeView::Found(*b),
            Outcome::Active(r) => OutcomeView::Active(
                match r {
                    Ok(a) => Ok(opt_view(*a)),
                    Err(e) => Err(e@),
                },
            ),
            Outcome::Content(c) => OutcomeView::Content(
                match c {
                    Some(b) => Some(b@),
                    None => None,
                },
            ),
            Outcome::Text(t) => match t {
                crate::storage::FileText::Text(s) => OutcomeView::Text(Some(s@), None),
                crate::storage::FileText::NotFound => OutcomeView::Text(None, None),
                crate::storage::FileText::Failed(e) => OutcomeView::Text(None, Some(e@)),
            },
            Outcome::Exit(r) => OutcomeView::Exit(
                match r {
                    Ok(x) => Ok((x.success, x.status@)),
                    Err(e) => Err(e@),
                },
            ),
        }
    }
}

impl OutcomeView {
    pub open spec fn kind(self) -> Kind {
        match self {
            OutcomeView::Start => Kind::Start,
            OutcomeView::Done(_) => Kind::Done,
            OutcomeView::Found(_) => Kind::Found,
            OutcomeView::Active(_) => Kind::Active,
            OutcomeView::Content(_) => Kind::Content,
            OutcomeView::Text(_, _) => Kind::Text,
            OutcomeView::Exit(_) => Kind::Exit,
        }
    }
}

/// The kind of outcome the caller reports after a step.
pub open spec fn reports(step: StepView) -> Kind {
    match step {
        StepView::ReadConfig => Kind::Text,
        StepView::PathExists { .. } => Kind::Found,
        StepView::CheckCodex => Kind::Found,
        StepView::ReadActive => Kind::Active,
        StepView::ReadAuth => Kind::Content,
        StepView::RunLogin { .. } => Kind::Exit,
        _ => Kind::Done,
    }
}

/// Whether a step can change a file: the steps that save, copy, write,
/// record, remove or restore a file, and the login, which writes Codex's
/// authentication cache.
pub open spec fn writes(step: StepView) -> bool {
    ||| step is SaveActive
    ||| step is Copy
    ||| step is WriteFile
    ||| step is WriteActive
    ||| step is RemoveAuth
    ||| step is RestoreAuth
    ||| step is RemoveProfile
    ||| step is RunLogin
}

/// The steps a machine gives for a sequence of outcomes, and the state it
/// ends in: each outcome goes to the transition function in turn.
pub open spec fn run<S>(next: spec_fn(S, OutcomeView) -> (S, StepView), start: S, outcomes: Seq<
    OutcomeView,
>) -> (S, Seq<StepView>)
    decreases outcomes.len(),
{
    if outcomes.len() == 0 {
        (start, Seq::empty())
    } else {
        let (s, steps) = run(next, start, outcomes.drop_last());
        let (t, step) = next(s, outcomes.last());
        (t, steps.push(step))
    }
}

/// A well-formed exchange: it starts with `Start`, each later outcome is
/// of the kind the step before it reports, and no step follows a finish.
pub open spec fn exchange<S>(next: spec_fn(S, OutcomeView) -> (S, StepView), start: S, outcomes: Seq<
    OutcomeView,
>) -> bool {
    let steps = run(next, start, outcomes).1;
    &&& outcomes.len() > 0 ==> outcomes[0] == OutcomeView::Start
    &&& forall|i: int|
        0 < i < outcomes.len() ==> #[trigger] outcomes[i].kind() == reports(steps[i - 1])
            && !(steps[i - 1] is Finish)
}

pub proof fn lemma_run_prefix<S>(
    next: spec_fn(S, OutcomeView) -> (S, StepView),
    start: S,
    outcomes: Seq<OutcomeView>,
    n: int,
)
    requires
        0 <= n <= outcomes.len(),
    ensures
        run(next, start, outcomes.take(n)).1 == run(next, start, outcomes).1.take(n),
        run(next, start, outcomes).1.len() == outcomes.len(),
    decreases outcomes.len(),
{
    if outcomes.len() > 0 {
        lemma_run_prefix(next, start, outcomes.drop_last(), if n == outcomes.len() { n - 1 } else { n });
        if n == outcomes.len() {
            assert(outcomes.take(n) == outcomes);
        } else {
            assert(outcomes.drop_last().take(n) == outcomes.take(n));
        }
    }
}

/// The state a machine is in before it takes the outcome at index `i`.
pub open spec fn state_at<S>(
    next: spec_fn(S, OutcomeView) -> (S, StepView),
    start: S,
    outcomes: Seq<OutcomeView>,
    i: int,
) -> S {
    run(next, start, outcomes.take(i)).0
}

/// The step at index `i` is what the transition function gives for the
/// state before it and the outcome at `i`; that transition also gives the
/// state after it.
pub proof fn lemma_run_at<S>(
    next: spec_fn(S, OutcomeView) -> (S, StepView),
    start: S,
    outcomes: Seq<OutcomeView>,
    i: int,
)
    requires
        0 <= i < outcomes.len(),
    ensures
        run(next, start, outcomes).1.len() == outcomes.len(),
        run(next, start, outcomes).1[i] == next(state_at(next, start, outcomes, i), outcomes[i]).1,
        state_at(next, start, outcomes, i + 1) == next(
            state_at(next, start, outcomes, i),
            outcomes[i],
        ).0,
        state_at(next, start, outcomes, 0) == start,
{
    lemma_run_prefix(next, start, outcomes, i + 1);
    let prefix = outcomes.take(i + 1);
    assert(prefix.drop_last() == outcomes.take(i));
    assert(prefix.last() == outcomes[i]);
    lemma_run_prefix(next, start, outcomes.take(i), i);
    let (s, steps) = run(next, start, outcomes.take(i));
    let (t, step) = next(s, outcomes[i]);
    assert(run(next, start, prefix) == (t, steps.push(step)));
    assert(steps.len() == i);
    assert(run(next, start, outcomes).1.take(i + 1)[i] == run(next, start, outcomes).1[i]);
    assert(steps.push(step)[i] == step);
    assert(outcomes.take(0).len() == 0);
}

} // verus!
