//! The commands on saved profiles: `use`, `add`, `remove`, `current`,
//! `stats` and `list`, each a machine of steps with its transition function,
//! and the laws that hold of their runs.
use vstd::prelude::*;
use crate::flow::{
    Line, LineView, Outcome, OutcomeView, Step, StepView, exchange, lemma_run_at, reports, run,
    state_at, writes,
};
use crate::login::{login_next, login_start};
use crate::names::{NAME_RULE, valid_profile_name, validate_name};
use crate::paths::{
    Paths, PathsView, auth_path, law_profile_stays_in_directory, profile_file_name, profile_path,
};
use crate::storage::{NOT_INITIALIZED, active_save};
use crate::style::{ANSI_CYAN, ANSI_GOLD, ANSI_GREEN, ANSI_YELLOW};
use crate::document::{current_document, current_json};
use crate::text::{append_str, str_eq};

verus! {

/// The stage of a machine that has finished.
pub const FINISHED: u32 = 100;

/// The transition that ends a command with a result.
pub open spec fn finish(result: Result<(), Seq<char>>) -> (nat, StepView) {
    (FINISHED as nat, StepView::Finish { result })
}

/// The error a `Done` outcome reports, if any.
pub open spec fn failure(o: OutcomeView) -> Option<Seq<char>> {
    match o {
        OutcomeView::Done(Err(e)) => Some(e),
        _ => None,
    }
}

/// `"profile '<name>' does not exist or is invalid"`.
pub open spec fn missing_profile_message(name: Seq<char>) -> Seq<char> {
    "profile '"@ + name + "' does not exist or is invalid"@
}

fn missing_profile(name: &str) -> (r: String)
    ensures
        r@ == missing_profile_message(name@),
{
    let mut m = String::from_str("profile '");
    append_str(&mut m, name);
    append_str(&mut m, "' does not exist or is invalid");
    m
}

pub(crate) fn finished(result: Result<(), String>) -> (r: Step)
    ensures
        r@ == (StepView::Finish { result: crate::flow::result_view(result) }),
{
    Step::Finish { result }
}

pub(crate) fn status(prefix: &str, name: &str, suffix: &str, color: &str) -> (r: Step)
    ensures
        r@ == (StepView::Print {
            line: LineView::Status { prefix: prefix@, name: name@, suffix: suffix@, color: color@ },
        }),
{
    Step::Print {
        line: Line::Status {
            prefix: prefix.to_owned(),
            name: name.to_owned(),
            suffix: suffix.to_owned(),
            color: color.to_owned(),
        },
    }
}

/// The transitions of `use <name>`: check the name, take the lock, check
/// the setup and that the profile holds a login; if it is already active,
/// say so; otherwise save the current login into the active profile, make
/// the profile's login the current one, record it as active and confirm.
#[verifier::opaque]
pub open spec fn switch_next(p: PathsView, name: Seq<char>, stage: nat, o: OutcomeView) -> (nat, StepView) {
    if stage == 0 {
        if valid_profile_name(name) {
            (1, StepView::AcquireLock)
        } else {
            finish(Err(NAME_RULE@))
        }
    } else if stage == 1 {
        match failure(o) {
            Some(e) => finish(Err(e)),
            None => (2, StepView::EnsureInitialized),
        }
    } else if stage == 2 {
        match failure(o) {
            Some(e) => finish(Err(e)),
            None => (3, StepView::CheckAuthFile { path: profile_path(p, name) }),
        }
    } else if stage == 3 {
        match failure(o) {
            Some(_) => finish(Err(missing_profile_message(name))),
            None => (4, StepView::ReadActive),
        }
    } else if stage == 4 {
        match o {
            OutcomeView::Active(Err(e)) => finish(Err(e)),
            OutcomeView::Active(Ok(Some(a))) => if a == name {
                (
                    5,
                    StepView::Print {
                        line: LineView::Status {
                            prefix: "Profile "@,
                            name: name,
                            suffix: " is already active."@,
                            color: ANSI_CYAN@,
                        },
                    },
                )
            } else {
                (6, StepView::SaveActive)
            },
            _ => (6, StepView::SaveActive),
        }
    } else if stage == 5 {
        finish(Ok(()))
    } else if stage == 6 {
        match failure(o) {
            Some(e) => finish(Err(e)),
            None => (7, StepView::Copy { from: profile_path(p, name), to: auth_path(p) }),
        }
    } else if stage == 7 {
        match failure(o) {
            Some(e) => finish(Err(e)),
            None => (8, StepView::WriteActive { name: Some(name) }),
        }
    } else if stage == 8 {
        match failure(o) {
            Some(e) => finish(Err(e)),
            None => (9, StepView::Print { line: LineView::Confirmation { name } }),
        }
    } else {
        finish(Ok(()))
    }
}

/// `use <name>`: make a saved profile the active login.
pub struct SwitchFlow {
    pub paths: Paths,
    pub name: String,
    pub stage: u32,
}

/// `use <name>`: the machine that makes a saved profile the active login.
pub fn switch(paths: Paths, name: String) -> (r: SwitchFlow)
    ensures
        r.paths == paths,
        r.name == name,
        r.stage == 0,
{
    SwitchFlow { paths, name, stage: 0 }
}

impl SwitchFlow {
    /// The next step, given what the last one gave.
    pub fn step(&mut self, outcome: Outcome) -> (r: Step)
        ensures
            (final(self).stage as nat, r@) == switch_next(
                old(self).paths@,
                old(self).name@,
                old(self).stage as nat,
                outcome@,
            ),
            final(self).paths == old(self).paths,
            final(self).name == old(self).name,
    {
        proof {
            reveal(switch_next);
        }
        let name = self.name.as_str();
        let (stage, step): (u32, Step) = if self.stage == 0 {
            match validate_name(name) {
                Ok(()) => (1, Step::AcquireLock),
                Err(e) => (FINISHED, finished(Err(e))),
            }
        } else if self.stage == 1 {
            match outcome {
                Outcome::Done(Err(e)) => (FINISHED, finished(Err(e))),
                _ => (2, Step::EnsureInitialized),
            }
        } else if self.stage == 2 {
            match outcome {
                Outcome::Done(Err(e)) => (FINISHED, finished(Err(e))),
                _ => (3, Step::CheckAuthFile { path: self.paths.profile(name) }),
            }
        } else if self.stage == 3 {
            match outcome {
                Outcome::Done(Err(_)) => (FINISHED, finished(Err(missing_profile(name)))),
                _ => (4, Step::ReadActive),
            }
        } else if self.stage == 4 {
            match outcome {
                Outcome::Active(Err(e)) => (FINISHED, finished(Err(e))),
                Outcome::Active(Ok(Some(a))) => if str_eq(a.as_str(), name) {
                    (5, status("Profile ", name, " is already active.", ANSI_CYAN))
                } else {
                    (6, Step::SaveActive)
                },
                _ => (6, Step::SaveActive),
            }
        } else if self.stage == 5 {
            (FINISHED, finished(Ok(())))
        } else if self.stage == 6 {
            match outcome {
                Outcome::Done(Err(e)) => (FINISHED, finished(Err(e))),
                _ => (7, Step::Copy { from: self.paths.profile(name), to: self.paths.auth() }),
            }
        } else if self.stage == 7 {
            match outcome {
                Outcome::Done(Err(e)) => (FINISHED, finished(Err(e))),
                _ => (8, Step::WriteActive { name: Some(self.name.clone()) }),
            }
        } else if self.stage == 8 {
            match outcome {
                Outcome::Done(Err(e)) => (FINISHED, finished(Err(e))),
                _ => (9, Step::Print { line: Line::Confirmation { name: self.name.clone() } }),
            }
        } else {
            (FINISHED, finished(Ok(())))
        };
        self.stage = stage;
        step
    }
}

/// The machine of `use <name>`.
pub open spec fn switch_machine(p: PathsView, name: Seq<char>) -> spec_fn(nat, OutcomeView) -> (nat, StepView) {
    |s: nat, o: OutcomeView| switch_next(p, name, s, o)
}

proof fn lemma_switch_next_facts(p: PathsView, name: Seq<char>, s: nat, o: OutcomeView)
    ensures
        switch_next(p, name, s, o).1 is Copy ==> s == 6 && failure(o) is None,
        switch_next(p, name, s, o).0 == 6 ==> switch_next(p, name, s, o).1 == StepView::SaveActive
            && s == 4 && o != OutcomeView::Active(Ok(Some(name))),
        switch_next(p, name, s, o).0 == 4 ==> switch_next(p, name, s, o).1 == StepView::ReadActive,
{
    reveal(switch_next);
}

/// What holds before the copy at index `i` of a run of `use`: the step
/// before it saved the current login, successfully, and the step before
/// that read the active profile, which was not this one.
pub open spec fn switch_guarded(
    name: Seq<char>,
    outcomes: Seq<OutcomeView>,
    steps: Seq<StepView>,
    i: int,
) -> bool {
    &&& i >= 2
    &&& steps[i - 1] == StepView::SaveActive
    &&& outcomes[i] == OutcomeView::Done(Ok(()))
    &&& steps[i - 2] == StepView::ReadActive
    &&& outcomes[i - 1] != OutcomeView::Active(Ok(Some(name)))
}

/// `use` saves the current login before it replaces it, and leaves an
/// active profile alone: in every run of the command, the step that copies
/// the profile over Codex's authentication cache comes right after a
/// successful step that saved the current login into the active profile,
/// and that comes right after reading the active profile, which was not
/// the one asked for.
pub proof fn law_switch_saves_before_replacing(p: PathsView, name: Seq<char>, outcomes: Seq<OutcomeView>)
    requires
        exchange(switch_machine(p, name), 0, outcomes),
    ensures
        forall|i: int|
            0 <= i < outcomes.len() && (#[trigger] run(switch_machine(p, name), 0, outcomes).1[i]
                is Copy) ==> switch_guarded(name, outcomes, run(switch_machine(p, name), 0, outcomes).1, i),
{
    let m = switch_machine(p, name);
    let steps = run(m, 0, outcomes).1;
    assert forall|i: int| 0 <= i < outcomes.len() && (#[trigger] steps[i] is Copy) implies switch_guarded(
        name,
        outcomes,
        steps,
        i,
    ) by {
        lemma_run_at(m, 0, outcomes, i);
        lemma_switch_next_facts(p, name, state_at(m, 0, outcomes, i), outcomes[i]);
        lemma_run_at(m, 0, outcomes, i - 1);
        lemma_switch_next_facts(p, name, state_at(m, 0, outcomes, i - 1), outcomes[i - 1]);
        lemma_run_at(m, 0, outcomes, i - 2);
        lemma_switch_next_facts(p, name, state_at(m, 0, outcomes, i - 2), outcomes[i - 2]);
        assert(outcomes[i].kind() == reports(steps[i - 1]));
        match outcomes[i] {
            OutcomeView::Done(Ok(u)) => {
                assert(u == ());
            },
            _ => {},
        }
    }
}

proof fn lemma_switch_stage_facts(p: PathsView, name: Seq<char>, s: nat, o: OutcomeView)
    ensures
        ({
            let (t, step) = switch_next(p, name, s, o);
            &&& t >= s || t == FINISHED
            &&& writes(step) ==> s >= 4
            &&& step == StepView::ReadActive ==> s == 3 && t == 4
            &&& (s == 4 && o == OutcomeView::Active(Ok(Some(name)))) ==> t == 5 && !writes(step)
            &&& s == 5 ==> step is Finish
        }),
{
    reveal(switch_next);
}

proof fn lemma_switch_monotone(p: PathsView, name: Seq<char>, outcomes: Seq<OutcomeView>, i: int, j: int)
    requires
        0 <= i <= j <= outcomes.len(),
        state_at(switch_machine(p, name), 0, outcomes, j) != FINISHED,
    ensures
        state_at(switch_machine(p, name), 0, outcomes, i) <= state_at(switch_machine(p, name), 0, outcomes, j),
    decreases j - i,
{
    let m = switch_machine(p, name);
    if i < j {
        lemma_run_at(m, 0, outcomes, j - 1);
        lemma_switch_stage_facts(p, name, state_at(m, 0, outcomes, j - 1), outcomes[j - 1]);
        if state_at(m, 0, outcomes, j - 1) == FINISHED {
            reveal(switch_next);
        }
        lemma_switch_monotone(p, name, outcomes, i, j - 1);
    }
}

/// `use` on the active profile changes no file and succeeds: in every run
/// of the command in which reading the active profile names the profile
/// asked for, no step of the run saves, copies, writes, records, removes
/// or restores a file, and the step after the notice finishes with `Ok`.
pub proof fn law_switch_to_active_writes_nothing(
    p: PathsView,
    name: Seq<char>,
    outcomes: Seq<OutcomeView>,
    k: int,
)
    requires
        exchange(switch_machine(p, name), 0, outcomes),
        0 <= k && k + 1 < outcomes.len(),
        run(switch_machine(p, name), 0, outcomes).1[k] == StepView::ReadActive,
        outcomes[k + 1] == OutcomeView::Active(Ok(Some(name))),
    ensures
        forall|i: int|
            0 <= i < outcomes.len() ==> !writes(#[trigger] run(switch_machine(p, name), 0, outcomes).1[i]),
        k + 2 < outcomes.len() ==> run(switch_machine(p, name), 0, outcomes).1[k + 2] == (StepView::Finish {
            result: Ok(()),
        }),
{
    let m = switch_machine(p, name);
    let steps = run(m, 0, outcomes).1;
    lemma_run_at(m, 0, outcomes, k);
    lemma_switch_stage_facts(p, name, state_at(m, 0, outcomes, k), outcomes[k]);
    lemma_run_at(m, 0, outcomes, k + 1);
    lemma_switch_stage_facts(p, name, state_at(m, 0, outcomes, k + 1), outcomes[k + 1]);
    assert(state_at(m, 0, outcomes, k + 2) == 5);
    if k + 2 < outcomes.len() {
        lemma_run_at(m, 0, outcomes, k + 2);
        lemma_switch_stage_facts(p, name, state_at(m, 0, outcomes, k + 2), outcomes[k + 2]);
        assert(steps[k + 2] is Finish);
        reveal(switch_next);
        if k + 3 < outcomes.len() {
            assert(outcomes[k + 3].kind() == reports(steps[k + 2]));
        }
    }
    assert forall|i: int| 0 <= i < outcomes.len() implies !writes(#[trigger] steps[i]) by {
        lemma_run_at(m, 0, outcomes, i);
        lemma_switch_stage_facts(p, name, state_at(m, 0, outcomes, i), outcomes[i]);
        if i <= k {
            lemma_switch_monotone(p, name, outcomes, i, k);
        }
    }
}

/// The files `use` touches, each path mapped to its bytes, the profile
/// recorded as active, and whether `init` has run.
pub struct Disk {
    pub files: Map<Seq<char>, Seq<u8>>,
    pub active: Option<Seq<char>>,
    pub set_up: bool,
}

/// Whether `path` holds a login: a non-empty file.
pub open spec fn holds_login(d: Disk, path: Seq<char>) -> bool {
    d.files.dom().contains(path) && d.files[path].len() > 0
}

/// The disk after the bytes of `from` are copied to `to`.
pub open spec fn copied(d: Disk, from: Seq<char>, to: Seq<char>) -> Disk {
    Disk { files: d.files.insert(to, d.files[from]), ..d }
}

/// What a step of `use` does to the disk when it succeeds: saving copies
/// the login, when it is one, into the active profile; a copy copies;
/// recording the active profile records it; the other steps change
/// nothing.
pub open spec fn switch_effect(p: PathsView, d: Disk, step: StepView) -> Disk {
    match step {
        StepView::SaveActive => match active_save(p, d.active, holds_login(d, auth_path(p))) {
            Some((from, to)) => copied(d, from, to),
            None => d,
        },
        StepView::Copy { from, to } => copied(d, from, to),
        StepView::WriteActive { name } => Disk { active: name, ..d },
        _ => d,
    }
}

/// What the caller reports after a step of `use` on this disk when no
/// operation fails: the lock is taken, the setup is there when `init` has
/// run (else the error says to run it), a profile's file passes the check
/// when it holds a login (else the check fails with the text for an empty
/// file), the active profile reads back as recorded, and the rest succeed.
pub open spec fn switch_report(d: Disk, step: StepView) -> OutcomeView {
    match step {
        StepView::EnsureInitialized => if d.set_up {
            OutcomeView::Done(Ok(()))
        } else {
            OutcomeView::Done(Err(NOT_INITIALIZED@))
        },
        StepView::CheckAuthFile { path } => if holds_login(d, path) {
            OutcomeView::Done(Ok(()))
        } else {
            OutcomeView::Done(Err(path + " is not a non-empty file"@))
        },
        StepView::ReadActive => OutcomeView::Active(Ok(d.active)),
        _ => OutcomeView::Done(Ok(())),
    }
}

/// `use <name>` carried out on a disk for at most `fuel` steps after the
/// machine is at `stage` and was told `o`: the disk it leaves and the
/// result it finishes with (none if it had not finished).
pub open spec fn carry_out_switch(
    p: PathsView,
    name: Seq<char>,
    stage: nat,
    o: OutcomeView,
    d: Disk,
    fuel: nat,
) -> (Disk, Option<Result<(), Seq<char>>>)
    decreases fuel,
{
    let (t, step) = switch_next(p, name, stage, o);
    match step {
        StepView::Finish { result } => (d, Some(result)),
        _ => if fuel == 0 {
            (d, None)
        } else {
            carry_out_switch(
                p,
                name,
                t,
                switch_report(d, step),
                switch_effect(p, d, step),
                (fuel - 1) as nat,
            )
        },
    }
}

/// Two valid names that differ have different profile files.
proof fn lemma_profile_paths_differ(p: PathsView, a: Seq<char>, b: Seq<char>)
    requires
        valid_profile_name(a),
        valid_profile_name(b),
        a != b,
    ensures
        profile_path(p, a) != profile_path(p, b),
{
    law_profile_stays_in_directory(p, a);
    law_profile_stays_in_directory(p, b);
    let fa = profile_file_name(a);
    let fb = profile_file_name(b);
    if profile_path(p, a) == profile_path(p, b) {
        let pa = profile_path(p, a);
        let k = pa.len() - fa.len();
        assert(fa.len() == fb.len());
        assert(fa =~= pa.subrange(k, pa.len() as int));
        assert(fb =~= pa.subrange(k, pa.len() as int));
        assert(a =~= fa.subrange(0, a.len() as int));
        assert(b =~= fb.subrange(0, b.len() as int));
    }
}

/// Switching away and back keeps refreshed credentials: with profile `a`
/// active and its login possibly refreshed in Codex's authentication
/// cache, `use b` finishes, saves that login into `a`'s profile, makes
/// `b`'s saved login the current one and records `b`; a following
/// `use a` finishes, makes the refreshed login current again, records
/// `a`, and leaves `b`'s profile as it was. (Where a profile's file is
/// the authentication cache itself, the two cannot be told apart.)
pub proof fn law_switch_away_and_back(p: PathsView, a: Seq<char>, b: Seq<char>, d: Disk)
    requires
        valid_profile_name(a),
        valid_profile_name(b),
        a != b,
        auth_path(p) != profile_path(p, a),
        auth_path(p) != profile_path(p, b),
        d.set_up,
        d.active == Some(a),
        holds_login(d, auth_path(p)),
        holds_login(d, profile_path(p, b)),
    ensures
        ({
            let (d1, r1) = carry_out_switch(p, b, 0, OutcomeView::Start, d, 10);
            let (d2, r2) = carry_out_switch(p, a, 0, OutcomeView::Start, d1, 10);
            &&& r1 == Some(Ok::<(), Seq<char>>(()))
            &&& d1.active == Some(b)
            &&& d1.files[auth_path(p)] == d.files[profile_path(p, b)]
            &&& d1.files[profile_path(p, a)] == d.files[auth_path(p)]
            &&& r2 == Some(Ok::<(), Seq<char>>(()))
            &&& d2.active == Some(a)
            &&& d2.files[auth_path(p)] == d.files[auth_path(p)]
            &&& d2.files[profile_path(p, a)] == d.files[auth_path(p)]
            &&& d2.files[profile_path(p, b)] == d.files[profile_path(p, b)]
        }),
{
    reveal(switch_next);
    reveal_with_fuel(carry_out_switch, 11);
    lemma_profile_paths_differ(p, a, b);
}

/// `use` on the active profile leaves the disk as it was and succeeds:
/// once set up, with `name` recorded as active and its profile holding a
/// login, `use name` finishes with `Ok` and changes no file and not the
/// active record, so repeating a switch changes nothing.
pub proof fn law_switch_to_active_changes_nothing(p: PathsView, name: Seq<char>, d: Disk)
    requires
        valid_profile_name(name),
        d.set_up,
        d.active == Some(name),
        holds_login(d, profile_path(p, name)),
    ensures
        carry_out_switch(p, name, 0, OutcomeView::Start, d, 10) == (d, Some(Ok::<(), Seq<char>>(()))),
{
    reveal(switch_next);
    reveal_with_fuel(carry_out_switch, 11);
}

/// `"profile '<name>' already exists; pass --force to replace it"`.
pub open spec fn exists_message(name: Seq<char>) -> Seq<char> {
    "profile '"@ + name + "' already exists; pass --force to replace it"@
}

pub(crate) fn exists_error(name: &str) -> (r: String)
    ensures
        r@ == exists_message(name@),
{
    let mut m = String::from_str("profile '");
    append_str(&mut m, name);
    append_str(&mut m, "' already exists; pass --force to replace it");
    m
}

/// The transitions of `add <name>`: check the name, take the lock, check
/// the setup and that Codex holds a login; refuse to replace an existing
/// profile without `--force`; save the current login into the active
/// profile, copy Codex's login into the profile, record it as active and
/// say so.
#[verifier::opaque]
pub open spec fn capture_next(
    p: PathsView,
    name: Seq<char>,
    force: bool,
    stage: nat,
    o: OutcomeView,
) -> (nat, StepView) {
    if stage == 0 {
        if valid_profile_name(name) {
            (1, StepView::AcquireLock)
        } else {
            finish(Err(NAME_RULE@))
        }
    } else if stage == 1 {
        match failure(o) {
            Some(e) => finish(Err(e)),
            None => (2, StepView::EnsureInitialized),
        }
    } else if stage == 2 {
        match failure(o) {
            Some(e) => finish(Err(e)),
            None => (3, StepView::CheckAuthFile { path: auth_path(p) }),
        }
    } else if stage == 3 {
        match failure(o) {
            Some(e) => finish(Err(e)),
            None => (4, StepView::PathExists { path: profile_path(p, name) }),
        }
    } else if stage == 4 {
        if o == OutcomeView::Found(true) && !force {
            finish(Err(exists_message(name)))
        } else {
            (5, StepView::SaveActive)
        }
    } else if stage == 5 {
        match failure(o) {
            Some(e) => finish(Err(e)),
            None => (6, StepView::Copy { from: auth_path(p), to: profile_path(p, name) }),
        }
    } else if stage == 6 {
        match failure(o) {
            Some(e) => finish(Err(e)),
            None => (7, StepView::WriteActive { name: Some(name) }),
        }
    } else if stage == 7 {
        match failure(o) {
            Some(e) => finish(Err(e)),
            None => (
                8,
                StepView::Print {
                    line: LineView::Status {
                        prefix: "Captured the current Codex login as profile "@,
                        name: name,
                        suffix: "."@,
                        color: ANSI_GREEN@,
                    },
                },
            ),
        }
    } else {
        finish(Ok(()))
    }
}

/// `add <name>`: save Codex's current login as a profile.
pub struct CaptureFlow {
    pub paths: Paths,
    pub name: String,
    pub force: bool,
    pub stage: u32,
}

/// `add <name> [--force]`: the machine that saves Codex's current login as
/// a profile.
pub fn capture(paths: Paths, name: String, force: bool) -> (r: CaptureFlow)
    ensures
        r.paths == paths,
        r.name == name,
        r.force == force,
        r.stage == 0,
{
    CaptureFlow { paths, name, force, stage: 0 }
}

impl CaptureFlow {
    /// The next step, given what the last one gave.
    pub fn step(&mut self, outcome: Outcome) -> (r: Step)
        ensures
            (final(self).stage as nat, r@) == capture_next(
                old(self).paths@,
                old(self).name@,
                old(self).force,
                old(self).stage as nat,
                outcome@,
            ),
            final(self).paths == old(self).paths,
            final(self).name == old(self).name,
            final(self).force == old(self).force,
    {
        proof {
            reveal(capture_next);
        }
        let name = self.name.as_str();
        let (stage, step): (u32, Step) = if self.stage == 0 {
            match validate_name(name) {
                Ok(()) => (1, Step::AcquireLock),
                Err(e) => (FINISHED, finished(Err(e))),
            }
        } else if self.stage == 1 {
            match outcome {
                Outcome::Done(Err(e)) => (FINISHED, finished(Err(e))),
                _ => (2, Step::EnsureInitialized),
            }
        } else if self.stage == 2 {
            match outcome {
                Outcome::Done(Err(e)) => (FINISHED, finished(Err(e))),
                _ => (3, Step::CheckAuthFile { path: self.paths.auth() }),
            }
        } else if self.stage == 3 {
            match outcome {
                Outcome::Done(Err(e)) => (FINISHED, finished(Err(e))),
                _ => (4, Step::PathExists { path: self.paths.profile(name) }),
            }
        } else if self.stage == 4 {
            match outcome {
                Outcome::Found(true) if !self.force => (FINISHED, finished(Err(exists_error(name)))),
                _ => (5, Step::SaveActive),
            }
        } else if self.stage == 5 {
            match outcome {
                Outcome::Done(Err(e)) => (FINISHED, finished(Err(e))),
                _ => (6, Step::Copy { from: self.paths.auth(), to: self.paths.profile(name) }),
            }
        } else if self.stage == 6 {
            match outcome {
                Outcome::Done(Err(e)) => (FINISHED, finished(Err(e))),
                _ => (7, Step::WriteActive { name: Some(self.name.clone()) }),
            }
        } else if self.stage == 7 {
            match outcome {
                Outcome::Done(Err(e)) => (FINISHED, finished(Err(e))),
                _ => (
                    8,
                    status("Captured the current Codex login as profile ", name, ".", ANSI_GREEN),
                ),
            }
        } else {
            (FINISHED, finished(Ok(())))
        };
        self.stage = stage;
        step
    }
}

/// The machine of `add <name>`.
pub open spec fn capture_machine(p: PathsView, name: Seq<char>, force: bool) -> spec_fn(
    nat,
    OutcomeView,
) -> (nat, StepView) {
    |s: nat, o: OutcomeView| capture_next(p, name, force, s, o)
}

proof fn lemma_capture_next_facts(p: PathsView, name: Seq<char>, force: bool, s: nat, o: OutcomeView)
    ensures
        capture_next(p, name, force, s, o).1 is Copy ==> s == 5 && failure(o) is None,
        capture_next(p, name, force, s, o).0 == 5 ==> capture_next(p, name, force, s, o).1
            == StepView::SaveActive,
        capture_next(p, name, force, s, o).0 == 5 ==> s == 4 && (force || o != OutcomeView::Found(
            true,
        )),
        capture_next(p, name, force, s, o).0 == 4 ==> capture_next(p, name, force, s, o).1
            == (StepView::PathExists { path: profile_path(p, name) }),
{
    reveal(capture_next);
}

/// What holds before the copy at index `i` of a run of `add`: the step
/// before it saved the current login, successfully, and the step before
/// that checked whether the profile exists, which found none unless
/// `--force` was given.
pub open spec fn capture_guarded(
    p: PathsView,
    name: Seq<char>,
    force: bool,
    outcomes: Seq<OutcomeView>,
    steps: Seq<StepView>,
    i: int,
) -> bool {
    &&& i >= 2
    &&& steps[i - 1] == StepView::SaveActive
    &&& outcomes[i] == OutcomeView::Done(Ok(()))
    &&& steps[i - 2] == (StepView::PathExists { path: profile_path(p, name) })
    &&& (force || outcomes[i - 1] == OutcomeView::Found(false))
}

/// `add` replaces a saved profile only when asked to: in every run of the
/// command, the step that copies Codex's login into the profile comes after
/// a check of whether the profile exists that found none, unless `--force`
/// was given; and after a successful step that saved the current login into
/// the active profile.
pub proof fn law_capture_keeps_existing_profile(
    p: PathsView,
    name: Seq<char>,
    force: bool,
    outcomes: Seq<OutcomeView>,
)
    requires
        exchange(capture_machine(p, name, force), 0, outcomes),
    ensures
        forall|i: int|
            0 <= i < outcomes.len() && (#[trigger] run(capture_machine(p, name, force), 0, outcomes).1[i]
                is Copy) ==> capture_guarded(
                p,
                name,
                force,
                outcomes,
                run(capture_machine(p, name, force), 0, outcomes).1,
                i,
            ),
{
    let m = capture_machine(p, name, force);
    let steps = run(m, 0, outcomes).1;
    assert forall|i: int| 0 <= i < outcomes.len() && (#[trigger] steps[i] is Copy) implies capture_guarded(
        p,
        name,
        force,
        outcomes,
        steps,
        i,
    ) by {
        lemma_run_at(m, 0, outcomes, i);
        let s = state_at(m, 0, outcomes, i);
        lemma_capture_next_facts(p, name, force, s, outcomes[i]);
        assert(i > 0);
        lemma_run_at(m, 0, outcomes, i - 1);
        let r = state_at(m, 0, outcomes, i - 1);
        lemma_capture_next_facts(p, name, force, r, outcomes[i - 1]);
        assert(r == 4);
        assert(i - 1 > 0);
        lemma_run_at(m, 0, outcomes, i - 2);
        let q = state_at(m, 0, outcomes, i - 2);
        lemma_capture_next_facts(p, name, force, q, outcomes[i - 2]);
        assert(steps[i - 2] == (StepView::PathExists { path: profile_path(p, name) }));
        assert(outcomes[i - 1].kind() == reports(steps[i - 2]));
        assert(outcomes[i].kind() == reports(steps[i - 1]));
        assert(failure(outcomes[i]) is None);
        match outcomes[i] {
            OutcomeView::Done(Ok(u)) => {
                assert(u == ());
            },
            _ => {},
        }
    }
}


/// `"profile '<name>' does not exist"`.
pub open spec fn no_profile_message(name: Seq<char>) -> Seq<char> {
    "profile '"@ + name + "' does not exist"@
}

/// `"profile '<name>' is active; switch first or pass --force"`.
pub open spec fn active_profile_message(name: Seq<char>) -> Seq<char> {
    "profile '"@ + name + "' is active; switch first or pass --force"@
}

/// `"cannot remove profile '<name>': <error>"`.
pub open spec fn remove_failed_message(name: Seq<char>, error: Seq<char>) -> Seq<char> {
    "cannot remove profile '"@ + name + "': "@ + error
}

fn quoted_message(before: &str, name: &str, after: &str) -> (r: String)
    ensures
        r@ == before@ + name@ + after@,
{
    let mut m = before.to_owned();
    append_str(&mut m, name);
    append_str(&mut m, after);
    m
}

/// The transitions of `remove <name>`: check the name, take the lock,
/// check that the profile exists and whether it is the active one; refuse
/// to remove the active profile without `--force`; remove the profile's
/// file, forget it as the active profile if it was, and say so. Stage 4
/// removes the active profile, stage 5 another one.
#[verifier::opaque]
pub open spec fn remove_next(
    p: PathsView,
    name: Seq<char>,
    force: bool,
    stage: nat,
    o: OutcomeView,
) -> (nat, StepView) {
    if stage == 0 {
        if valid_profile_name(name) {
            (1, StepView::AcquireLock)
        } else {
            finish(Err(NAME_RULE@))
        }
    } else if stage == 1 {
        match failure(o) {
            Some(e) => finish(Err(e)),
            None => (2, StepView::PathExists { path: profile_path(p, name) }),
        }
    } else if stage == 2 {
        if o == OutcomeView::Found(true) {
            (3, StepView::ReadActive)
        } else {
            finish(Err(no_profile_message(name)))
        }
    } else if stage == 3 {
        match o {
            OutcomeView::Active(Err(e)) => finish(Err(e)),
            _ => {
                let is_active = o == OutcomeView::Active(Ok(Some(name)));
                if is_active && !force {
                    finish(Err(active_profile_message(name)))
                } else {
                    (
                        if is_active {
                            4
                        } else {
                            5
                        },
                        StepView::RemoveProfile { path: profile_path(p, name) },
                    )
                }
            },
        }
    } else if stage == 4 || stage == 5 {
        match failure(o) {
            Some(e) => finish(Err(remove_failed_message(name, e))),
            None => if stage == 4 {
                (6, StepView::WriteActive { name: None })
            } else {
                (7, removed_line(name))
            },
        }
    } else if stage == 6 {
        match failure(o) {
            Some(e) => finish(Err(e)),
            None => (7, removed_line(name)),
        }
    } else {
        finish(Ok(()))
    }
}

/// The line after removing a profile.
pub open spec fn removed_line(name: Seq<char>) -> StepView {
    StepView::Print {
        line: LineView::Status {
            prefix: "Removed profile "@,
            name: name,
            suffix: ". The active Codex login was not logged out."@,
            color: ANSI_GREEN@,
        },
    }
}

/// `remove <name> [--force]`: delete a saved profile.
pub struct RemoveFlow {
    pub paths: Paths,
    pub name: String,
    pub force: bool,
    pub stage: u32,
}

/// `remove <name> [--force]`: the machine that deletes a saved profile.
pub fn remove(paths: Paths, name: String, force: bool) -> (r: RemoveFlow)
    ensures
        r.paths == paths,
        r.name == name,
        r.force == force,
        r.stage == 0,
{
    RemoveFlow { paths, name, force, stage: 0 }
}

impl RemoveFlow {
    /// The next step, given what the last one gave.
    pub fn step(&mut self, outcome: Outcome) -> (r: Step)
        ensures
            (final(self).stage as nat, r@) == remove_next(
                old(self).paths@,
                old(self).name@,
                old(self).force,
                old(self).stage as nat,
                outcome@,
            ),
            final(self).paths == old(self).paths,
            final(self).name == old(self).name,
            final(self).force == old(self).force,
    {
        proof {
            reveal(remove_next);
        }
        let name = self.name.as_str();
        let removed = "Removed profile ";
        let not_logged_out = ". The active Codex login was not logged out.";
        let (stage, step): (u32, Step) = if self.stage == 0 {
            match validate_name(name) {
                Ok(()) => (1, Step::AcquireLock),
                Err(e) => (FINISHED, finished(Err(e))),
            }
        } else if self.stage == 1 {
            match outcome {
                Outcome::Done(Err(e)) => (FINISHED, finished(Err(e))),
                _ => (2, Step::PathExists { path: self.paths.profile(name) }),
            }
        } else if self.stage == 2 {
            match outcome {
                Outcome::Found(true) => (3, Step::ReadActive),
                _ => (FINISHED, finished(Err(quoted_message("profile '", name, "' does not exist")))),
            }
        } else if self.stage == 3 {
            match outcome {
                Outcome::Active(Err(e)) => (FINISHED, finished(Err(e))),
                _ => {
                    let is_active = match &outcome {
                        Outcome::Active(Ok(Some(a))) => str_eq(a.as_str(), name),
                        _ => false,
                    };
                    if is_active && !self.force {
                        (
                            FINISHED,
                            finished(
                                Err(
                                    quoted_message(
                                        "profile '",
                                        name,
                                        "' is active; switch first or pass --force",
                                    ),
                                ),
                            ),
                        )
                    } else {
                        (
                            if is_active {
                                4
                            } else {
                                5
                            },
                            Step::RemoveProfile { path: self.paths.profile(name) },
                        )
                    }
                },
            }
        } else if self.stage == 4 || self.stage == 5 {
            match outcome {
                Outcome::Done(Err(e)) => {
                    let mut m = quoted_message("cannot remove profile '", name, "': ");
                    append_str(&mut m, e.as_str());
                    (FINISHED, finished(Err(m)))
                },
                _ => if self.stage == 4 {
                    (6, Step::WriteActive { name: None })
                } else {
                    (7, status(removed, name, not_logged_out, ANSI_GREEN))
                },
            }
        } else if self.stage == 6 {
            match outcome {
                Outcome::Done(Err(e)) => (FINISHED, finished(Err(e))),
                _ => (7, status(removed, name, not_logged_out, ANSI_GREEN)),
            }
        } else {
            (FINISHED, finished(Ok(())))
        };
        self.stage = stage;
        step
    }
}

/// The machine of `remove <name>`.
pub open spec fn remove_machine(p: PathsView, name: Seq<char>, force: bool) -> spec_fn(
    nat,
    OutcomeView,
) -> (nat, StepView) {
    |s: nat, o: OutcomeView| remove_next(p, name, force, s, o)
}

proof fn lemma_remove_next_facts(p: PathsView, name: Seq<char>, force: bool, s: nat, o: OutcomeView)
    ensures
        remove_next(p, name, force, s, o).1 is RemoveProfile ==> s == 3 && (force || o
            != OutcomeView::Active(Ok(Some(name)))) && (remove_next(p, name, force, s, o).0 == 4
            <==> o == OutcomeView::Active(Ok(Some(name)))),
        remove_next(p, name, force, s, o).0 == 3 ==> remove_next(p, name, force, s, o).1
            == StepView::ReadActive,
        (s == 4 && failure(o) is None) ==> remove_next(p, name, force, s, o).1 == (
        StepView::WriteActive { name: None }),
{
    reveal(remove_next);
}

/// `remove` keeps the active profile unless asked, and forgets it when it
/// goes: in every run of the command, the step that removes the profile's
/// file comes right after reading the active profile, and that read did
/// not name this profile unless `--force` was given; when it did and the
/// removal succeeded, the next step removes the record of the active
/// profile.
pub proof fn law_remove_guards_active_profile(
    p: PathsView,
    name: Seq<char>,
    force: bool,
    outcomes: Seq<OutcomeView>,
)
    requires
        exchange(remove_machine(p, name, force), 0, outcomes),
    ensures
        forall|i: int|
            0 <= i < outcomes.len() && (#[trigger] run(remove_machine(p, name, force), 0, outcomes).1[i]
                is RemoveProfile) ==> i >= 1 && run(remove_machine(p, name, force), 0, outcomes).1[i
                - 1] == StepView::ReadActive && (force || outcomes[i] != OutcomeView::Active(
                Ok(Some(name)),
            )),
        forall|i: int|
            0 <= i && i + 1 < outcomes.len() && (#[trigger] run(remove_machine(p, name, force), 0, outcomes).1[i]
                is RemoveProfile) && outcomes[i] == OutcomeView::Active(Ok(Some(name)))
                && outcomes[i + 1] == OutcomeView::Done(Ok(())) ==> run(
                remove_machine(p, name, force),
                0,
                outcomes,
            ).1[i + 1] == (StepView::WriteActive { name: None }),
{
    let m = remove_machine(p, name, force);
    let steps = run(m, 0, outcomes).1;
    assert forall|i: int| 0 <= i < outcomes.len() && (#[trigger] steps[i] is RemoveProfile) implies i
        >= 1 && steps[i - 1] == StepView::ReadActive && (force || outcomes[i] != OutcomeView::Active(
        Ok(Some(name)),
    )) by {
        lemma_run_at(m, 0, outcomes, i);
        lemma_remove_next_facts(p, name, force, state_at(m, 0, outcomes, i), outcomes[i]);
        lemma_run_at(m, 0, outcomes, i - 1);
        lemma_remove_next_facts(p, name, force, state_at(m, 0, outcomes, i - 1), outcomes[i - 1]);
    }
    assert forall|i: int|
        0 <= i && i + 1 < outcomes.len() && (#[trigger] steps[i] is RemoveProfile) && outcomes[i]
            == OutcomeView::Active(Ok(Some(name))) && outcomes[i + 1] == OutcomeView::Done(
            Ok(()),
        ) implies steps[i + 1] == (StepView::WriteActive { name: None }) by {
        lemma_run_at(m, 0, outcomes, i);
        lemma_remove_next_facts(p, name, force, state_at(m, 0, outcomes, i), outcomes[i]);
        lemma_run_at(m, 0, outcomes, i + 1);
        lemma_remove_next_facts(p, name, force, state_at(m, 0, outcomes, i + 1), outcomes[i + 1]);
    }
}


/// The transitions of `current`: read the active profile. In the prompt
/// format print only its name and a line break, or nothing when none is
/// active; with `--json` print its document; otherwise print the name in
/// gold, or a warning when none is active.
#[verifier::opaque]
pub open spec fn current_next(json: bool, prompt: bool, stage: nat, o: OutcomeView) -> (nat, StepView) {
    if stage == 0 {
        (1, StepView::ReadActive)
    } else if stage == 1 {
        match o {
            OutcomeView::Active(Err(e)) => finish(Err(e)),
            _ => {
                let active = match o {
                    OutcomeView::Active(Ok(a)) => a,
                    _ => None,
                };
                if prompt {
                    match active {
                        Some(a) => (
                            2,
                            StepView::Print { line: LineView::Plain { text: a + "\n"@ } },
                        ),
                        None => finish(Ok(())),
                    }
                } else if json {
                    (
                        2,
                        StepView::Print { line: LineView::Plain { text: current_json(active) + "\n"@ } },
                    )
                } else {
                    match active {
                        Some(a) => (
                            2,
                            StepView::Print { line: LineView::Styled { message: a, color: ANSI_GOLD@ } },
                        ),
                        None => (
                            2,
                            StepView::Print {
                                line: LineView::Styled {
                                    message: "No managed profile is active."@,
                                    color: ANSI_YELLOW@,
                                },
                            },
                        ),
                    }
                }
            },
        }
    } else {
        finish(Ok(()))
    }
}

/// `current [--json] [--format text|prompt]`: print the active profile.
pub struct CurrentFlow {
    pub json: bool,
    pub prompt: bool,
    pub stage: u32,
}

/// `current`: the machine that prints the active profile.
pub fn current(json: bool, prompt: bool) -> (r: CurrentFlow)
    ensures
        r.json == json,
        r.prompt == prompt,
        r.stage == 0,
{
    CurrentFlow { json, prompt, stage: 0 }
}

impl CurrentFlow {
    /// The next step, given what the last one gave.
    pub fn step(&mut self, outcome: Outcome) -> (r: Step)
        ensures
            (final(self).stage as nat, r@) == current_next(
                old(self).json,
                old(self).prompt,
                old(self).stage as nat,
                outcome@,
            ),
            final(self).json == old(self).json,
            final(self).prompt == old(self).prompt,
    {
        proof {
            reveal(current_next);
        }
        let (stage, step): (u32, Step) = if self.stage == 0 {
            (1, Step::ReadActive)
        } else if self.stage == 1 {
            match outcome {
                Outcome::Active(Err(e)) => (FINISHED, finished(Err(e))),
                _ => {
                    let active: Option<String> = match outcome {
                        Outcome::Active(Ok(a)) => a,
                        _ => None,
                    };
                    if self.prompt {
                        match active {
                            Some(a) => {
                                let mut text = a;
                                append_str(&mut text, "\n");
                                (2, Step::Print { line: Line::Plain { text } })
                            },
                            None => (FINISHED, finished(Ok(()))),
                        }
                    } else if self.json {
                        let mut text = match &active {
                            Some(a) => current_document(Some(a.as_str())),
                            None => current_document(None),
                        };
                        append_str(&mut text, "\n");
                        (2, Step::Print { line: Line::Plain { text } })
                    } else {
                        match active {
                            Some(a) => (
                                2,
                                Step::Print {
                                    line: Line::Styled { message: a, color: ANSI_GOLD.to_owned() },
                                },
                            ),
                            None => (
                                2,
                                Step::Print {
                                    line: Line::Styled {
                                        message: "No managed profile is active.".to_owned(),
                                        color: ANSI_YELLOW.to_owned(),
                                    },
                                },
                            ),
                        }
                    }
                },
            }
        } else {
            (FINISHED, finished(Ok(())))
        };
        self.stage = stage;
        step
    }
}

/// The transitions of `stats <name> [--period <Nd>]`: check the name, take the
/// lock, check the setup, save the current login into the active profile,
/// check that the profile holds a login, then query and print its usage.
#[verifier::opaque]
pub open spec fn stats_next(
    p: PathsView,
    name: Seq<char>,
    period_days: nat,
    json: bool,
    stage: nat,
    o: OutcomeView,
) -> (nat, StepView) {
    if stage == 0 {
        if valid_profile_name(name) {
            (1, StepView::AcquireLock)
        } else {
            finish(Err(NAME_RULE@))
        }
    } else if stage == 1 {
        match failure(o) {
            Some(e) => finish(Err(e)),
            None => (2, StepView::EnsureInitialized),
        }
    } else if stage == 2 {
        match failure(o) {
            Some(e) => finish(Err(e)),
            None => (3, StepView::SaveActive),
        }
    } else if stage == 3 {
        match failure(o) {
            Some(e) => finish(Err(e)),
            None => (4, StepView::CheckAuthFile { path: profile_path(p, name) }),
        }
    } else if stage == 4 {
        match failure(o) {
            Some(_) => finish(Err(missing_profile_message(name))),
            None => (5, StepView::QueryStats { name, period_days, json }),
        }
    } else {
        match failure(o) {
            Some(e) => finish(Err(e)),
            None => finish(Ok(())),
        }
    }
}

/// `stats <name>`: show a profile's usage statistics.
pub struct StatsFlow {
    pub paths: Paths,
    pub name: String,
    pub period_days: u64,
    pub json: bool,
    pub stage: u32,
}

/// `stats <name>`: the machine that shows a profile's usage statistics.
pub fn stats(paths: Paths, name: String, period_days: u64, json: bool) -> (r: StatsFlow)
    ensures
        r.paths == paths,
        r.name == name,
        r.period_days == period_days,
        r.json == json,
        r.stage == 0,
{
    StatsFlow { paths, name, period_days, json, stage: 0 }
}

impl StatsFlow {
    /// The next step, given what the last one gave.
    pub fn step(&mut self, outcome: Outcome) -> (r: Step)
        ensures
            (final(self).stage as nat, r@) == stats_next(
                old(self).paths@,
                old(self).name@,
                old(self).period_days as nat,
                old(self).json,
                old(self).stage as nat,
                outcome@,
            ),
            final(self).paths == old(self).paths,
            final(self).name == old(self).name,
            final(self).period_days == old(self).period_days,
            final(self).json == old(self).json,
    {
        proof {
            reveal(stats_next);
        }
        let name = self.name.as_str();
        let (stage, step): (u32, Step) = if self.stage == 0 {
            match validate_name(name) {
                Ok(()) => (1, Step::AcquireLock),
                Err(e) => (FINISHED, finished(Err(e))),
            }
        } else if self.stage == 1 || self.stage == 2 || self.stage == 3 {
            match outcome {
                Outcome::Done(Err(e)) => (FINISHED, finished(Err(e))),
                _ => if self.stage == 1 {
                    (2, Step::EnsureInitialized)
                } else if self.stage == 2 {
                    (3, Step::SaveActive)
                } else {
                    (4, Step::CheckAuthFile { path: self.paths.profile(name) })
                },
            }
        } else if self.stage == 4 {
            match outcome {
                Outcome::Done(Err(_)) => (FINISHED, finished(Err(missing_profile(name)))),
                _ => (
                    5,
                    Step::QueryStats {
                        name: self.name.clone(),
                        period_days: self.period_days,
                        json: self.json,
                    },
                ),
            }
        } else {
            match outcome {
                Outcome::Done(Err(e)) => (FINISHED, finished(Err(e))),
                _ => (FINISHED, finished(Ok(()))),
            }
        };
        self.stage = stage;
        step
    }
}

/// The transitions of `list`: take the lock, check the setup, save the
/// current login into the active profile, read the active profile, then
/// query every profile and print the table.
#[verifier::opaque]
pub open spec fn list_next(json: bool, stage: nat, o: OutcomeView) -> (nat, StepView) {
    if stage == 0 {
        (1, StepView::AcquireLock)
    } else if stage == 1 {
        match failure(o) {
            Some(e) => finish(Err(e)),
            None => (2, StepView::EnsureInitialized),
        }
    } else if stage == 2 {
        match failure(o) {
            Some(e) => finish(Err(e)),
            None => (3, StepView::SaveActive),
        }
    } else if stage == 3 {
        match failure(o) {
            Some(e) => finish(Err(e)),
            None => (4, StepView::ReadActive),
        }
    } else if stage == 4 {
        match o {
            OutcomeView::Active(Err(e)) => finish(Err(e)),
            OutcomeView::Active(Ok(a)) => (5, StepView::ListUsage { active: a, json }),
            _ => (5, StepView::ListUsage { active: None, json }),
        }
    } else {
        match failure(o) {
            Some(e) => finish(Err(e)),
            None => finish(Ok(())),
        }
    }
}

/// `list`: show every profile with its plan and quota.
pub struct ListFlow {
    pub json: bool,
    pub stage: u32,
}

/// `list`: the machine that shows every profile's plan and quota.
pub fn list(json: bool) -> (r: ListFlow)
    ensures
        r.json == json,
        r.stage == 0,
{
    ListFlow { json, stage: 0 }
}

impl ListFlow {
    /// The next step, given what the last one gave.
    pub fn step(&mut self, outcome: Outcome) -> (r: Step)
        ensures
            (final(self).stage as nat, r@) == list_next(old(self).json, old(self).stage as nat, outcome@),
            final(self).json == old(self).json,
    {
        proof {
            reveal(list_next);
        }
        let (stage, step): (u32, Step) = if self.stage == 0 {
            (1, Step::AcquireLock)
        } else if self.stage == 1 || self.stage == 2 || self.stage == 3 {
            match outcome {
                Outcome::Done(Err(e)) => (FINISHED, finished(Err(e))),
                _ => if self.stage == 1 {
                    (2, Step::EnsureInitialized)
                } else if self.stage == 2 {
                    (3, Step::SaveActive)
                } else {
                    (4, Step::ReadActive)
                },
            }
        } else if self.stage == 4 {
            match outcome {
                Outcome::Active(Err(e)) => (FINISHED, finished(Err(e))),
                Outcome::Active(Ok(a)) => (5, Step::ListUsage { active: a, json: self.json }),
                _ => (5, Step::ListUsage { active: None, json: self.json }),
            }
        } else {
            match outcome {
                Outcome::Done(Err(e)) => (FINISHED, finished(Err(e))),
                _ => (FINISHED, finished(Ok(()))),
            }
        };
        self.stage = stage;
        step
    }
}


/// A command given an invalid profile name does nothing but fail: the
/// first step of `use`, `add`, `login`, `remove` and `stats` for such a
/// name ends the command with the rule for profile names, before any lock
/// is taken or any file is read or written.
pub proof fn law_invalid_name_does_nothing(
    p: PathsView,
    name: Seq<char>,
    force: bool,
    device_auth: bool,
    period_days: nat,
    json: bool,
)
    requires
        !valid_profile_name(name),
    ensures
        switch_next(p, name, 0, OutcomeView::Start) == finish(Err(NAME_RULE@)),
        capture_next(p, name, force, 0, OutcomeView::Start) == finish(Err(NAME_RULE@)),
        remove_next(p, name, force, 0, OutcomeView::Start) == finish(Err(NAME_RULE@)),
        stats_next(p, name, period_days, json, 0, OutcomeView::Start) == finish(Err(NAME_RULE@)),
        login_next(p, name, force, device_auth, login_start(), OutcomeView::Start).1 == (
        StepView::Finish { result: Err(NAME_RULE@) }),
{
    reveal(switch_next);
    reveal(capture_next);
    reveal(remove_next);
    reveal(stats_next);
    reveal(login_next);
}


/// The machine of `stats <name>`.
pub open spec fn stats_machine(p: PathsView, name: Seq<char>, period_days: nat, json: bool) -> spec_fn(
    nat,
    OutcomeView,
) -> (nat, StepView) {
    |s: nat, o: OutcomeView| stats_next(p, name, period_days, json, s, o)
}

/// The machine of `list`.
pub open spec fn list_machine(json: bool) -> spec_fn(nat, OutcomeView) -> (nat, StepView) {
    |s: nat, o: OutcomeView| list_next(json, s, o)
}

/// Two steps before index `i` the command saved the current login, and
/// the save succeeded.
pub open spec fn saved_before(steps: Seq<StepView>, outcomes: Seq<OutcomeView>, i: int) -> bool {
    &&& i >= 2
    &&& steps[i - 2] == StepView::SaveActive
    &&& outcomes[i - 1] == OutcomeView::Done(Ok(()))
}

proof fn lemma_query_next_facts(
    p: PathsView,
    name: Seq<char>,
    period_days: nat,
    json: bool,
    s: nat,
    o: OutcomeView,
)
    ensures
        stats_next(p, name, period_days, json, s, o).1 is QueryStats ==> s == 4,
        stats_next(p, name, period_days, json, s, o).0 == 4 ==> s == 3 && failure(o) is None,
        stats_next(p, name, period_days, json, s, o).0 == 3 ==> stats_next(p, name, period_days, json, s, o).1
            == StepView::SaveActive,
        list_next(json, s, o).1 is ListUsage ==> s == 4,
        list_next(json, s, o).0 == 4 ==> s == 3 && failure(o) is None,
        list_next(json, s, o).0 == 3 ==> list_next(json, s, o).1 == StepView::SaveActive,
{
    reveal(stats_next);
    reveal(list_next);
}

/// `stats` and `list` save the current login before they query: in every
/// run, the step that queries comes two steps after a successful save of
/// Codex's login into the active profile, so the query never reads a
/// profile's stored login while a newer one waits in Codex's cache.
pub proof fn law_queries_follow_a_save(
    p: PathsView,
    name: Seq<char>,
    period_days: nat,
    json: bool,
    stats_outcomes: Seq<OutcomeView>,
    list_outcomes: Seq<OutcomeView>,
)
    requires
        exchange(stats_machine(p, name, period_days, json), 0, stats_outcomes),
        exchange(list_machine(json), 0, list_outcomes),
    ensures
        forall|i: int|
            0 <= i < stats_outcomes.len() && (#[trigger] run(
                stats_machine(p, name, period_days, json),
                0,
                stats_outcomes,
            ).1[i] is QueryStats) ==> saved_before(
                run(stats_machine(p, name, period_days, json), 0, stats_outcomes).1,
                stats_outcomes,
                i,
            ),
        forall|i: int|
            0 <= i < list_outcomes.len() && (#[trigger] run(list_machine(json), 0, list_outcomes).1[i]
                is ListUsage) ==> saved_before(run(list_machine(json), 0, list_outcomes).1, list_outcomes, i),
{
    let m = stats_machine(p, name, period_days, json);
    let steps = run(m, 0, stats_outcomes).1;
    assert forall|i: int| 0 <= i < stats_outcomes.len() && (#[trigger] steps[i] is QueryStats) implies saved_before(
        steps,
        stats_outcomes,
        i,
    ) by {
        lemma_run_at(m, 0, stats_outcomes, i);
        lemma_query_next_facts(p, name, period_days, json, state_at(m, 0, stats_outcomes, i), stats_outcomes[i]);
        lemma_run_at(m, 0, stats_outcomes, i - 1);
        lemma_query_next_facts(
            p,
            name,
            period_days,
            json,
            state_at(m, 0, stats_outcomes, i - 1),
            stats_outcomes[i - 1],
        );
        lemma_run_at(m, 0, stats_outcomes, i - 2);
        lemma_query_next_facts(
            p,
            name,
            period_days,
            json,
            state_at(m, 0, stats_outcomes, i - 2),
            stats_outcomes[i - 2],
        );
        assert(stats_outcomes[i - 1].kind() == reports(steps[i - 2]));
        match stats_outcomes[i - 1] {
            OutcomeView::Done(Ok(u)) => {
                assert(u == ());
            },
            _ => {},
        }
    }
    let l = list_machine(json);
    let lsteps = run(l, 0, list_outcomes).1;
    assert forall|i: int| 0 <= i < list_outcomes.len() && (#[trigger] lsteps[i] is ListUsage) implies saved_before(
        lsteps,
        list_outcomes,
        i,
    ) by {
        lemma_run_at(l, 0, list_outcomes, i);
        lemma_query_next_facts(p, name, period_days, json, state_at(l, 0, list_outcomes, i), list_outcomes[i]);
        lemma_run_at(l, 0, list_outcomes, i - 1);
        lemma_query_next_facts(
            p,
            name,
            period_days,
            json,
            state_at(l, 0, list_outcomes, i - 1),
            list_outcomes[i - 1],
        );
        lemma_run_at(l, 0, list_outcomes, i - 2);
        lemma_query_next_facts(
            p,
            name,
            period_days,
            json,
            state_at(l, 0, list_outcomes, i - 2),
            list_outcomes[i - 2],
        );
        assert(list_outcomes[i - 1].kind() == reports(lsteps[i - 2]));
        match list_outcomes[i - 1] {
            OutcomeView::Done(Ok(u)) => {
                assert(u == ());
            },
            _ => {},
        }
    }
}

} // verus!
