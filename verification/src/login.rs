//! `login <name>`: run Codex's own login and keep what it writes as a
//! profile. When the login does not succeed, the login and the active
//! profile that were there before are put back.
use vstd::prelude::*;
use crate::commands::{FINISHED, exists_error, exists_message, failure, finish, finished, status};
use crate::flow::{
    Line, LineView, Outcome, OutcomeView, Step, StepView, exchange, lemma_run_at, opt_view, reports,
    run, state_at,
};
use crate::names::{NAME_RULE, valid_profile_name, validate_name};
use crate::paths::{Paths, PathsView, auth_path, profile_path};
use crate::style::{ANSI_CYAN, ANSI_GREEN};
use crate::text::append_str;

verus! {

/// Where a login stands: its stage, the bytes of the authentication cache
/// and the active profile as they were before the login started, and the
/// error the command ends with if the login fails.
pub struct LoginState {
    pub stage: nat,
    pub auth: Option<Seq<u8>>,
    pub active: Option<Seq<char>>,
    pub message: Seq<char>,
}

/// `"cannot start 'codex login': <error>; restored the previous active profile"`.
pub open spec fn start_failed_message(error: Seq<char>) -> Seq<char> {
    "cannot start 'codex login': "@ + error + "; restored the previous active profile"@
}

/// `"Codex login failed; restored the previous active profile (exit <status>)"`.
pub open spec fn login_failed_message(status: Seq<char>) -> Seq<char> {
    "Codex login failed; restored the previous active profile (exit "@ + status + ")"@
}

/// The state after a transition that only changes the stage.
pub open spec fn at(s: LoginState, stage: nat) -> LoginState {
    LoginState { stage, ..s }
}

/// The transitions of `login <name>`: check the name and refuse to replace
/// an existing profile without `--force`; take the lock, check the setup,
/// save the current login into the active profile; keep the bytes of the
/// authentication cache and the active profile, remove the cache and run
/// `codex login`. If it cannot start, fails, or leaves no login behind,
/// put back the cache and the active profile and fail; otherwise save the
/// new login as the profile and make it active.
#[verifier::opaque]
pub open spec fn login_next(
    p: PathsView,
    name: Seq<char>,
    force: bool,
    device_auth: bool,
    s: LoginState,
    o: OutcomeView,
) -> (LoginState, StepView) {
    let stop = |r: Result<(), Seq<char>>| (at(s, FINISHED as nat), StepView::Finish { result: r });
    if s.stage == 0 {
        if valid_profile_name(name) {
            (at(s, 1), StepView::PathExists { path: profile_path(p, name) })
        } else {
            stop(Err(NAME_RULE@))
        }
    } else if s.stage == 1 {
        if o == OutcomeView::Found(true) && !force {
            stop(Err(exists_message(name)))
        } else {
            (at(s, 2), StepView::AcquireLock)
        }
    } else if s.stage == 2 {
        match failure(o) {
            Some(e) => stop(Err(e)),
            None => (at(s, 3), StepView::EnsureInitialized),
        }
    } else if s.stage == 3 {
        match failure(o) {
            Some(e) => stop(Err(e)),
            None => (at(s, 4), StepView::SaveActive),
        }
    } else if s.stage == 4 {
        match failure(o) {
            Some(e) => stop(Err(e)),
            None => (at(s, 5), StepView::ReadAuth),
        }
    } else if s.stage == 5 {
        let auth = match o {
            OutcomeView::Content(c) => c,
            _ => None,
        };
        (LoginState { stage: 6, auth, ..s }, StepView::ReadActive)
    } else if s.stage == 6 {
        match o {
            OutcomeView::Active(Err(e)) => stop(Err(e)),
            OutcomeView::Active(Ok(a)) => (
                LoginState { stage: 7, active: a, ..s },
                StepView::RemoveAuth,
            ),
            _ => (LoginState { stage: 7, active: None, ..s }, StepView::RemoveAuth),
        }
    } else if s.stage == 7 {
        match failure(o) {
            Some(e) => stop(Err(e)),
            None => (
                at(s, 8),
                StepView::Print {
                    line: LineView::Status {
                        prefix: "Starting Codex login for profile "@,
                        name: name,
                        suffix: "..."@,
                        color: ANSI_CYAN@,
                    },
                },
            ),
        }
    } else if s.stage == 8 {
        (at(s, 9), StepView::RunLogin { device_auth })
    } else if s.stage == 9 {
        match o {
            OutcomeView::Exit(Err(e)) => (
                LoginState { stage: 10, message: start_failed_message(e), ..s },
                StepView::RestoreAuth { content: s.auth },
            ),
            OutcomeView::Exit(Ok((true, st))) => (
                LoginState { stage: 12, message: login_failed_message(st), ..s },
                StepView::CheckAuthFile { path: auth_path(p) },
            ),
            OutcomeView::Exit(Ok((false, st))) => (
                LoginState { stage: 10, message: login_failed_message(st), ..s },
                StepView::RestoreAuth { content: s.auth },
            ),
            _ => (
                LoginState { stage: 10, message: login_failed_message(Seq::empty()), ..s },
                StepView::RestoreAuth { content: s.auth },
            ),
        }
    } else if s.stage == 10 {
        match failure(o) {
            Some(e) => stop(Err(e)),
            None => (at(s, 11), StepView::WriteActive { name: s.active }),
        }
    } else if s.stage == 11 {
        match failure(o) {
            Some(e) => stop(Err(e)),
            None => stop(Err(s.message)),
        }
    } else if s.stage == 12 {
        match failure(o) {
            Some(_) => (at(s, 10), StepView::RestoreAuth { content: s.auth }),
            None => (at(s, 13), StepView::Copy { from: auth_path(p), to: profile_path(p, name) }),
        }
    } else if s.stage == 13 {
        match failure(o) {
            Some(e) => stop(Err(e)),
            None => (at(s, 14), StepView::WriteActive { name: Some(name) }),
        }
    } else if s.stage == 14 {
        match failure(o) {
            Some(e) => stop(Err(e)),
            None => (
                at(s, 15),
                StepView::Print {
                    line: LineView::Status {
                        prefix: "Profile "@,
                        name: name,
                        suffix: " is logged in and active."@,
                        color: ANSI_GREEN@,
                    },
                },
            ),
        }
    } else {
        stop(Ok(()))
    }
}

/// `login <name> [--force] [--device-auth]`.
pub struct LoginFlow {
    pub paths: Paths,
    pub name: String,
    pub force: bool,
    pub device_auth: bool,
    pub stage: u32,
    pub auth: Option<Vec<u8>>,
    pub active: Option<String>,
    pub message: String,
}

fn copy_bytes(content: &Option<Vec<u8>>) -> (r: Option<Vec<u8>>)
    ensures
        match (r, *content) {
            (Some(a), Some(b)) => a@ == b@,
            (None, None) => true,
            _ => false,
        },
{
    match content {
        Some(v) => {
            let c = v.clone();
            assert(c@ =~= v@);
            Some(c)
        },
        None => None,
    }
}

fn copy_name(name: &Option<String>) -> (r: Option<String>)
    ensures
        opt_view(r) == opt_view(*name),
{
    match name {
        Some(n) => Some(n.clone()),
        None => None,
    }
}

fn start_failed(error: &str) -> (r: String)
    ensures
        r@ == start_failed_message(error@),
{
    let mut m = String::from_str("cannot start 'codex login': ");
    append_str(&mut m, error);
    append_str(&mut m, "; restored the previous active profile");
    m
}

fn login_failed(status: &str) -> (r: String)
    ensures
        r@ == login_failed_message(status@),
{
    let mut m = String::from_str("Codex login failed; restored the previous active profile (exit ");
    append_str(&mut m, status);
    append_str(&mut m, ")");
    m
}

impl LoginFlow {
    /// The state of the login as the transitions see it.
    pub open spec fn state(&self) -> LoginState {
        LoginState {
            stage: self.stage as nat,
            auth: match self.auth {
                Some(c) => Some(c@),
                None => None,
            },
            active: opt_view(self.active),
            message: self.message@,
        }
    }

    /// The next step, given what the last one gave.
    pub fn step(&mut self, outcome: Outcome) -> (r: Step)
        ensures
            (final(self).state(), r@) == login_next(
                old(self).paths@,
                old(self).name@,
                old(self).force,
                old(self).device_auth,
                old(self).state(),
                outcome@,
            ),
            final(self).paths == old(self).paths,
            final(self).name == old(self).name,
            final(self).force == old(self).force,
            final(self).device_auth == old(self).device_auth,
    {
        proof {
            reveal(login_next);
        }
        let ghost s = self.state();
        let name = self.name.as_str();
        if self.stage == 0 {
            match validate_name(name) {
                Ok(()) => {
                    self.stage = 1;
                    Step::PathExists { path: self.paths.profile(name) }
                },
                Err(e) => {
                    self.stage = FINISHED;
                    finished(Err(e))
                },
            }
        } else if self.stage == 1 {
            match outcome {
                Outcome::Found(true) if !self.force => {
                    self.stage = FINISHED;
                    finished(Err(exists_error(name)))
                },
                _ => {
                    self.stage = 2;
                    Step::AcquireLock
                },
            }
        } else if self.stage == 2 || self.stage == 3 || self.stage == 4 {
            match outcome {
                Outcome::Done(Err(e)) => {
                    self.stage = FINISHED;
                    finished(Err(e))
                },
                _ => {
                    if self.stage == 2 {
                        self.stage = 3;
                        Step::EnsureInitialized
                    } else if self.stage == 3 {
                        self.stage = 4;
                        Step::SaveActive
                    } else {
                        self.stage = 5;
                        Step::ReadAuth
                    }
                },
            }
        } else if self.stage == 5 {
            self.auth = match outcome {
                Outcome::Content(c) => c,
                _ => None,
            };
            self.stage = 6;
            Step::ReadActive
        } else if self.stage == 6 {
            match outcome {
                Outcome::Active(Err(e)) => {
                    self.stage = FINISHED;
                    finished(Err(e))
                },
                Outcome::Active(Ok(a)) => {
                    self.active = a;
                    self.stage = 7;
                    Step::RemoveAuth
                },
                _ => {
                    self.active = None;
                    self.stage = 7;
                    Step::RemoveAuth
                },
            }
        } else if self.stage == 7 {
            match outcome {
                Outcome::Done(Err(e)) => {
                    self.stage = FINISHED;
                    finished(Err(e))
                },
                _ => {
                    self.stage = 8;
                    status("Starting Codex login for profile ", name, "...", ANSI_CYAN)
                },
            }
        } else if self.stage == 8 {
            self.stage = 9;
            Step::RunLogin { device_auth: self.device_auth }
        } else if self.stage == 9 {
            match outcome {
                Outcome::Exit(Err(e)) => {
                    self.message = start_failed(e.as_str());
                    self.stage = 10;
                    Step::RestoreAuth { content: copy_bytes(&self.auth) }
                },
                Outcome::Exit(Ok(x)) => {
                    self.message = login_failed(x.status.as_str());

                    if x.success {
                        self.stage = 12;
                        Step::CheckAuthFile { path: self.paths.auth() }
                    } else {
                        self.stage = 10;
                        Step::RestoreAuth { content: copy_bytes(&self.auth) }
                    }
                },
                _ => {
                    proof {
                        reveal_strlit("");
                    }
                    self.message = login_failed("");
                    self.stage = 10;
                    Step::RestoreAuth { content: copy_bytes(&self.auth) }
                },
            }
        } else if self.stage == 10 {
            match outcome {
                Outcome::Done(Err(e)) => {
                    self.stage = FINISHED;
                    finished(Err(e))
                },
                _ => {
                    self.stage = 11;
                    Step::WriteActive { name: copy_name(&self.active) }
                },
            }
        } else if self.stage == 11 {
            self.stage = FINISHED;
            match outcome {
                Outcome::Done(Err(e)) => finished(Err(e)),
                _ => finished(Err(self.message.clone())),
            }
        } else if self.stage == 12 {
            match outcome {
                Outcome::Done(Err(_)) => {
                    self.stage = 10;
                    Step::RestoreAuth { content: copy_bytes(&self.auth) }
                },
                _ => {
                    self.stage = 13;
                    Step::Copy { from: self.paths.auth(), to: self.paths.profile(name) }
                },
            }
        } else if self.stage == 13 {
            match outcome {
                Outcome::Done(Err(e)) => {
                    self.stage = FINISHED;
                    finished(Err(e))
                },
                _ => {
                    self.stage = 14;
                    Step::WriteActive { name: Some(self.name.clone()) }
                },
            }
        } else if self.stage == 14 {
            match outcome {
                Outcome::Done(Err(e)) => {
                    self.stage = FINISHED;
                    finished(Err(e))
                },
                _ => {
                    self.stage = 15;
                    status("Profile ", name, " is logged in and active.", ANSI_GREEN)
                },
            }
        } else {
            self.stage = FINISHED;
            finished(Ok(()))
        }
    }
}

/// `login <name> [--force] [--device-auth]`: the machine that runs Codex's
/// login and keeps the result as a profile.
pub fn login(paths: Paths, name: String, force: bool, device_auth: bool) -> (r: LoginFlow)
    ensures
        r.paths == paths,
        r.name == name,
        r.force == force,
        r.device_auth == device_auth,
        r.state() == login_start(),
{
    LoginFlow {
        paths,
        name,
        force,
        device_auth,
        stage: 0,
        auth: None,
        active: None,
        message: String::new(),
    }
}

/// The state a login starts in.
pub open spec fn login_start() -> LoginState {
    LoginState { stage: 0, auth: None, active: None, message: Seq::empty() }
}

/// The machine of `login <name>`.
pub open spec fn login_machine(p: PathsView, name: Seq<char>, force: bool, device_auth: bool) -> spec_fn(
    LoginState,
    OutcomeView,
) -> (LoginState, StepView) {
    |s: LoginState, o: OutcomeView| login_next(p, name, force, device_auth, s, o)
}

/// At index `k` the command read the authentication cache, and the read
/// gave `content`.
pub open spec fn auth_read_at(
    steps: Seq<StepView>,
    outcomes: Seq<OutcomeView>,
    k: int,
    content: Option<Seq<u8>>,
) -> bool {
    &&& 0 <= k
    &&& k + 1 < outcomes.len()
    &&& steps[k] == StepView::ReadAuth
    &&& outcomes[k + 1] == OutcomeView::Content(content)
}

/// At index `k` the command read the active profile, and the read gave
/// `active`.
pub open spec fn active_read_at(
    steps: Seq<StepView>,
    outcomes: Seq<OutcomeView>,
    k: int,
    active: Option<Seq<char>>,
) -> bool {
    &&& 0 <= k
    &&& k + 1 < outcomes.len()
    &&& steps[k] == StepView::ReadActive
    &&& outcomes[k + 1] == OutcomeView::Active(Ok(active))
}

proof fn lemma_login_next_facts(
    p: PathsView,
    name: Seq<char>,
    force: bool,
    device_auth: bool,
    s: LoginState,
    o: OutcomeView,
)
    ensures
        ({
            let (t, step) = login_next(p, name, force, device_auth, s, o);
            &&& t.stage == 5 ==> step == StepView::ReadAuth
            &&& t.stage == 6 ==> step == StepView::ReadActive && s.stage == 5
            &&& s.stage == 5 ==> t.stage == 6 && (o is Content ==> o == OutcomeView::Content(t.auth))
            &&& (s.stage == 6 && 7 <= t.stage <= 15 && o is Active) ==> o == OutcomeView::Active(Ok(t.active))
            &&& (6 <= t.stage <= 15) ==> 5 <= s.stage <= 15
            &&& (6 <= s.stage <= 15 && 6 <= t.stage <= 15) ==> t.auth == s.auth
            &&& (7 <= t.stage <= 15) ==> 6 <= s.stage <= 15
            &&& (7 <= s.stage <= 15 && 7 <= t.stage <= 15) ==> t.active == s.active
            &&& step is RestoreAuth ==> (s.stage == 9 || s.stage == 12) && t.stage == 10 && step
                == (StepView::RestoreAuth { content: s.auth })
            &&& (s.stage == 10 && failure(o) is None) ==> step == (StepView::WriteActive {
                name: s.active,
            })
            &&& step is RunLogin ==> t.stage == 9
            &&& (s.stage == 9 && !(o matches OutcomeView::Exit(Ok((true, _))))) ==> step is RestoreAuth
            &&& step is CheckAuthFile ==> t.stage == 12
            &&& (s.stage == 12 && failure(o) is Some) ==> step is RestoreAuth
        }),
{
    reveal(login_next);
}

/// What the command read before stays known: once the login has read the
/// authentication cache, the state holds what the read gave; once it has
/// read the active profile, the state holds that too.
proof fn lemma_login_history(
    p: PathsView,
    name: Seq<char>,
    force: bool,
    device_auth: bool,
    outcomes: Seq<OutcomeView>,
    n: int,
)
    requires
        exchange(login_machine(p, name, force, device_auth), login_start(), outcomes),
        0 <= n <= outcomes.len(),
    ensures
        ({
            let m = login_machine(p, name, force, device_auth);
            let steps = run(m, login_start(), outcomes).1;
            let t = state_at(m, login_start(), outcomes, n);
            &&& (6 <= t.stage <= 15) ==> exists|k: int|
                k + 1 < n && #[trigger] auth_read_at(steps, outcomes, k, t.auth)
            &&& (7 <= t.stage <= 15) ==> exists|k: int|
                k + 1 < n && #[trigger] active_read_at(steps, outcomes, k, t.active)
        }),
    decreases n,
{
    let m = login_machine(p, name, force, device_auth);
    let start = login_start();
    let steps = run(m, start, outcomes).1;
    if n > 0 {
        lemma_login_history(p, name, force, device_auth, outcomes, n - 1);
        lemma_run_at(m, start, outcomes, n - 1);
        let s = state_at(m, start, outcomes, n - 1);
        let o = outcomes[n - 1];
        let t = state_at(m, start, outcomes, n);
        lemma_login_next_facts(p, name, force, device_auth, s, o);
        if s.stage == 5 || s.stage == 6 {
            assert(n - 1 > 0);
            lemma_run_at(m, start, outcomes, n - 2);
            let r = state_at(m, start, outcomes, n - 2);
            lemma_login_next_facts(p, name, force, device_auth, r, outcomes[n - 2]);
            assert(o.kind() == reports(steps[n - 2]));
            if s.stage == 5 {
                assert(auth_read_at(steps, outcomes, n - 2, t.auth));
            } else if 7 <= t.stage <= 15 {
                assert(active_read_at(steps, outcomes, n - 2, t.active));
            }
        }
        if 6 <= s.stage <= 15 && 6 <= t.stage <= 15 {
            let k = choose|k: int| k + 1 < n - 1 && #[trigger] auth_read_at(steps, outcomes, k, s.auth);
            assert(auth_read_at(steps, outcomes, k, t.auth));
        }
        if 7 <= s.stage <= 15 && 7 <= t.stage <= 15 {
            let k = choose|k: int| k + 1 < n - 1 && #[trigger] active_read_at(steps, outcomes, k, s.active);
            assert(active_read_at(steps, outcomes, k, t.active));
        }
    } else {
        assert(outcomes.take(0).len() == 0);
    }
}

/// A login that does not succeed puts back what was there before: in
/// every run of `login`, when `codex login` cannot start or fails, or
/// succeeds without leaving a login behind, the next step restores the
/// authentication cache; every such restore writes back exactly the bytes
/// the command read from the cache before the login started, and once it
/// has succeeded the next step records as active the profile that was
/// active before.
pub proof fn law_login_failure_restores(
    p: PathsView,
    name: Seq<char>,
    force: bool,
    device_auth: bool,
    outcomes: Seq<OutcomeView>,
)
    requires
        exchange(login_machine(p, name, force, device_auth), login_start(), outcomes),
    ensures
        ({
            let steps = run(login_machine(p, name, force, device_auth), login_start(), outcomes).1;
            &&& forall|i: int|
                0 <= i && i + 1 < outcomes.len() && (#[trigger] steps[i] is RunLogin) && !(
                outcomes[i + 1] matches OutcomeView::Exit(Ok((true, _)))) ==> steps[i + 1] is RestoreAuth
            &&& forall|i: int|
                0 <= i && i + 1 < outcomes.len() && (#[trigger] steps[i] is CheckAuthFile) && failure(
                    outcomes[i + 1],
                ) is Some ==> steps[i + 1] is RestoreAuth
            &&& forall|i: int|
                0 <= i < outcomes.len() && (#[trigger] steps[i] is RestoreAuth) ==> exists|k: int|
                    k < i && #[trigger] auth_read_at(steps, outcomes, k, steps[i]->RestoreAuth_content)
            &&& forall|i: int|
                0 <= i && i + 1 < outcomes.len() && (#[trigger] steps[i] is RestoreAuth) && outcomes[i
                    + 1] == OutcomeView::Done(Ok(())) ==> exists|k: int|
                    k < i && #[trigger] active_read_at(steps, outcomes, k, steps[i + 1]->WriteActive_name)
                        && steps[i + 1] is WriteActive
        }),
{
    let m = login_machine(p, name, force, device_auth);
    let start = login_start();
    let steps = run(m, start, outcomes).1;
    assert forall|i: int|
        0 <= i && i + 1 < outcomes.len() && (#[trigger] steps[i] is RunLogin) && !(outcomes[i
            + 1] matches OutcomeView::Exit(Ok((true, _)))) implies steps[i + 1] is RestoreAuth by {
        lemma_run_at(m, start, outcomes, i);
        lemma_run_at(m, start, outcomes, i + 1);
        lemma_login_next_facts(p, name, force, device_auth, state_at(m, start, outcomes, i), outcomes[i]);
        lemma_login_next_facts(
            p,
            name,
            force,
            device_auth,
            state_at(m, start, outcomes, i + 1),
            outcomes[i + 1],
        );
    }
    assert forall|i: int|
        0 <= i && i + 1 < outcomes.len() && (#[trigger] steps[i] is CheckAuthFile) && failure(
            outcomes[i + 1],
        ) is Some implies steps[i + 1] is RestoreAuth by {
        lemma_run_at(m, start, outcomes, i);
        lemma_run_at(m, start, outcomes, i + 1);
        lemma_login_next_facts(p, name, force, device_auth, state_at(m, start, outcomes, i), outcomes[i]);
        lemma_login_next_facts(
            p,
            name,
            force,
            device_auth,
            state_at(m, start, outcomes, i + 1),
            outcomes[i + 1],
        );
    }
    assert forall|i: int| 0 <= i < outcomes.len() && (#[trigger] steps[i] is RestoreAuth) implies exists|k: int|
        k < i && #[trigger] auth_read_at(steps, outcomes, k, steps[i]->RestoreAuth_content) by {
        lemma_run_at(m, start, outcomes, i);
        let s = state_at(m, start, outcomes, i);
        lemma_login_next_facts(p, name, force, device_auth, s, outcomes[i]);
        lemma_login_history(p, name, force, device_auth, outcomes, i);
        let k = choose|k: int| k + 1 < i && #[trigger] auth_read_at(steps, outcomes, k, s.auth);
        assert(auth_read_at(steps, outcomes, k, steps[i]->RestoreAuth_content));
    }
    assert forall|i: int|
        0 <= i && i + 1 < outcomes.len() && (#[trigger] steps[i] is RestoreAuth) && outcomes[i + 1]
            == OutcomeView::Done(Ok(())) implies exists|k: int|
        k < i && #[trigger] active_read_at(steps, outcomes, k, steps[i + 1]->WriteActive_name) && steps[i
            + 1] is WriteActive by {
        lemma_run_at(m, start, outcomes, i);
        lemma_run_at(m, start, outcomes, i + 1);
        let s = state_at(m, start, outcomes, i);
        let t = state_at(m, start, outcomes, i + 1);
        lemma_login_next_facts(p, name, force, device_auth, s, outcomes[i]);
        lemma_login_next_facts(p, name, force, device_auth, t, outcomes[i + 1]);
        lemma_login_history(p, name, force, device_auth, outcomes, i);
        let k = choose|k: int| k + 1 < i && #[trigger] active_read_at(steps, outcomes, k, s.active);
        assert(active_read_at(steps, outcomes, k, steps[i + 1]->WriteActive_name));
    }
}

} // verus!
