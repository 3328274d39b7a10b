//! The worker's lifecycle: when to spawn it, when to spawn it again after it
//! exited, how long to wait before that, and when to give up.
//!
//! The supervisor holds no operating-system handle. The embedding program
//! spawns and kills; it reports what happened and carries out the action it
//! gets back.

use vstd::arithmetic::power2::{lemma_pow2_unfold, pow2};
use vstd::prelude::*;
use vstd::string::*;

verus! {

/// Model of a [`WorkerCommand`].
pub struct WorkerCommandView {
    pub program: Seq<char>,
    pub args: Seq<Seq<char>>,
}

/// How the worker process is launched.
#[derive(Debug, PartialEq, Eq)]
pub struct WorkerCommand {
    pub program: String,
    pub args: Vec<String>,
}

/// The texts of a list of strings, in order.
pub open spec fn text_views(v: Seq<String>) -> Seq<Seq<char>> {
    Seq::new(v.len(), |i: int| v[i]@)
}

impl View for WorkerCommand {
    type V = WorkerCommandView;

    open spec fn view(&self) -> WorkerCommandView {
        WorkerCommandView { program: self.program@, args: text_views(self.args@) }
    }
}

impl Clone for WorkerCommand {
    fn clone(&self) -> (r: Self)
        ensures
            r@ == self@,
    {
        let mut args: Vec<String> = Vec::new();
        let mut i: usize = 0;
        while i < self.args.len()
            invariant
                i <= self.args.len(),
                args.len() == i,
                forall|j: int| 0 <= j < i ==> args@[j]@ == self.args@[j]@,
            decreases self.args.len() - i,
        {
            args.push(self.args[i].clone());
            i += 1;
        }
        assert(text_views(args@) =~= text_views(self.args@));
        WorkerCommand { program: self.program.clone(), args }
    }
}

/// The command line of the Python worker for a configuration file.
pub open spec fn spec_python_worker_command(config_path: Seq<char>) -> WorkerCommandView {
    WorkerCommandView { program: "python"@, args: seq!["-m runtime"@, config_path] }
}

/// Builds the command line of the Python worker: the interpreter, the
/// runtime module, and the path of the configuration file as the last
/// argument.
pub fn python_worker_command(config_path: &str) -> (r: WorkerCommand)
    ensures
        r@ == spec_python_worker_command(config_path@),
{
    let mut args: Vec<String> = Vec::new();
    args.push(String::from_str("-m runtime"));
    args.push(String::from_str(config_path));
    let r = WorkerCommand { program: String::from_str("python"), args };
    assert(r@.args =~= seq!["-m runtime"@, config_path@]);
    r
}

/// How often and how quickly an exited worker is spawned again.
#[derive(Clone, Copy, Debug, PartialEq, Eq, Structural)]
pub struct RestartPolicy {
    /// How many restarts are attempted before giving up.
    pub max_restarts: u32,
    /// The wait before the first restart, in milliseconds.
    pub base_delay_ms: u64,
    /// The longest wait before any restart, in milliseconds.
    pub max_delay_ms: u64,
}

/// Where the worker stands.
#[derive(Clone, Copy, Debug, PartialEq, Eq, Structural)]
pub enum WorkerState {
    /// Never started, or the first spawn failed.
    Idle,
    /// The first spawn is under way.
    Starting,
    /// The worker runs.
    Running,
    /// The worker exited and a restart is under way.
    Restarting,
    /// The restart budget is spent.
    Fatal,
    /// Ended on request.
    Terminated,
}

/// What the embedding program has to do next.
#[derive(Clone, Copy, Debug, PartialEq, Eq, Structural)]
pub enum SupervisorAction {
    /// Nothing.
    Nothing,
    /// Wait `delay_ms` milliseconds, then spawn the worker in place of the
    /// one before, if there was one.
    Spawn { delay_ms: u64 },
    /// End the worker process.
    Kill,
    /// Tell the host that the runtime is beyond recovery.
    Escalate,
}

/// The wait before restart number `attempt` (counted from zero): the base
/// delay, doubled once per earlier restart, never above the cap.
pub open spec fn backoff_delay(base: u64, cap: u64, attempt: nat) -> nat
    decreases attempt,
{
    if attempt == 0 {
        if base <= cap {
            base as nat
        } else {
            cap as nat
        }
    } else {
        let before = backoff_delay(base, cap, (attempt - 1) as nat);
        if 2 * before <= cap {
            2 * before
        } else {
            cap as nat
        }
    }
}

/// The wait is the base delay times two to the number of earlier restarts,
/// cut off at the cap.
pub proof fn lemma_backoff_closed_form(base: u64, cap: u64, attempt: nat)
    ensures
        backoff_delay(base, cap, attempt) == if base * pow2(attempt) <= cap {
            base * pow2(attempt)
        } else {
            cap as int
        },
        backoff_delay(base, cap, attempt) <= cap,
    decreases attempt,
{
    if attempt == 0 {
        assert(pow2(0) == 1) by {
            lemma_pow2_unfold(1);
            vstd::arithmetic::power2::lemma2_to64();
        }
    } else {
        lemma_backoff_closed_form(base, cap, (attempt - 1) as nat);
        lemma_pow2_unfold(attempt);
        let p = pow2((attempt - 1) as nat);
        assert(pow2(attempt) == 2 * p);
        assert(base * (2 * p) == 2 * (base * p)) by (nonlinear_arith);
    }
}

/// The wait never shrinks from one restart to the next.
pub proof fn lemma_backoff_monotonic(base: u64, cap: u64, attempt: nat)
    ensures
        backoff_delay(base, cap, attempt) <= backoff_delay(base, cap, attempt + 1),
        backoff_delay(base, cap, attempt) <= cap,
    decreases attempt,
{
    if attempt > 0 {
        lemma_backoff_monotonic(base, cap, (attempt - 1) as nat);
    }
}

/// Computes the wait before restart number `attempt`.
pub fn compute_backoff(base: u64, cap: u64, attempt: u32) -> (r: u64)
    ensures
        r == backoff_delay(base, cap, attempt as nat),
        r <= cap,
{
    let mut d: u64 = if base <= cap {
        base
    } else {
        cap
    };
    let mut i: u32 = 0;
    while i < attempt
        invariant
            i <= attempt,
            d == backoff_delay(base, cap, i as nat),
            d <= cap,
        decreases attempt - i,
    {
        if d > cap / 2 {
            d = cap;
        } else {
            d = 2 * d;
        }
        i += 1;
    }
    d
}

/// Mathematical state of a supervisor.
pub struct SupervisorModel {
    pub command: WorkerCommandView,
    pub policy: RestartPolicy,
    pub state: WorkerState,
    /// Restarts attempted so far.
    pub restarts: u32,
}

impl SupervisorModel {
    /// The state of a supervisor whose worker was never started.
    pub open spec fn initial(command: WorkerCommandView, policy: RestartPolicy) -> SupervisorModel {
        SupervisorModel { command, policy, state: WorkerState::Idle, restarts: 0 }
    }

    /// Whether the worker runs.
    pub open spec fn is_alive(self) -> bool {
        self.state == WorkerState::Running
    }

    /// Whether another restart is within the budget.
    pub open spec fn may_restart(self) -> bool {
        self.restarts < self.policy.max_restarts
    }

    /// The answer to a lost worker: one more restart on the count, after
    /// the wait that the count so far calls for; or, with the budget spent,
    /// the end.
    pub open spec fn retry(self) -> (SupervisorModel, SupervisorAction) {
        if self.may_restart() {
            (
                SupervisorModel {
                    state: WorkerState::Restarting,
                    restarts: (self.restarts + 1) as u32,
                    ..self
                },
                SupervisorAction::Spawn {
                    delay_ms: backoff_delay(
                        self.policy.base_delay_ms,
                        self.policy.max_delay_ms,
                        self.restarts as nat,
                    ) as u64,
                },
            )
        } else {
            (SupervisorModel { state: WorkerState::Fatal, ..self }, SupervisorAction::Escalate)
        }
    }

    /// The host asks for the worker: a supervisor that is idle or was
    /// terminated spawns it at once; any other ignores the request.
    pub open spec fn start(self) -> (SupervisorModel, SupervisorAction) {
        if self.state == WorkerState::Idle || self.state == WorkerState::Terminated {
            (
                SupervisorModel { state: WorkerState::Starting, ..self },
                SupervisorAction::Spawn { delay_ms: 0 },
            )
        } else {
            (self, SupervisorAction::Nothing)
        }
    }

    /// The spawn succeeded.
    pub open spec fn on_spawned(self) -> SupervisorModel {
        if self.state == WorkerState::Starting || self.state == WorkerState::Restarting {
            SupervisorModel { state: WorkerState::Running, ..self }
        } else {
            self
        }
    }

    /// The spawn failed. A failed first start is left to the host; a failed
    /// restart uses up one restart like an exit does.
    pub open spec fn on_spawn_failed(self) -> (SupervisorModel, SupervisorAction) {
        if self.state == WorkerState::Starting {
            (SupervisorModel { state: WorkerState::Idle, ..self }, SupervisorAction::Nothing)
        } else if self.state == WorkerState::Restarting {
            self.retry()
        } else {
            (self, SupervisorAction::Nothing)
        }
    }

    /// The running worker exited or its streams closed.
    pub open spec fn on_exit(self) -> (SupervisorModel, SupervisorAction) {
        if self.state == WorkerState::Running {
            self.retry()
        } else {
            (self, SupervisorAction::Nothing)
        }
    }

    /// The host asks for the running worker to be replaced. That is done at
    /// once and leaves the restart budget alone; a supervisor whose worker
    /// does not run ignores the request.
    pub open spec fn restart(self) -> (SupervisorModel, SupervisorAction) {
        if self.state == WorkerState::Running {
            (
                SupervisorModel { state: WorkerState::Restarting, ..self },
                SupervisorAction::Spawn { delay_ms: 0 },
            )
        } else {
            (self, SupervisorAction::Nothing)
        }
    }

    /// The host ends the worker.
    pub open spec fn terminate(self) -> (SupervisorModel, SupervisorAction) {
        (
            SupervisorModel { state: WorkerState::Terminated, ..self },
            if self.state == WorkerState::Running || self.state == WorkerState::Starting
                || self.state == WorkerState::Restarting {
                SupervisorAction::Kill
            } else {
                SupervisorAction::Nothing
            },
        )
    }
}

/// Decides over the worker's lifecycle.
#[derive(Debug)]
pub struct Supervisor {
    command: WorkerCommand,
    policy: RestartPolicy,
    state: WorkerState,
    restarts: u32,
}

impl View for Supervisor {
    type V = SupervisorModel;

    closed spec fn view(&self) -> SupervisorModel {
        SupervisorModel {
            command: self.command@,
            policy: self.policy,
            state: self.state,
            restarts: self.restarts,
        }
    }
}

impl Supervisor {
    /// A supervisor for a worker that has not been started.
    pub fn new(command: WorkerCommand, policy: RestartPolicy) -> (r: Self)
        ensures
            r@ == SupervisorModel::initial(command@, policy),
    {
        Supervisor { command, policy, state: WorkerState::Idle, restarts: 0 }
    }

    /// The command that spawns the worker.
    pub fn command(&self) -> (r: &WorkerCommand)
        ensures
            r@ == self@.command,
    {
        &self.command
    }

    /// The restart policy the supervisor was set up with.
    pub fn policy(&self) -> (r: RestartPolicy)
        ensures
            r == self@.policy,
    {
        self.policy
    }

    /// Where the worker stands.
    pub fn state(&self) -> (r: WorkerState)
        ensures
            r == self@.state,
    {
        self.state
    }

    /// Restarts attempted so far.
    pub fn restarts(&self) -> (r: u32)
        ensures
            r == self@.restarts,
    {
        self.restarts
    }

    /// Whether the worker runs.
    pub fn is_alive(&self) -> (r: bool)
        ensures
            r == self@.is_alive(),
    {
        self.state == WorkerState::Running
    }

    /// Whether the restart budget is spent.
    pub fn is_fatal(&self) -> (r: bool)
        ensures
            r == (self@.state == WorkerState::Fatal),
    {
        self.state == WorkerState::Fatal
    }

    fn retry(&mut self) -> (r: SupervisorAction)
        ensures
            (final(self)@, r) == old(self)@.retry(),
    {
        if self.restarts < self.policy.max_restarts {
            let delay_ms = compute_backoff(
                self.policy.base_delay_ms,
                self.policy.max_delay_ms,
                self.restarts,
            );
            self.restarts = self.restarts + 1;
            self.state = WorkerState::Restarting;
            SupervisorAction::Spawn { delay_ms }
        } else {
            self.state = WorkerState::Fatal;
            SupervisorAction::Escalate
        }
    }

    /// The host asks for the worker to be started.
    pub fn start(&mut self) -> (r: SupervisorAction)
        ensures
            (final(self)@, r) == old(self)@.start(),
    {
        if self.state == WorkerState::Idle || self.state == WorkerState::Terminated {
            self.state = WorkerState::Starting;
            SupervisorAction::Spawn { delay_ms: 0 }
        } else {
            SupervisorAction::Nothing
        }
    }

    /// Reports that the spawn succeeded.
    pub fn on_spawned(&mut self)
        ensures
            final(self)@ == old(self)@.on_spawned(),
    {
        if self.state == WorkerState::Starting || self.state == WorkerState::Restarting {
            self.state = WorkerState::Running;
        }
    }

    /// Reports that the spawn failed.
    pub fn on_spawn_failed(&mut self) -> (r: SupervisorAction)
        ensures
            (final(self)@, r) == old(self)@.on_spawn_failed(),
    {
        if self.state == WorkerState::Starting {
            self.state = WorkerState::Idle;
            SupervisorAction::Nothing
        } else if self.state == WorkerState::Restarting {
            self.retry()
        } else {
            SupervisorAction::Nothing
        }
    }

    /// Reports that the worker exited or its streams closed.
    pub fn on_exit(&mut self) -> (r: SupervisorAction)
        ensures
            (final(self)@, r) == old(self)@.on_exit(),
    {
        if self.state == WorkerState::Running {
            self.retry()
        } else {
            SupervisorAction::Nothing
        }
    }

    /// The host asks for the running worker to be replaced.
    pub fn restart(&mut self) -> (r: SupervisorAction)
        ensures
            (final(self)@, r) == old(self)@.restart(),
    {
        if self.state == WorkerState::Running {
            self.state = WorkerState::Restarting;
            SupervisorAction::Spawn { delay_ms: 0 }
        } else {
            SupervisorAction::Nothing
        }
    }

    /// The host ends the worker.
    pub fn terminate(&mut self) -> (r: SupervisorAction)
        ensures
            (final(self)@, r) == old(self)@.terminate(),
    {
        let was = self.state;
        self.state = WorkerState::Terminated;
        if was == WorkerState::Running || was == WorkerState::Starting || was
            == WorkerState::Restarting {
            SupervisorAction::Kill
        } else {
            SupervisorAction::Nothing
        }
    }
}

/// Restarts are bounded: no event raises the count above the budget, and
/// once the budget is spent the next exit is fatal.
pub proof fn lemma_restarts_are_bounded(s: SupervisorModel)
    requires
        s.restarts <= s.policy.max_restarts,
    ensures
        s.start().0.restarts <= s.policy.max_restarts,
        s.on_spawned().restarts <= s.policy.max_restarts,
        s.on_spawn_failed().0.restarts <= s.policy.max_restarts,
        s.on_exit().0.restarts <= s.policy.max_restarts,
        s.terminate().0.restarts <= s.policy.max_restarts,
        s.restart().0.restarts <= s.policy.max_restarts,
        s.state == WorkerState::Running && s.restarts == s.policy.max_restarts ==> s.on_exit()
            == (SupervisorModel { state: WorkerState::Fatal, ..s }, SupervisorAction::Escalate),
{
}

/// A fatal supervisor stays fatal until the host terminates it: no report
/// from the worker leads to another spawn.
pub proof fn lemma_fatal_is_final(s: SupervisorModel)
    requires
        s.state == WorkerState::Fatal,
    ensures
        s.start() == (s, SupervisorAction::Nothing),
        s.on_spawned() == s,
        s.on_spawn_failed() == (s, SupervisorAction::Nothing),
        s.on_exit() == (s, SupervisorAction::Nothing),
        s.restart() == (s, SupervisorAction::Nothing),
{
}

} // verus!
