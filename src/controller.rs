use crate::thread_rt::{Builder, RTParams, Scheduling, spec_needs_priority};
use std::sync::atomic::{AtomicI8, Ordering};
use std::sync::Arc;
use vstd::prelude::*;

verus! {

/// The lifecycle state of a controller.
#[derive(Debug, Clone, Copy, PartialEq, Eq, Structural)]
pub enum ControllerStateKind {
    /// The controller is starting.
    Starting,
    /// The controller is active (accepting tasks).
    Active,
    /// The controller is running (tasks are being executed).
    Running,
    /// The controller is stopping.
    Stopping,
    /// The controller is stopped.
    Stopped,
    /// The state is unknown.
    Unknown,
}

/// The number that stands for a state in the shared beacon.
pub open spec fn spec_code(k: ControllerStateKind) -> int {
    match k {
        ControllerStateKind::Starting => 0,
        ControllerStateKind::Active => 1,
        ControllerStateKind::Running => 2,
        ControllerStateKind::Stopping => -1,
        ControllerStateKind::Stopped => -100,
        ControllerStateKind::Unknown => -128,
    }
}

/// The state that a number of the beacon stands for; any other number is
/// `Unknown`.
pub open spec fn spec_from_code(v: i8) -> ControllerStateKind {
    if v == 0 {
        ControllerStateKind::Starting
    } else if v == 1 {
        ControllerStateKind::Active
    } else if v == 2 {
        ControllerStateKind::Running
    } else if v == -1 {
        ControllerStateKind::Stopping
    } else if v == -100 {
        ControllerStateKind::Stopped
    } else {
        ControllerStateKind::Unknown
    }
}

/// Online means starting or later: every state whose number is not negative.
pub open spec fn spec_is_online(k: ControllerStateKind) -> bool {
    spec_code(k) >= 0
}

impl ControllerStateKind {
    /// The number that stands for this state.
    pub fn code(&self) -> (r: i8)
        ensures
            r == spec_code(*self),
    {
        match self {
            ControllerStateKind::Starting => 0,
            ControllerStateKind::Active => 1,
            ControllerStateKind::Running => 2,
            ControllerStateKind::Stopping => -1,
            ControllerStateKind::Stopped => -100,
            ControllerStateKind::Unknown => -128,
        }
    }

    /// The state a number stands for.
    pub fn from_code(v: i8) -> (r: Self)
        ensures
            r == spec_from_code(v),
    {
        if v == 0 {
            ControllerStateKind::Starting
        } else if v == 1 {
            ControllerStateKind::Active
        } else if v == 2 {
            ControllerStateKind::Running
        } else if v == -1 {
            ControllerStateKind::Stopping
        } else if v == -100 {
            ControllerStateKind::Stopped
        } else {
            ControllerStateKind::Unknown
        }
    }

    /// Whether the controller is online: starting, active or running.
    pub fn is_online(&self) -> (r: bool)
        ensures
            r == spec_is_online(*self),
    {
        self.code() >= 0
    }
}

/// Every state comes back from its own number.
pub proof fn lemma_code_round_trip(k: ControllerStateKind)
    ensures
        spec_from_code(spec_code(k) as i8) == k,
{
}

/// The controller state beacon, shared by the controller and its workers.
/// Cloning it shares the same state.
#[derive(Clone)]
pub struct State {
    state: Arc<AtomicI8>,
}

impl State {
    /// A beacon in the `Starting` state.
    pub fn new() -> (r: Self) {
        State { state: Arc::new(AtomicI8::new(0)) }
    }

    /// Sets the state.
    pub fn set(&self, state: ControllerStateKind) {
        self.state.store(state.code(), Ordering::SeqCst);
    }

    /// The current state. Other threads may set it at any time, so any
    /// state may come back.
    pub fn get(&self) -> (r: ControllerStateKind) {
        ControllerStateKind::from_code(self.state.load(Ordering::SeqCst))
    }

    /// Whether the controller is online (starting, active or running).
    pub fn is_online(&self) -> (r: bool) {
        self.get().is_online()
    }
}

/// The options of a worker, known when it is spawned.
pub trait WorkerOptions {
    /// The worker's unique name (at most 15 bytes, the limit of a thread
    /// name).
    fn worker_name(&self) -> &str;

    /// The stack size of the worker thread.
    fn worker_stack_size(&self) -> Option<usize> {
        None
    }

    /// The scheduling policy of the worker thread.
    fn worker_scheduling(&self) -> Scheduling {
        Scheduling::Other
    }

    /// The scheduling priority of the worker thread.
    fn worker_priority(&self) -> Option<i32> {
        None
    }

    /// The CPUs the worker thread runs on.
    fn worker_cpu_ids(&self) -> Option<&[usize]> {
        None
    }

    /// Whether the worker blocks its thread and should not be joined.
    fn worker_is_blocking(&self) -> bool {
        false
    }
}

/// The thread configuration of a worker from its options: the name, the
/// scheduling policy (a real-time one gets priority 1 unless a priority is
/// given), the priority and CPUs when given, the blocking flag and the
/// stack size when given.
pub fn worker_builder(
    name: &str,
    stack_size: Option<usize>,
    scheduling: Scheduling,
    priority: Option<i32>,
    cpu_ids: Option<&[usize]>,
    blocking: bool,
) -> (r: Builder)
    ensures
        r.spec_name() == Some(name@),
        r.spec_name_len() == name.len(),
        r.spec_stack_size() == stack_size,
        r.spec_blocking() == blocking,
        !r.spec_park_on_errors(),
        r.spec_rt_params().spec_scheduling() == scheduling,
        r.spec_rt_params().spec_priority() == (match priority {
            Some(p) => Some(p),
            None => if spec_needs_priority(scheduling) {
                Some(1i32)
            } else {
                None
            },
        }),
        r.spec_rt_params().spec_cpu_ids() == (match cpu_ids {
            Some(ids) => ids@,
            None => Seq::<usize>::empty(),
        }),
{
    let mut rt_params = RTParams::new().set_scheduling(scheduling);
    if let Some(p) = priority {
        rt_params = rt_params.set_priority(p);
    }
    if let Some(ids) = cpu_ids {
        rt_params = rt_params.set_cpu_ids(ids);
    }
    let mut builder = Builder::new().name(name).rt_params(rt_params).blocking(blocking);
    if let Some(size) = stack_size {
        builder = builder.stack_size(size);
    }
    builder
}

/// A signal the controller handles.
#[derive(Debug, Clone, Copy, PartialEq, Eq, Structural)]
pub enum ControlSignal {
    /// SIGTERM.
    Term,
    /// SIGINT.
    Int,
    /// SIGUSR2.
    Usr2,
}

/// What the signal handler does for a signal.
#[derive(Debug, Clone, Copy, PartialEq, Eq, Structural)]
pub enum SignalAction {
    /// Start a watchdog that kills the process tree after the shutdown
    /// timeout, call the shutdown handler, then set the state to
    /// `Stopping`.
    Shutdown { kill_after_nanos: u64 },
    /// Call the reload handler and, if it succeeds, replace the process
    /// with a fresh image of the same executable.
    Reload,
}

/// The action for a signal: TERM and INT shut down under the watchdog,
/// USR2 reloads.
pub fn signal_action(sig: ControlSignal, shutdown_timeout_nanos: u64) -> (r: SignalAction)
    ensures
        (sig == ControlSignal::Term || sig == ControlSignal::Int) ==> r == (SignalAction::Shutdown {
            kill_after_nanos: shutdown_timeout_nanos,
        }),
        sig == ControlSignal::Usr2 ==> r == SignalAction::Reload,
{
    match sig {
        ControlSignal::Term | ControlSignal::Int => SignalAction::Shutdown {
            kill_after_nanos: shutdown_timeout_nanos,
        },
        ControlSignal::Usr2 => SignalAction::Reload,
    }
}

/// What the kernel appends to the path of a running executable whose file
/// has been replaced.
pub const DELETED_SUFFIX: &'static str = " (deleted)";

/// `s` without every trailing repetition of `suffix`.
pub open spec fn trim_suffix_all(s: Seq<char>, suffix: Seq<char>) -> Seq<char>
    decreases s.len(),
{
    if suffix.len() > 0 && s.len() >= suffix.len() && s.subrange(
        s.len() - suffix.len(),
        s.len() as int,
    ) == suffix {
        trim_suffix_all(s.subrange(0, s.len() - suffix.len()), suffix)
    } else {
        s
    }
}

/// Relies on str::strip_suffix: the text before `suffix` when `s` ends with
/// it.
#[verifier::external_body]
fn strip_suffix<'a>(s: &'a str, suffix: &str) -> (r: Option<&'a str>)
    ensures
        match r {
            Some(rest) => s@ == rest@ + suffix@,
            None => !(s@.len() >= suffix@.len() && s@.subrange(
                s@.len() - suffix@.len(),
                s@.len() as int,
            ) == suffix@),
        },
{
    s.strip_suffix(suffix)
}

/// The file name to execute on a live reload: the name of the running
/// image without the trailing " (deleted)" marks the kernel adds once the
/// file has been replaced.
pub fn executable_file_name(name: &str) -> (r: String)
    ensures
        r@ == trim_suffix_all(name@, DELETED_SUFFIX@),
{
    proof {
        reveal_strlit(" (deleted)");
    }
    let mut cur: &str = name;
    loop
        invariant
            trim_suffix_all(cur@, DELETED_SUFFIX@) == trim_suffix_all(name@, DELETED_SUFFIX@),
            DELETED_SUFFIX@.len() == 10,
        decreases cur@.len(),
    {
        match strip_suffix(cur, DELETED_SUFFIX) {
            Some(rest) => {
                proof {
                    assert(cur@.subrange(0, cur@.len() - 10) =~= rest@);
                    assert(cur@.subrange(cur@.len() - 10, cur@.len() as int) =~= DELETED_SUFFIX@);
                }
                cur = rest;
            },
            None => {
                return cur.to_owned();
            },
        }
    }
}

} // verus!
