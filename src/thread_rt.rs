use crate::error::Error;
use vstd::prelude::*;
use vstd::utf8::encode_utf8;

verus! {

/// The longest thread name the system accepts, in bytes.
pub const MAX_THREAD_NAME_LEN: usize = 15;

/// A thread scheduling policy.
#[derive(Debug, Clone, Copy, PartialEq, Eq, Structural)]
pub enum Scheduling {
    /// Round-robin.
    RoundRobin,
    /// First in, first out.
    FIFO,
    /// Idle.
    Idle,
    /// Batch.
    Batch,
    /// Deadline.
    DeadLine,
    /// The default time-sharing policy.
    Other,
}

/// Policies that need a priority.
pub open spec fn spec_needs_priority(s: Scheduling) -> bool {
    s == Scheduling::FIFO || s == Scheduling::RoundRobin || s == Scheduling::DeadLine
}

impl Scheduling {
    /// The default policy, `Other`.
    pub fn default_policy() -> (r: Self)
        ensures
            r == Scheduling::Other,
    {
        Scheduling::Other
    }

    /// Whether the policy is a real-time one that needs a priority.
    pub fn needs_priority(&self) -> (r: bool)
        ensures
            r == spec_needs_priority(*self),
    {
        match self {
            Scheduling::FIFO | Scheduling::RoundRobin | Scheduling::DeadLine => true,
            _ => false,
        }
    }
}

/// The real-time parameters of a thread: its scheduling policy, its
/// priority and the CPUs it may run on.
#[derive(Clone, Debug)]
pub struct RTParams {
    scheduling: Scheduling,
    priority: Option<i32>,
    cpu_ids: Vec<usize>,
}

impl RTParams {
    pub closed spec fn spec_scheduling(&self) -> Scheduling {
        self.scheduling
    }

    pub closed spec fn spec_priority(&self) -> Option<i32> {
        self.priority
    }

    pub closed spec fn spec_cpu_ids(&self) -> Seq<usize> {
        self.cpu_ids@
    }

    /// Default parameters: policy `Other`, no priority, no affinity.
    pub fn new() -> (r: Self)
        ensures
            r.spec_scheduling() == Scheduling::Other,
            r.spec_priority() is None,
            r.spec_cpu_ids() == Seq::<usize>::empty(),
    {
        RTParams { scheduling: Scheduling::Other, priority: None, cpu_ids: Vec::new() }
    }

    /// Sets the scheduling policy; a real-time policy without a priority
    /// gets priority 1.
    pub fn set_scheduling(self, scheduling: Scheduling) -> (r: Self)
        ensures
            r.spec_scheduling() == scheduling,
            r.spec_priority() == (if spec_needs_priority(scheduling) && self.spec_priority() is None {
                Some(1i32)
            } else {
                self.spec_priority()
            }),
            r.spec_cpu_ids() == self.spec_cpu_ids(),
    {
        let mut p = self;
        p.scheduling = scheduling;
        if scheduling.needs_priority() && p.priority.is_none() {
            p.priority = Some(1);
        }
        p
    }

    /// Sets the priority.
    pub fn set_priority(self, priority: i32) -> (r: Self)
        ensures
            r.spec_scheduling() == self.spec_scheduling(),
            r.spec_priority() == Some(priority),
            r.spec_cpu_ids() == self.spec_cpu_ids(),
    {
        let mut p = self;
        p.priority = Some(priority);
        p
    }

    /// Sets the CPUs the thread may run on.
    pub fn set_cpu_ids(self, ids: &[usize]) -> (r: Self)
        ensures
            r.spec_scheduling() == self.spec_scheduling(),
            r.spec_priority() == self.spec_priority(),
            r.spec_cpu_ids() == ids@,
    {
        let mut v: Vec<usize> = Vec::new();
        let mut i: usize = 0;
        while i < ids.len()
            invariant
                i <= ids@.len(),
                v@ == ids@.subrange(0, i as int),
            decreases ids@.len() - i,
        {
            v.push(ids[i]);
            i += 1;
        }
        proof {
            assert(ids@.subrange(0, ids@.len() as int) =~= ids@);
        }
        let mut p = self;
        p.cpu_ids = v;
        p
    }

    /// The scheduling policy.
    pub fn scheduling(&self) -> (r: Scheduling)
        ensures
            r == self.spec_scheduling(),
    {
        self.scheduling
    }

    /// The priority.
    pub fn priority(&self) -> (r: Option<i32>)
        ensures
            r == self.spec_priority(),
    {
        self.priority
    }

    /// The CPUs the thread may run on.
    pub fn cpu_ids(&self) -> (r: &[usize])
        ensures
            r@ == self.spec_cpu_ids(),
    {
        self.cpu_ids.as_slice()
    }
}

/// The configuration of a thread to spawn.
#[derive(Clone, Debug)]
pub struct Builder {
    name: Option<String>,
    stack_size: Option<usize>,
    blocking: bool,
    rt_params: RTParams,
    park_on_errors: bool,
}

impl Builder {
    pub closed spec fn spec_name(&self) -> Option<Seq<char>> {
        match self.name {
            Some(n) => Some(n@),
            None => None,
        }
    }

    /// The length of the name in bytes (zero without a name).
    pub closed spec fn spec_name_len(&self) -> usize {
        match self.name {
            Some(n) => encode_utf8(n@).len() as usize,
            None => 0,
        }
    }

    pub closed spec fn spec_stack_size(&self) -> Option<usize> {
        self.stack_size
    }

    pub closed spec fn spec_blocking(&self) -> bool {
        self.blocking
    }

    pub closed spec fn spec_rt_params(&self) -> RTParams {
        self.rt_params
    }

    pub closed spec fn spec_park_on_errors(&self) -> bool {
        self.park_on_errors
    }

    /// A builder with no name, the default stack size, not blocking, default
    /// parameters, and a thread that panics if its setup fails.
    pub fn new() -> (r: Self)
        ensures
            r.spec_name() is None,
            r.spec_stack_size() is None,
            !r.spec_blocking(),
            r.spec_rt_params().spec_scheduling() == Scheduling::Other,
            r.spec_rt_params().spec_priority() is None,
            r.spec_rt_params().spec_cpu_ids() == Seq::<usize>::empty(),
            !r.spec_park_on_errors(),
    {
        Builder {
            name: None,
            stack_size: None,
            blocking: false,
            rt_params: RTParams::new(),
            park_on_errors: false,
        }
    }

    /// Sets the thread name.
    pub fn name(self, name: &str) -> (r: Self)
        ensures
            r.spec_name() == Some(name@),
            r.spec_name_len() == name.len(),
            r.spec_stack_size() == self.spec_stack_size(),
            r.spec_blocking() == self.spec_blocking(),
            r.spec_rt_params() == self.spec_rt_params(),
            r.spec_park_on_errors() == self.spec_park_on_errors(),
    {
        let mut b = self;
        b.name = Some(name.to_owned());
        b
    }

    /// Sets the stack size.
    pub fn stack_size(self, size: usize) -> (r: Self)
        ensures
            r.spec_name() == self.spec_name(),
            r.spec_name_len() == self.spec_name_len(),
            r.spec_stack_size() == Some(size),
            r.spec_blocking() == self.spec_blocking(),
            r.spec_rt_params() == self.spec_rt_params(),
            r.spec_park_on_errors() == self.spec_park_on_errors(),
    {
        let mut b = self;
        b.stack_size = Some(size);
        b
    }

    /// Marks the thread as blocking: supervisors do not join it.
    pub fn blocking(self, blocking: bool) -> (r: Self)
        ensures
            r.spec_name() == self.spec_name(),
            r.spec_name_len() == self.spec_name_len(),
            r.spec_stack_size() == self.spec_stack_size(),
            r.spec_blocking() == blocking,
            r.spec_rt_params() == self.spec_rt_params(),
            r.spec_park_on_errors() == self.spec_park_on_errors(),
    {
        let mut b = self;
        b.blocking = blocking;
        b
    }

    /// Sets the real-time parameters.
    pub fn rt_params(self, rt_params: RTParams) -> (r: Self)
        ensures
            r.spec_name() == self.spec_name(),
            r.spec_name_len() == self.spec_name_len(),
            r.spec_stack_size() == self.spec_stack_size(),
            r.spec_blocking() == self.spec_blocking(),
            r.spec_rt_params() == rt_params,
            r.spec_park_on_errors() == self.spec_park_on_errors(),
    {
        let mut b = self;
        b.rt_params = rt_params;
        b
    }

    /// Makes a thread whose setup fails park forever instead of panicking.
    pub fn park_on_errors(self, park: bool) -> (r: Self)
        ensures
            r.spec_name() == self.spec_name(),
            r.spec_name_len() == self.spec_name_len(),
            r.spec_stack_size() == self.spec_stack_size(),
            r.spec_blocking() == self.spec_blocking(),
            r.spec_rt_params() == self.spec_rt_params(),
            r.spec_park_on_errors() == park,
    {
        let mut b = self;
        b.park_on_errors = park;
        b
    }

    /// Fails if the thread name does not fit the system's limit.
    pub fn check_name(&self) -> (r: Result<(), Error>)
        ensures
            r is Ok <==> self.spec_name_len() <= MAX_THREAD_NAME_LEN,
            r is Err ==> r->Err_0 is InvalidData,
    {
        match &self.name {
            Some(n) => {
                if n.as_str().len() > MAX_THREAD_NAME_LEN {
                    Err(Error::InvalidData("thread name is too long (max 15 bytes)".to_owned()))
                } else {
                    Ok(())
                }
            },
            None => Ok(()),
        }
    }

    /// The thread name.
    pub fn get_name(&self) -> (r: Option<&String>)
        ensures
            match r {
                Some(n) => self.spec_name() == Some(n@),
                None => self.spec_name() is None,
            },
    {
        self.name.as_ref()
    }

    /// The stack size.
    pub fn get_stack_size(&self) -> (r: Option<usize>)
        ensures
            r == self.spec_stack_size(),
    {
        self.stack_size
    }

    /// Whether the thread is blocking.
    pub fn is_blocking(&self) -> (r: bool)
        ensures
            r == self.spec_blocking(),
    {
        self.blocking
    }

    /// The real-time parameters.
    pub fn get_rt_params(&self) -> (r: &RTParams)
        ensures
            *r == self.spec_rt_params(),
    {
        &self.rt_params
    }

    /// Whether a thread whose setup fails parks instead of panicking.
    pub fn parks_on_errors(&self) -> (r: bool)
        ensures
            r == self.spec_park_on_errors(),
    {
        self.park_on_errors
    }
}

/// A system call of the thread setup.
#[derive(Debug, Clone, Copy, PartialEq, Eq, Structural)]
pub enum SetupStep {
    /// Set the CPU affinity.
    Affinity,
    /// Set the scheduling policy and priority.
    Scheduler,
}

/// The parent's side of the spawn protocol. The new thread reports its
/// system thread id and waits; the parent applies the affinity (when CPUs
/// are given) and then the policy and priority (when a priority is given),
/// stopping at the first failure, and acknowledges success or failure. In
/// simulated mode no system call is made.
pub struct ThreadSetup {
    tid: i32,
    affinity_due: bool,
    scheduler_due: bool,
    failure: Option<Error>,
}

impl ThreadSetup {
    pub closed spec fn spec_tid(&self) -> i32 {
        self.tid
    }

    pub closed spec fn spec_affinity_due(&self) -> bool {
        self.affinity_due
    }

    pub closed spec fn spec_scheduler_due(&self) -> bool {
        self.scheduler_due
    }

    pub closed spec fn spec_failure(&self) -> Option<Error> {
        self.failure
    }

    /// A thread id that could not be obtained is a failure.
    pub closed spec fn wf(&self) -> bool {
        self.tid < 0 ==> self.failure is Some
    }

    /// The next system call to make, if any.
    pub open spec fn spec_next_step(&self) -> Option<SetupStep> {
        if self.spec_failure() is Some {
            None
        } else if self.spec_affinity_due() {
            Some(SetupStep::Affinity)
        } else if self.spec_scheduler_due() {
            Some(SetupStep::Scheduler)
        } else {
            None
        }
    }

    /// Starts the setup of the thread that reported `tid`. A negative id is
    /// a failure to obtain it.
    pub fn new(tid: i32, params: &RTParams, realtime: bool) -> (r: Self)
        ensures
            r.wf(),
            r.spec_tid() == tid,
            tid < 0 ==> r.spec_failure() == Some(Error::RTGetTId(tid)),
            tid >= 0 ==> r.spec_failure() is None,
            r.spec_affinity_due() == (tid >= 0 && realtime && params.spec_cpu_ids().len() > 0),
            r.spec_scheduler_due() == (tid >= 0 && realtime && params.spec_priority() is Some),
    {
        if tid < 0 {
            ThreadSetup {
                tid,
                affinity_due: false,
                scheduler_due: false,
                failure: Some(Error::RTGetTId(tid)),
            }
        } else {
            ThreadSetup {
                tid,
                affinity_due: realtime && params.cpu_ids.len() > 0,
                scheduler_due: realtime && params.priority.is_some(),
                failure: None,
            }
        }
    }

    /// The next system call to make, if any.
    pub fn next_step(&self) -> (r: Option<SetupStep>)
        ensures
            r == self.spec_next_step(),
    {
        if self.failure.is_some() {
            None
        } else if self.affinity_due {
            Some(SetupStep::Affinity)
        } else if self.scheduler_due {
            Some(SetupStep::Scheduler)
        } else {
            None
        }
    }

    /// Records the result code of the step just made (zero for success).
    /// A failure ends the setup.
    pub fn record(&mut self, step: SetupStep, rc: i32)
        requires
            old(self).wf(),
            old(self).spec_next_step() == Some(step),
        ensures
            final(self).wf(),
            final(self).spec_tid() == old(self).spec_tid(),
            step == SetupStep::Affinity ==> !final(self).spec_affinity_due()
                && final(self).spec_scheduler_due() == old(self).spec_scheduler_due(),
            step == SetupStep::Scheduler ==> !final(self).spec_scheduler_due()
                && final(self).spec_affinity_due() == old(self).spec_affinity_due(),
            rc == 0 ==> final(self).spec_failure() is None,
            rc != 0 && step == SetupStep::Affinity ==> final(self).spec_failure() == Some(
                Error::RTSchedSetAffinity(rc),
            ),
            rc != 0 && step == SetupStep::Scheduler ==> final(self).spec_failure() == Some(
                Error::RTSchedSetSchduler(rc),
            ),
    {
        match step {
            SetupStep::Affinity => {
                self.affinity_due = false;
                if rc != 0 {
                    self.failure = Some(Error::RTSchedSetAffinity(rc));
                }
            },
            SetupStep::Scheduler => {
                self.scheduler_due = false;
                if rc != 0 {
                    self.failure = Some(Error::RTSchedSetSchduler(rc));
                }
            },
        }
    }

    /// Ends the setup: the thread id, or the first failure. The thread is
    /// acknowledged, and runs its body, only on success.
    pub fn finish(self) -> (r: Result<i32, Error>)
        requires
            self.wf(),
            self.spec_next_step() is None,
        ensures
            match self.spec_failure() {
                Some(e) => r == Err::<i32, Error>(e),
                None => r == Ok::<i32, Error>(self.spec_tid()),
            },
            r is Ok ==> self.spec_tid() >= 0,
    {
        match self.failure {
            Some(e) => Err(e),
            None => Ok(self.tid),
        }
    }

}

/// What the new thread does once its setup is acknowledged.
#[derive(Debug, Clone, Copy, PartialEq, Eq, Structural)]
pub enum AdapterAction {
    /// Run the thread body.
    RunBody,
    /// Panic: the setup failed.
    Panic,
    /// Park forever: the setup failed and the builder asked not to panic.
    Park,
}

/// The new thread runs its body only when the parent acknowledged a
/// successful setup; otherwise it panics, or parks if so configured.
pub fn adapter_action(ack: bool, park_on_errors: bool) -> (r: AdapterAction)
    ensures
        (r == AdapterAction::RunBody) == ack,
        !ack && park_on_errors ==> r == AdapterAction::Park,
        !ack && !park_on_errors ==> r == AdapterAction::Panic,
{
    if ack {
        AdapterAction::RunBody
    } else if park_on_errors {
        AdapterAction::Park
    } else {
        AdapterAction::Panic
    }
}

} // verus!
