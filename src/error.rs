use vstd::prelude::*;

verus! {

/// The error type of the library.
#[derive(Debug)]
pub enum Error {
    /// The channel is full and the value cannot be sent.
    ChannelFull,
    /// The channel is full and an optional value was skipped; callers usually
    /// log this and go on.
    ChannelSkipped,
    /// The channel is closed: every sender or every receiver is gone.
    ChannelClosed,
    /// A receive attempt failed because the channel is empty.
    ChannelEmpty,
    /// A send through the hub failed.
    HubSend(Box<Error>),
    /// A hub client with the given name is already registered.
    HubAlreadyRegistered(String),
    /// An operation did not complete in time.
    Timeout,
    /// A transport failure.
    Comm(String),
    /// The system thread id could not be obtained.
    RTGetTId(i32),
    /// The thread CPU affinity could not be set.
    RTSchedSetAffinity(i32),
    /// The thread scheduling policy could not be set.
    RTSchedSetSchduler(i32),
    /// A task spawned by a supervisor needs a name.
    SupervisorNameNotSpecified,
    /// A task with the given name is already registered.
    SupervisorDuplicateTask(String),
    /// No task with the given name is registered.
    SupervisorTaskNotFound,
    /// Invalid data received or parameters provided.
    InvalidData(String),
    /// The operation is not available on this platform or build.
    Unimplemented,
    /// Any other failure.
    Failed(String),
}

impl Error {
    /// Whether this error only reports a value skipped by its policy.
    pub fn is_data_skipped(&self) -> (r: bool)
        ensures
            r == (*self is ChannelSkipped),
    {
        match self {
            Error::ChannelSkipped => true,
            _ => false,
        }
    }
}

} // verus!
