//! Worker supervision and message-distribution runtime core: policy-aware
//! deques and channels (blocking and asynchronous), a pub/sub hub, interval
//! timing decisions, the controller state beacon and signal decisions, the
//! real-time thread setup protocol, and the small value types and parsers
//! of the surrounding I/O.

pub mod buf;
pub mod controller;
pub mod error;
pub mod hub;
pub mod io;
pub mod pchannel;
pub mod pchannel_async;
pub mod pdeque;
pub mod policy;
pub mod project;
pub mod semaphore;
pub mod serial;
pub mod supervisor;
pub mod system;
pub mod thread_rt;
pub mod time;
pub mod ttlcell;
