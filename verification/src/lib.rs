//! Operating-system abstraction layer beneath a readiness-based I/O reactor.
//!
//! A caller registers interest in raw I/O handles and receives uniform
//! readiness notifications, always in oneshot mode: each registration fires
//! at most once until it is explicitly re-armed.

use vstd::prelude::*;

pub mod registry;
pub mod syscall;

pub use registry::Interest;
pub use registry::RawReadiness;
pub use registry::Registration;
pub use registry::Registry;
pub use registry::RegistryError;
pub use registry::WaitOutcome;
pub use syscall::OsError;
pub use syscall::shutdown_write_outcome;
pub use syscall::syscall_result;

verus! {

/// An event reported by the platform poller.
#[derive(Clone, Copy, PartialEq, Eq, Structural, Debug)]
pub struct Event {
    /// Key passed when registering interest in the I/O handle.
    pub key: usize,
    /// Is the I/O handle readable?
    pub readable: bool,
    /// Is the I/O handle writable?
    pub writable: bool,
}

} // verus!
