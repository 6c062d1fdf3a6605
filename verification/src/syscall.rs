//! Structured results for raw OS calls, and the half-close error policy.
//!
//! The OS convention wrapped here is: a call returns a distinguished
//! sentinel value on failure, with the detail left in a per-thread
//! last-error slot that the caller reads immediately after the call.

use vstd::prelude::*;

verus! {

/// An error code read from the OS's per-thread last-error slot.
#[derive(Clone, Copy, PartialEq, Eq, Structural, Debug)]
pub struct OsError {
    /// The platform's error number.
    pub code: i32,
}

/// Turns the OS's sentinel-failure convention into a structured result:
/// a raw return of `-1` means failure, carrying `last_error` as the
/// detail; any other raw return is the call's success value.
pub fn syscall_result(raw: isize, last_error: i32) -> (r: Result<isize, OsError>)
    ensures
        raw == -1 ==> r == Err::<isize, OsError>((OsError { code: last_error })),
        raw != -1 ==> r == Ok::<isize, OsError>(raw),
{
    if raw == -1 {
        Err(OsError { code: last_error })
    } else {
        Ok(raw)
    }
}

/// Whether the half-close policy surfaces a shutdown call's outcome as an
/// error: only a failed call whose detail is the platform's "socket is
/// not connected" number is surfaced.
pub open spec fn shutdown_write_rejects(raw: isize, last_error: i32, not_connected: i32) -> bool {
    raw == -1 && last_error == not_connected
}

/// Classifies the outcome of the OS "shut down the write side" call on a
/// raw handle that may or may not be a socket. Every failure other than
/// "not connected" is suppressed: the target may simply not be a socket,
/// and a non-socket shutting down is an expected no-op, not a fault.
/// `not_connected` is the platform's error number for that condition.
pub fn shutdown_write_outcome(raw: isize, last_error: i32, not_connected: i32) -> (r: Result<
    (),
    OsError,
>)
    ensures
        shutdown_write_rejects(raw, last_error, not_connected) ==> r == Err::<(), OsError>(
            (OsError { code: last_error }),
        ),
        !shutdown_write_rejects(raw, last_error, not_connected) ==> r == Ok::<(), OsError>(()),
{
    match syscall_result(raw, last_error) {
        Err(e) => {
            if e.code == not_connected {
                Err(e)
            } else {
                Ok(())
            }
        },
        Ok(_) => Ok(()),
    }
}

} // verus!
