use reactor_sys::shutdown_write_outcome;
use reactor_sys::syscall_result;
use reactor_sys::OsError;

#[test]
fn non_sentinel_raw_result_is_success() {
    assert_eq!(syscall_result(5, 0), Ok(5));
    assert_eq!(syscall_result(0, 0), Ok(0));
}

#[test]
fn sentinel_raw_result_carries_last_error() {
    assert_eq!(syscall_result(-1, 4), Err(OsError { code: 4 }));
    assert_eq!(syscall_result(-1, libc::EBADF), Err(OsError { code: libc::EBADF }));
}

#[test]
fn shutdown_success_is_success() {
    assert_eq!(shutdown_write_outcome(0, 0, libc::ENOTCONN), Ok(()));
}

#[test]
fn shutdown_on_non_socket_is_suppressed() {
    assert_eq!(
        shutdown_write_outcome(-1, libc::ENOTSOCK, libc::ENOTCONN),
        Ok(())
    );
}

#[test]
fn shutdown_failure_other_than_not_connected_is_suppressed() {
    assert_eq!(
        shutdown_write_outcome(-1, libc::EBADF, libc::ENOTCONN),
        Ok(())
    );
    assert_eq!(
        shutdown_write_outcome(-1, libc::EINVAL, libc::ENOTCONN),
        Ok(())
    );
}

#[test]
fn shutdown_not_connected_is_surfaced() {
    assert_eq!(
        shutdown_write_outcome(-1, libc::ENOTCONN, libc::ENOTCONN),
        Err(OsError { code: libc::ENOTCONN })
    );
}
