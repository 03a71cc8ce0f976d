use i420_viewer::poll::{classify_poll, PollReport};
use nix::errno::Errno;

#[test]
fn poll_count_is_passed_on() {
    assert_eq!(classify_poll(Ok(0)), PollReport::Events(0));
    assert_eq!(classify_poll(Ok(1)), PollReport::Events(1));
    assert_eq!(classify_poll(Ok(i32::MAX)), PollReport::Events(i32::MAX));
    assert_eq!(classify_poll(Ok(-1)), PollReport::Events(-1));
}

#[test]
fn poll_interrupted_by_a_signal() {
    assert_eq!(classify_poll(Err(Errno::EINTR as i32)), PollReport::Interrupted);
}

#[test]
fn poll_other_errors_fail() {
    for e in [Errno::EBADF, Errno::EFAULT, Errno::EINVAL, Errno::ENOMEM, Errno::EAGAIN, Errno::EIO] {
        assert_eq!(classify_poll(Err(e as i32)), PollReport::Failed);
    }
}

#[test]
fn poll_unknown_error_numbers_fail() {
    assert_eq!(classify_poll(Err(0)), PollReport::Failed);
    assert_eq!(classify_poll(Err(-1)), PollReport::Failed);
    assert_eq!(classify_poll(Err(i32::MAX)), PollReport::Failed);
    assert_eq!(classify_poll(Err(i32::MIN)), PollReport::Failed);
}

#[test]
fn poll_report_of_a_real_wait_result() {
    let interrupted: Result<i32, Errno> = Err(Errno::EINTR);
    assert_eq!(classify_poll(interrupted.map_err(|e| e as i32)), PollReport::Interrupted);
    let broken: Result<i32, Errno> = Err(Errno::EBADF);
    assert_eq!(classify_poll(broken.map_err(|e| e as i32)), PollReport::Failed);
    let ready: Result<i32, Errno> = Ok(1);
    assert_eq!(classify_poll(ready.map_err(|e| e as i32)), PollReport::Events(1));
}
