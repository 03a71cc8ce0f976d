//! What a wait for input returned, read from the raw result of the call.

use vstd::prelude::*;

verus! {

/// What a wait for input returned.
#[derive(Clone, Copy, Debug, PartialEq, Eq, Structural)]
pub enum PollReport {
    /// The wait returned normally with this many ready handles; zero means
    /// that the time ran out.
    Events(i32),
    /// A signal interrupted the wait.
    Interrupted,
    /// The wait failed with any other error.
    Failed,
}

/// Whether `nix` takes the error number `code` for `EINTR`, the error of a
/// call that a signal interrupted.
pub uninterp spec fn is_interrupt_code(code: i32) -> bool;

/// Asks `nix` whether the error number `code` is `EINTR`: the number is
/// converted with `nix::errno::Errno::from_i32` and compared with
/// `Errno::EINTR`. Nothing is proved of the answer; the contract only gives
/// it a name.
#[verifier::external_body]
fn interrupt_code(code: i32) -> (b: bool)
    ensures
        b == is_interrupt_code(code),
{
    nix::errno::Errno::from_i32(code) == nix::errno::Errno::EINTR
}

/// The report for the raw result of a wait: the number of ready handles, or
/// the error number with which the wait failed.
pub open spec fn poll_report(raw: Result<i32, i32>) -> PollReport {
    match raw {
        Ok(n) => PollReport::Events(n),
        Err(code) => if is_interrupt_code(code) {
            PollReport::Interrupted
        } else {
            PollReport::Failed
        },
    }
}

/// Reads the raw result of a wait for input: `Ok` with the number of ready
/// handles, or `Err` with the error number.
pub fn classify_poll(raw: Result<i32, i32>) -> (report: PollReport)
    ensures
        report == poll_report(raw),
{
    match raw {
        Ok(n) => PollReport::Events(n),
        Err(code) => if interrupt_code(code) {
            PollReport::Interrupted
        } else {
            PollReport::Failed
        },
    }
}

} // verus!
