//! Exit codes of commands.

use vstd::prelude::*;

verus! {

/// The number of the terminal stop signal, `SIGTSTP`, as `nix` re-exports it
/// from `libc`. The number depends on the platform; in the `libc` source it
/// is between 13 and 24 on every platform, and the contract says no more.
#[verifier::external_body]
fn tstp_signal() -> (r: i32)
    ensures
        13 <= r <= 24,
{
    nix::libc::SIGTSTP
}

#[derive(Debug, Default)]
pub struct ExitCode {
    value: u8,
    should_exit: bool,
}

/// The low byte of a status number.
pub open spec fn low_byte(src: i32) -> u8 {
    (src & 0xFF) as u8
}

impl ExitCode {
    /// The exit code.
    pub closed spec fn code(&self) -> u8 {
        self.value
    }

    /// Whether the shell is to exit.
    pub closed spec fn exits(&self) -> bool {
        self.should_exit
    }

    pub fn new(exit_code: u8) -> (r: Self)
        ensures
            r.code() == exit_code,
            !r.exits(),
    {
        Self { value: exit_code, should_exit: false }
    }

    /// An exit code that asks the shell to stop.
    pub fn exiting(exit_code: u8) -> (r: Self)
        ensures
            r.code() == exit_code,
            r.exits(),
    {
        Self { value: exit_code, should_exit: true }
    }

    pub fn success() -> (r: Self)
        ensures
            r.code() == 0,
            !r.exits(),
    {
        Self::new(0)
    }

    /// The code of a command stopped by the terminal stop signal: 128 and the
    /// signal's number.
    pub fn stopped() -> (r: Self)
        ensures
            128 + 13 <= r.code() <= 128 + 24,
            !r.exits(),
    {
        let sig = tstp_signal();
        Self::new(128 + sig as u8)
    }

    pub fn value(&self) -> (r: u8)
        ensures
            r == self.code(),
    {
        self.value
    }

    pub fn should_exit(&self) -> (r: bool)
        ensures
            r == self.exits(),
    {
        self.should_exit
    }

    /// The exit code of a finished process, from its exit code if it has one,
    /// else from the signal that ended it (128 and the signal's number), else
    /// 127.
    pub fn from_status(code: Option<i32>, signal: Option<i32>) -> (r: Self)
        requires
            code is None ==> (signal matches Some(s) ==> low_byte(s) < 128),
        ensures
            !r.exits(),
            r.code() == match code {
                Some(c) => low_byte(c),
                None => match signal {
                    Some(s) => (low_byte(s) + 128) as u8,
                    None => 127,
                },
            },
    {
        if let Some(c) = code {
            return Self::new(to_u8(c));
        }
        if let Some(s) = signal {
            return Self::new(to_u8(s) + 128);
        }
        Self::new(127)
    }
}

/// The low byte of a status number.
pub fn to_u8(src: i32) -> (r: u8)
    ensures
        r == low_byte(src),
{
    (src & 0xFF) as u8
}

} // verus!
