//! The codes with which the voting service ends when it cannot start.

use vstd::prelude::*;

verus! {

/// Why the service could not start. Each reason has its own exit code, from
/// 10 to 13.
#[derive(PartialEq, Eq, Debug, Structural)]
pub enum ApplicationExitCode {
    WriteSettingsError,
    LoadSettingsError,
    DBConnectionError,
    LoadBlock0Error,
}

impl ApplicationExitCode {
    /// The exit code of the reason.
    pub open spec fn spec_code(self) -> i32 {
        match self {
            Self::WriteSettingsError => 10,
            Self::LoadSettingsError => 11,
            Self::DBConnectionError => 12,
            Self::LoadBlock0Error => 13,
        }
    }

    /// The reason that has the exit code `n`, if there is one.
    pub open spec fn spec_from_i32(n: i32) -> Option<Self> {
        if n == 10 {
            Some(Self::WriteSettingsError)
        } else if n == 11 {
            Some(Self::LoadSettingsError)
        } else if n == 12 {
            Some(Self::DBConnectionError)
        } else if n == 13 {
            Some(Self::LoadBlock0Error)
        } else {
            None
        }
    }

    /// The exit code of the reason.
    pub fn code(&self) -> (n: i32)
        ensures
            n == self.spec_code(),
            10 <= n <= 13,
    {
        match self {
            Self::WriteSettingsError => 10,
            Self::LoadSettingsError => 11,
            Self::DBConnectionError => 12,
            Self::LoadBlock0Error => 13,
        }
    }

    /// The reason that has the exit code `n`; `None` where `n` is the code
    /// of no reason.
    pub fn from_i32(n: i32) -> (reason: Option<Self>)
        ensures
            reason == Self::spec_from_i32(n),
            reason is Some <==> 10 <= n <= 13,
            reason matches Some(r) ==> r.spec_code() == n,
    {
        match n {
            10 => Some(Self::WriteSettingsError),
            11 => Some(Self::LoadSettingsError),
            12 => Some(Self::DBConnectionError),
            13 => Some(Self::LoadBlock0Error),
            _ => None,
        }
    }
}

/// A reason is found again from its exit code.
pub proof fn lemma_exit_code_round_trip(reason: ApplicationExitCode)
    ensures
        ApplicationExitCode::spec_from_i32(reason.spec_code()) == Some(reason),
{
}

} // verus!
