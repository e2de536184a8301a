//! The boost control: how the external program is called and how its outcome is read.

use vstd::prelude::*;

verus! {

/// The name of the program that switches the boost.
pub const BOOST_PROGRAM: &'static str = "eboostctl";

/// The argument that switches the boost on.
pub const BOOST_ON: &'static str = "--on";

/// The argument that switches the boost off.
pub const BOOST_OFF: &'static str = "--off";

/// Why the boost was not switched.
#[derive(Debug, Clone, Copy, PartialEq, Eq, Structural)]
pub enum BoostError {
    /// The program could not be started.
    LaunchFailed,
    /// The program ran and did not report success.
    Unsuccessful,
}

/// The one argument that the boost program is called with for the given state.
pub open spec fn boost_argument_text(enabled: bool) -> Seq<char> {
    if enabled {
        BOOST_ON@
    } else {
        BOOST_OFF@
    }
}

/// The one argument that the boost program is called with for the given state.
pub fn boost_argument(enabled: bool) -> (argument: &'static str)
    ensures
        argument@ == boost_argument_text(enabled),
{
    if enabled {
        BOOST_ON
    } else {
        BOOST_OFF
    }
}

/// What a run of the boost program amounts to. `exit` is `None` where the
/// program could not be started, and otherwise tells whether it reported success.
pub open spec fn boost_outcome(exit: Option<bool>) -> Result<(), BoostError> {
    match exit {
        None => Err(BoostError::LaunchFailed),
        Some(false) => Err(BoostError::Unsuccessful),
        Some(true) => Ok(()),
    }
}

/// Reads the outcome of a run of the boost program: only a program that was
/// started and reported success has switched the boost.
pub fn boost_result(exit: Option<bool>) -> (result: Result<(), BoostError>)
    ensures
        result == boost_outcome(exit),
        result is Ok <==> exit == Some(true),
{
    match exit {
        None => Err(BoostError::LaunchFailed),
        Some(false) => Err(BoostError::Unsuccessful),
        Some(true) => Ok(()),
    }
}

} // verus!
