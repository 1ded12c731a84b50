//! The error type shared by every command.

use vstd::prelude::*;

verus! {

/// An error reported to the user: either an internal failure, a misuse of
/// the command line, or a failure while comparing directory contents.
#[derive(Debug, Clone)]
pub enum RobeError {
    Internal(String),
    BadUsage(String),
    Hashing(String),
}

impl RobeError {
    /// Wraps a message as an internal error.
    pub fn message(msg: String) -> (e: Self)
        ensures
            e == RobeError::Internal(msg),
    {
        Self::Internal(msg)
    }

    /// The error reported when a target name is not registered.
    pub fn target_not_found(target: &str) -> (e: Self)
        ensures
            e matches RobeError::Internal(m) && m@ == "Target "@ + target@ + " not found"@,
    {
        let msg = String::from_str("Target ").concat(target).concat(" not found");
        Self::message(msg)
    }

    /// The user-facing rendering of the error, with the program prefix.
    pub fn render(&self) -> (out: String)
        ensures
            self matches RobeError::Internal(m) ==> out@ == "robe: "@ + m@,
            self matches RobeError::BadUsage(m) ==> out@ == "robe: Wrong usage. "@ + m@
                + "\nUse `robe -h` for help."@,
            self matches RobeError::Hashing(m) ==> out@
                == "robe: An error occurred when hashing directory contents. "@ + m@,
    {
        match self {
            Self::Internal(err) => String::from_str("robe: ").concat(err.as_str()),
            Self::BadUsage(err) => String::from_str("robe: Wrong usage. ").concat(
                err.as_str(),
            ).concat("\nUse `robe -h` for help."),
            Self::Hashing(err) => String::from_str(
                "robe: An error occurred when hashing directory contents. ",
            ).concat(err.as_str()),
        }
    }
}

} // verus!
