//! The errors that the library reports.
use vstd::prelude::*;

verus! {

/// An error in what the user asked for.
#[derive(Debug, PartialEq, Eq)]
pub enum Error {
    /// The crate or the command line is configured in a way that is not
    /// supported; the message says how.
    CrateConfig { message: String },
}

impl Error {
    /// The message that explains the error to the user.
    pub fn message(&self) -> (msg: String)
        ensures
            msg@ == match self {
                Error::CrateConfig { message } => message@,
            },
    {
        match self {
            Error::CrateConfig { message } => message.clone(),
        }
    }
}

} // verus!
