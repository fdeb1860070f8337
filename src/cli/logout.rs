//! Logging out of a package host.

use vstd::prelude::*;

verus! {

#[derive(Clone, Copy, Debug, PartialEq, Eq, Structural)]
pub enum CliError {
    /// The subcommand exists but does nothing yet.
    NotImplemented,
}

/// Log out of a package host and delete local credentials.
#[derive(Clone, Copy, Debug, PartialEq, Eq, Structural)]
pub struct Options {}

impl Options {
    /// Logging out is not implemented: always an error.
    pub fn execute(self) -> (r: Result<(), CliError>)
        ensures
            r == Err::<(), CliError>(CliError::NotImplemented),
    {
        Err(CliError::NotImplemented)
    }
}

} // verus!
