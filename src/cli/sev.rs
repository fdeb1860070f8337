//! SEV-specific subcommands.

use vstd::prelude::*;
use crate::cli::logout::CliError;

verus! {

/// Options of the launch-digest subcommand, whose computation this crate
/// does not provide.
#[derive(Clone, Copy, Debug, PartialEq, Eq, Structural)]
pub struct DigestOptions {}

impl DigestOptions {
    pub fn execute(self) -> (r: Result<(), CliError>)
        ensures
            r == Err::<(), CliError>(CliError::NotImplemented),
    {
        Err(CliError::NotImplemented)
    }
}

/// SEV-specific functionality.
#[derive(Clone, Copy, Debug, PartialEq, Eq, Structural)]
pub enum Subcommands {
    Digest(DigestOptions),
}

impl Subcommands {
    /// Runs the chosen subcommand.
    pub fn dispatch(self) -> (r: Result<(), CliError>)
        ensures
            match self {
                Subcommands::Digest(_) => r == Err::<(), CliError>(CliError::NotImplemented),
            },
    {
        match self {
            Subcommands::Digest(cmd) => cmd.execute(),
        }
    }
}

} // verus!
