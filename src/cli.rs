//! Command-line subcommands whose work is done by the library.

pub mod logout;
pub mod register;
pub mod sev;
