//! Errors that abandon the rest of a line.
use vstd::prelude::*;

verus! {

/// Declares `std::io::Error`, a failure of the operating system (a directory
/// that cannot be read, a process that cannot be started, a pipe that cannot
/// be written). The library only carries it; nothing is assumed of it.
#[verifier::external_type_specification]
#[verifier::external_body]
pub struct ExIoError(std::io::Error);

/// A fatal error of one stage: the rest of the line is abandoned.
#[derive(Debug)]
pub enum Error {
    IO(std::io::Error),
}

} // verus!
