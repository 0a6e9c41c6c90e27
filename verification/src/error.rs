use vstd::prelude::*;

verus! {

/// The typed failures the instruction processor can report. Every failure is
/// terminal for the invocation: the processor performs no retries and no
/// partial writes.
#[derive(Clone, Copy, Debug, PartialEq, Eq, Structural)]
pub enum Failure {
    /// No storage slot was supplied with the call.
    MissingAccount,
    /// The first slot's declared owner differs from the program identity.
    IncorrectOwner,
    /// The slot's bytes are too short to hold an encoded record.
    MalformedRecord,
    /// The destination buffer cannot hold the re-encoded record.
    BufferTooSmall,
}

} // verus!
