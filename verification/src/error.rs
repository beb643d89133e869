//! The failures the pipeline can surface, from the byte stream up to the
//! event channel.

use vstd::prelude::*;

verus! {

/// Declares `std::io::Error`, the stream's own failure type, so that it can
/// carry through the library's signatures; the library never looks inside it.
#[verifier::external_type_specification]
#[verifier::external_body]
pub struct ExIoError(std::io::Error);

/// Everything that can abort the pipeline or a registration.
#[derive(Debug)]
pub enum EventError {
    /// The underlying stream failed while being read; fatal.
    Io(std::io::Error),
    /// A polled byte batch was not valid UTF-8 on its own; fatal.
    Decode,
    /// A pattern handed to event registration does not compile; the caller
    /// may fix the pattern and register again.
    Pattern(regex::Error),
    /// An emitted event could not be delivered on the channel.
    Sink,
}

} // verus!
