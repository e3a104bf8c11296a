use vstd::prelude::*;

verus! {

/// Values of `std::io::Error` are carried through the library unchanged.
#[verifier::external_type_specification]
#[verifier::external_body]
pub struct ExIoError(std::io::Error);

/// Values of `std::num::ParseIntError` are carried through the library unchanged.
#[verifier::external_type_specification]
#[verifier::external_body]
pub struct ExParseIntError(std::num::ParseIntError);

/// An error wrapper around some other error value.
#[derive(Debug)]
pub struct WarpError<E> {
    error: E,
}

/// Failures of the network side of a transfer.
#[derive(Debug)]
pub enum NetworkError {
    /// The peer could not be reached or the stream failed.
    ReceiverError(std::io::Error),
}

/// A text that is not a socket address (`ip:port`).
#[derive(Debug, Clone, Copy, PartialEq, Eq)]
pub struct AddrParseError;

/// Failures while reading the command line.
#[derive(Debug)]
pub enum ParseError {
    PortParseError(std::num::ParseIntError),
    InvalidFile(String),
    Arg(String),
    InvalidIpAddress(AddrParseError),
}

/// Failures while describing the files to send.
#[derive(Debug)]
pub enum DiskError {
    FileOpenError { filename: String, source: std::io::Error },
    FileUnreadableError { filename: String, source: std::io::Error },
    InvalidFile(String),
}

} // verus!
