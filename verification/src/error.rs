use vstd::prelude::*;

verus! {

/// The transport error of the `serialport` crate, carried through unchanged.
#[verifier::external_type_specification]
#[verifier::external_body]
pub struct ExSerialError(serialport::Error);

/// An I/O error of the standard library, carried through unchanged.
#[verifier::external_type_specification]
#[verifier::external_body]
pub struct ExIoError(std::io::Error);

/// Everything that can go wrong on the servo bus or in the protocol.
#[derive(Debug)]
pub enum SmartServoError {
    /// The serial port could not be opened or configured.
    Serial(serialport::Error),
    /// Reading from or writing to the serial port failed.
    Io(std::io::Error),
    /// No reply arrived in time.
    Timeout,
    /// A reply frame arrived whose checksum byte is wrong.
    ChecksumMismatch { code: u8, expected: u8, got: u8 },
    /// A request could not be encoded, or a reply did not have the expected shape.
    Protocol(String),
    /// The operation is not supported.
    Unsupported(String),
    /// A servo missed `count` replies in a row, reaching the configured threshold.
    ConsecutiveLoss { id: u8, count: u32 },
}

/// Result type of the library.
pub type ServoResult<T> = core::result::Result<T, SmartServoError>;

/// `true` when `e` is the error `Protocol` with the message `msg`.
pub open spec fn is_protocol_error(e: SmartServoError, msg: Seq<char>) -> bool {
    e matches SmartServoError::Protocol(m) && m@ == msg
}

/// Builds a `Protocol` error with the given message.
pub fn protocol_error(msg: &str) -> (e: SmartServoError)
    ensures
        is_protocol_error(e, msg@),
{
    SmartServoError::Protocol(msg.to_owned())
}

} // verus!
