//! The error kinds of the signalling core.

use vstd::prelude::*;

verus! {

/// Why an octet buffer could not be read as an NGAP PDU.
#[derive(Debug, Clone, Copy, PartialEq, Eq, Structural)]
pub enum DecodeError {
    ShortBuffer,
    UnknownPduType(u8),
    MissingMandatoryIe(u16),
    UnsupportedFragmentedLength,
    UnknownNodeTypeTag(u8),
    InvalidLength,
}

/// Why a schema value could not be written as octets.
#[derive(Debug, Clone, Copy, PartialEq, Eq, Structural)]
pub enum EncodeError {
    UnsupportedMessage,
    FieldOutOfRange,
}

} // verus!

verus! {

/// Why a procedure could not be carried out.
#[derive(Debug, Clone)]
pub enum ProtocolError {
    /// No RAN context on this peer address: NG Setup has not completed.
    RanNotFound(String),
    TaiRejected,
    ProcedureNotSupported,
}

/// Why a PDU read from an association could not be handled.
#[derive(Debug, Clone)]
pub enum HandlingError {
    Protocol(ProtocolError),
}

} // verus!
