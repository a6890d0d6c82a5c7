//! The application-layer message and the decoders of its parts.

pub mod tag;
pub mod unconfirmed_request_pdu;

use crate::error::Error;
use vstd::prelude::*;

verus! {

/// The kind of a message, as the upper four bits of its first byte give it.
#[derive(Debug, Clone, Copy, PartialEq, Eq, Structural)]
pub enum PduType {
    ConfirmedRequest,
    UnconfirmedRequest,
    SimpleAck,
    ComplexAck,
    SegmentAck,
    Error,
    Reject,
    Abort,
    /// A code from 8 to 15, which names no kind of message.
    Reserved(u8),
}

impl PduType {
    /// The kind of message that a code stands for.
    pub open spec fn spec_from_code(code: u8) -> PduType {
        match code {
            0 => PduType::ConfirmedRequest,
            1 => PduType::UnconfirmedRequest,
            2 => PduType::SimpleAck,
            3 => PduType::ComplexAck,
            4 => PduType::SegmentAck,
            5 => PduType::Error,
            6 => PduType::Reject,
            7 => PduType::Abort,
            _ => PduType::Reserved(code),
        }
    }

    /// The kind of message that a code stands for.
    #[verifier::when_used_as_spec(spec_from_code)]
    pub fn from_code(code: u8) -> (r: PduType)
        ensures
            r == PduType::spec_from_code(code),
    {
        match code {
            0 => PduType::ConfirmedRequest,
            1 => PduType::UnconfirmedRequest,
            2 => PduType::SimpleAck,
            3 => PduType::ComplexAck,
            4 => PduType::SegmentAck,
            5 => PduType::Error,
            6 => PduType::Reject,
            7 => PduType::Abort,
            _ => PduType::Reserved(code),
        }
    }
}

/// One application-layer message: its bytes, which it borrows, and its kind.
#[derive(Debug, Clone, Copy)]
pub struct APDU<'a> {
    /// All bytes of the message, the first one included.
    pub bytes: &'a [u8],
    /// The kind of the message.
    pub pdu_type: PduType,
}

impl<'a> APDU<'a> {
    /// The message has a first byte, and its kind is the one that the upper
    /// four bits of that byte give.
    pub open spec fn wf(&self) -> bool {
        &&& self.bytes@.len() >= 1
        &&& self.pdu_type == PduType::spec_from_code(self.bytes@[0] / 16)
    }
}

/// The message that the given bytes hold. An empty buffer holds none and is
/// refused with `Error::Length`; every other buffer is accepted whole.
pub fn parse_apdu(bytes: &[u8]) -> (r: Result<APDU<'_>, Error>)
    ensures
        match r {
            Ok(apdu) => bytes@.len() >= 1 && apdu.bytes@ == bytes@ && apdu.wf(),
            Err(e) => bytes@.len() == 0 && e == Error::Length,
        },
{
    if bytes.len() < 1 {
        return Err(Error::Length);
    }
    let lead: u8 = bytes[0];
    assert(lead >> 4 == lead / 16) by (bit_vector);
    Ok(APDU { bytes, pdu_type: PduType::from_code(lead >> 4) })
}

} // verus!
