//! Frames of the CAN bus, and what can be wrong with their bits.

use vstd::prelude::*;

pub mod data;

verus! {

/// Why a bit sequence is not a frame. A variant that ends in `Missing`
/// says that the bits end before that field is complete; one that holds
/// `MustBe` says that the field is there with a value it may not have.
#[derive(Debug, Copy, Clone, PartialEq, Eq, Structural)]
pub enum CANFrameDecodingError {
    StartOfFrameMissing,
    StartOfFrameMustBeZero,
    IdentifierMissing,
    IdentifierAMissing,
    IdentifierBMissing,
    SubstituteRemoteRequestMissing,
    SubstituteRemoteRequestMustBeOne,
    RemoteTransmissionRequestMissing,
    IdentifierExtensionBitMissing,
    IdentifierExtensionBitMustBeZero,
    IdentifierExtensionBitMustBeOne,
    ReservedBitOneMissing,
    ReservedBitZeroMissing,
    DataLengthCodeMissing,
    DataFieldMissing,
    CyclicRedundancyCheckMissing,
    CyclicRedundancyCheckDelimiterMissing,
    CyclicRedundancyCheckDelimiterMustBeOne,
    AcknowledgementSlotMissing,
    AcknowledgementDelimiterMissing,
    AcknowledgementDelimiterMustBeOne,
    EndOfFrameMissing,
    EndOfFrameMustBeOne,
    InterFrameSpacingMissing,
    InterFrameSpacingMustBeOne,
}

} // verus!
