//! The extended data frame, with its identifier of twenty-nine bits.

use crate::bits::{field_value, Bits};
use crate::can::frame::data::{
    bit_value, crc_start, decode_tail, extract_bit, extract_field, lemma_field_value_bound,
    lemma_tail_with_clear_delimiter, lemma_truncated_tail, tail_missing_at, tail_of, DataFrameTailView, CLOSING_BITS, END_OF_FRAME,
    INTER_FRAME_SPACING, STUFFING_WINDOW,
};
use crate::can::frame::CANFrameDecodingError;
use crate::stuffing::{lemma_unstuff_undoes_stuff, stuffed, unstuffed};
use crate::uint::{U1, U11, U15, U18, U29, U3, U4, U7};
use crate::unstuff;
use vstd::arithmetic::power2::lemma2_to64;
use vstd::prelude::*;

verus! {

/// Where the data length code of an extended frame starts: behind the
/// start bit, both parts of the identifier and five single bits.
pub const EXTENDED_DATA_LENGTH_CODE_AT: usize = 35;

/// An extended data frame as numbers, field by field in the order of the
/// wire.
pub struct ExtendedDataFrameView {
    pub start_of_frame: nat,
    pub identifier_a: nat,
    pub substitute_remote_request: nat,
    pub identifier_extension_bit: nat,
    pub identifier_b: nat,
    pub remote_transmission_request: nat,
    pub reserved_bit_one: nat,
    pub reserved_bit_zero: nat,
    pub data_length_code: nat,
    pub data_field: Seq<u8>,
    pub cyclic_redundancy_check: nat,
    pub cyclic_redundancy_check_delimiter: nat,
    pub acknowledgement_slot: nat,
    pub acknowledgement_delimiter: nat,
    pub end_of_frame: nat,
    pub inter_frame_spacing: nat,
}

impl ExtendedDataFrameView {
    /// The fields that the format fixes have their values, and the data
    /// field is as long as the data length code says.
    pub open spec fn wf(self) -> bool {
        &&& self.start_of_frame == 0
        &&& self.substitute_remote_request == 1
        &&& self.identifier_extension_bit == 1
        &&& self.cyclic_redundancy_check_delimiter == 1
        &&& self.acknowledgement_delimiter == 1
        &&& self.end_of_frame == END_OF_FRAME
        &&& self.inter_frame_spacing == INTER_FRAME_SPACING
        &&& self.data_field.len() == self.data_length_code
    }

    /// The whole identifier: the first part above the eighteen bits of the
    /// second.
    pub open spec fn identifier(self) -> nat {
        self.identifier_a * 0x40000 + self.identifier_b
    }
}

/// The extended frame made of a head and a tail.
pub open spec fn extended_frame_with(
    bits: Seq<bool>,
    tail: DataFrameTailView,
) -> ExtendedDataFrameView {
    ExtendedDataFrameView {
        start_of_frame: 0,
        identifier_a: field_value(bits.subrange(1, 12)),
        substitute_remote_request: 1,
        identifier_extension_bit: 1,
        identifier_b: field_value(bits.subrange(14, 32)),
        remote_transmission_request: bit_value(bits[32]),
        reserved_bit_one: bit_value(bits[33]),
        reserved_bit_zero: bit_value(bits[34]),
        data_length_code: tail.data_length_code,
        data_field: tail.data_field,
        cyclic_redundancy_check: tail.cyclic_redundancy_check,
        cyclic_redundancy_check_delimiter: tail.cyclic_redundancy_check_delimiter,
        acknowledgement_slot: tail.acknowledgement_slot,
        acknowledgement_delimiter: tail.acknowledgement_delimiter,
        end_of_frame: tail.end_of_frame,
        inter_frame_spacing: tail.inter_frame_spacing,
    }
}

/// The extended data frame that destuffed bits spell, or the first thing
/// wrong with them, fields taken in their order on the wire. Bits behind
/// the frame are not looked at.
pub open spec fn extended_frame_of(bits: Seq<bool>) -> Result<
    ExtendedDataFrameView,
    CANFrameDecodingError,
> {
    if bits.len() < 1 {
        Err(CANFrameDecodingError::StartOfFrameMissing)
    } else if bits[0] {
        Err(CANFrameDecodingError::StartOfFrameMustBeZero)
    } else if bits.len() < 12 {
        Err(CANFrameDecodingError::IdentifierAMissing)
    } else if bits.len() < 13 {
        Err(CANFrameDecodingError::SubstituteRemoteRequestMissing)
    } else if !bits[12] {
        Err(CANFrameDecodingError::SubstituteRemoteRequestMustBeOne)
    } else if bits.len() < 14 {
        Err(CANFrameDecodingError::IdentifierExtensionBitMissing)
    } else if !bits[13] {
        Err(CANFrameDecodingError::IdentifierExtensionBitMustBeOne)
    } else if bits.len() < 32 {
        Err(CANFrameDecodingError::IdentifierBMissing)
    } else if bits.len() < 33 {
        Err(CANFrameDecodingError::RemoteTransmissionRequestMissing)
    } else if bits.len() < 34 {
        Err(CANFrameDecodingError::ReservedBitOneMissing)
    } else if bits.len() < 35 {
        Err(CANFrameDecodingError::ReservedBitZeroMissing)
    } else {
        match tail_of(bits, EXTENDED_DATA_LENGTH_CODE_AT as int) {
            Ok(tail) => Ok(extended_frame_with(bits, tail)),
            Err(error) => Err(error),
        }
    }
}

/// A decoded extended data frame.
pub struct ExtendedDataFrame {
    start_of_frame: U1,
    identifier_a: U11,
    substitute_remote_request: U1,
    identifier_extension_bit: U1,
    identifier_b: U18,
    remote_transmission_request: U1,
    reserved_bit_one: U1,
    reserved_bit_zero: U1,
    data_length_code: U4,
    data_field: Vec<u8>,
    cyclic_redundancy_check: U15,
    cyclic_redundancy_check_delimiter: U1,
    acknowledgement_slot: U1,
    acknowledgement_delimiter: U1,
    end_of_frame: U7,
    inter_frame_spacing: U3,
}

impl View for ExtendedDataFrame {
    type V = ExtendedDataFrameView;

    closed spec fn view(&self) -> ExtendedDataFrameView {
        ExtendedDataFrameView {
            start_of_frame: self.start_of_frame@,
            identifier_a: self.identifier_a@,
            substitute_remote_request: self.substitute_remote_request@,
            identifier_extension_bit: self.identifier_extension_bit@,
            identifier_b: self.identifier_b@,
            remote_transmission_request: self.remote_transmission_request@,
            reserved_bit_one: self.reserved_bit_one@,
            reserved_bit_zero: self.reserved_bit_zero@,
            data_length_code: self.data_length_code@,
            data_field: self.data_field@,
            cyclic_redundancy_check: self.cyclic_redundancy_check@,
            cyclic_redundancy_check_delimiter: self.cyclic_redundancy_check_delimiter@,
            acknowledgement_slot: self.acknowledgement_slot@,
            acknowledgement_delimiter: self.acknowledgement_delimiter@,
            end_of_frame: self.end_of_frame@,
            inter_frame_spacing: self.inter_frame_spacing@,
        }
    }
}

/// Whether `result` is what decoding should give when the bits spell
/// `expected`.
pub open spec fn extended_decoded_as(
    result: Result<ExtendedDataFrame, CANFrameDecodingError>,
    expected: Result<ExtendedDataFrameView, CANFrameDecodingError>,
) -> bool {
    match expected {
        Ok(frame) => result is Ok && result->Ok_0@ == frame,
        Err(error) => result == Err::<ExtendedDataFrame, CANFrameDecodingError>(error),
    }
}

impl ExtendedDataFrame {
    /// Every frame is well formed.
    #[verifier::type_invariant]
    pub open spec fn wf(&self) -> bool {
        self@.wf()
    }

    /// Decodes bits from which the stuffing bits have been removed.
    pub fn from_unstuffed_bits(unstuffed_bits: &Bits) -> (result: Result<
        Self,
        CANFrameDecodingError,
    >)
        ensures
            extended_decoded_as(result, extended_frame_of(unstuffed_bits@)),
    {
        proof {
            lemma2_to64();
        }
        let start_of_frame = match extract_bit(
            unstuffed_bits,
            0,
            CANFrameDecodingError::StartOfFrameMissing,
        ) {
            Ok(bit) => {
                if bit {
                    return Err(CANFrameDecodingError::StartOfFrameMustBeZero);
                }
                U1::from_bit(bit)
            },
            Err(error) => {
                return Err(error);
            },
        };
        let identifier_a = match extract_field(
            unstuffed_bits,
            1,
            11,
            CANFrameDecodingError::IdentifierAMissing,
        ) {
            Ok(value) => U11::new(value as u16),
            Err(error) => {
                return Err(error);
            },
        };
        let substitute_remote_request = match extract_bit(
            unstuffed_bits,
            12,
            CANFrameDecodingError::SubstituteRemoteRequestMissing,
        ) {
            Ok(bit) => {
                if !bit {
                    return Err(CANFrameDecodingError::SubstituteRemoteRequestMustBeOne);
                }
                U1::from_bit(bit)
            },
            Err(error) => {
                return Err(error);
            },
        };
        let identifier_extension_bit = match extract_bit(
            unstuffed_bits,
            13,
            CANFrameDecodingError::IdentifierExtensionBitMissing,
        ) {
            Ok(bit) => {
                if !bit {
                    return Err(CANFrameDecodingError::IdentifierExtensionBitMustBeOne);
                }
                U1::from_bit(bit)
            },
            Err(error) => {
                return Err(error);
            },
        };
        let identifier_b = match extract_field(
            unstuffed_bits,
            14,
            18,
            CANFrameDecodingError::IdentifierBMissing,
        ) {
            Ok(value) => U18::new(value),
            Err(error) => {
                return Err(error);
            },
        };
        let remote_transmission_request = match extract_bit(
            unstuffed_bits,
            32,
            CANFrameDecodingError::RemoteTransmissionRequestMissing,
        ) {
            Ok(bit) => U1::from_bit(bit),
            Err(error) => {
                return Err(error);
            },
        };
        let reserved_bit_one = match extract_bit(
            unstuffed_bits,
            33,
            CANFrameDecodingError::ReservedBitOneMissing,
        ) {
            Ok(bit) => U1::from_bit(bit),
            Err(error) => {
                return Err(error);
            },
        };
        let reserved_bit_zero = match extract_bit(
            unstuffed_bits,
            34,
            CANFrameDecodingError::ReservedBitZeroMissing,
        ) {
            Ok(bit) => U1::from_bit(bit),
            Err(error) => {
                return Err(error);
            },
        };
        let tail = match decode_tail(unstuffed_bits, EXTENDED_DATA_LENGTH_CODE_AT) {
            Ok(tail) => tail,
            Err(error) => {
                return Err(error);
            },
        };
        Ok(
            Self {
                start_of_frame,
                identifier_a,
                substitute_remote_request,
                identifier_extension_bit,
                identifier_b,
                remote_transmission_request,
                reserved_bit_one,
                reserved_bit_zero,
                data_length_code: tail.data_length_code,
                data_field: tail.data_field,
                cyclic_redundancy_check: tail.cyclic_redundancy_check,
                cyclic_redundancy_check_delimiter: tail.cyclic_redundancy_check_delimiter,
                acknowledgement_slot: tail.acknowledgement_slot,
                acknowledgement_delimiter: tail.acknowledgement_delimiter,
                end_of_frame: tail.end_of_frame,
                inter_frame_spacing: tail.inter_frame_spacing,
            },
        )
    }

    /// Decodes bits as they are on the wire: removes the stuffing bits for
    /// a window of five, then decodes what is left.
    pub fn from_stuffed_bits(stuffed_bits: &Bits) -> (result: Result<Self, CANFrameDecodingError>)
        ensures
            extended_decoded_as(
                result,
                extended_frame_of(unstuffed(stuffed_bits@, STUFFING_WINDOW as nat)),
            ),
    {
        let unstuffed_bits = unstuff(stuffed_bits, STUFFING_WINDOW);
        Self::from_unstuffed_bits(&unstuffed_bits)
    }

    /// The start bit, which is clear.
    pub fn start_of_frame(&self) -> (result: U1)
        ensures
            result@ == self@.start_of_frame,
            result@ == 0,
    {
        proof {
            use_type_invariant(self);
        }
        self.start_of_frame
    }

    /// The first eleven bits of the identifier.
    pub fn identifier_a(&self) -> (result: U11)
        ensures
            result@ == self@.identifier_a,
    {
        self.identifier_a
    }

    /// The substitute remote request bit, which is set.
    pub fn substitute_remote_request(&self) -> (result: U1)
        ensures
            result@ == self@.substitute_remote_request,
            result@ == 1,
    {
        proof {
            use_type_invariant(self);
        }
        self.substitute_remote_request
    }

    /// The identifier extension bit, which is set.
    pub fn identifier_extension_bit(&self) -> (result: U1)
        ensures
            result@ == self@.identifier_extension_bit,
            result@ == 1,
    {
        proof {
            use_type_invariant(self);
        }
        self.identifier_extension_bit
    }

    /// The last eighteen bits of the identifier.
    pub fn identifier_b(&self) -> (result: U18)
        ensures
            result@ == self@.identifier_b,
    {
        self.identifier_b
    }

    /// The whole identifier of twenty-nine bits: the first part shifted
    /// above the second.
    pub fn identifier(&self) -> (result: U29)
        ensures
            result@ == self@.identifier(),
    {
        let high: u32 = self.identifier_a.get() as u32;
        let low: u32 = self.identifier_b.get();
        assert((high << 18) | low == high * 0x40000 + low && (high << 18) | low <= 0x1FFFFFFF)
            by (bit_vector)
            requires
                high <= 0x7FF,
                low <= 0x3FFFF,
        ;
        U29::new((high << 18) | low)
    }

    /// The remote transmission request bit.
    pub fn remote_transmission_request(&self) -> (result: U1)
        ensures
            result@ == self@.remote_transmission_request,
    {
        self.remote_transmission_request
    }

    /// The first reserved bit.
    pub fn reserved_bit_one(&self) -> (result: U1)
        ensures
            result@ == self@.reserved_bit_one,
    {
        self.reserved_bit_one
    }

    /// The last reserved bit.
    pub fn reserved_bit_zero(&self) -> (result: U1)
        ensures
            result@ == self@.reserved_bit_zero,
    {
        self.reserved_bit_zero
    }

    /// The data length code: the number of bytes in the data field.
    pub fn data_length_code(&self) -> (result: U4)
        ensures
            result@ == self@.data_length_code,
    {
        self.data_length_code
    }

    /// The payload: as many bytes as the data length code says, each read
    /// most significant bit first.
    pub fn data_field(&self) -> (result: &Vec<u8>)
        ensures
            result@ == self@.data_field,
            result@.len() == self@.data_length_code,
    {
        proof {
            use_type_invariant(self);
        }
        &self.data_field
    }

    /// The CRC as it stands in the frame. It is not checked against the bits.
    pub fn cyclic_redundancy_check(&self) -> (result: U15)
        ensures
            result@ == self@.cyclic_redundancy_check,
    {
        self.cyclic_redundancy_check
    }

    /// The CRC delimiter, which is set.
    pub fn cyclic_redundancy_check_delimiter(&self) -> (result: U1)
        ensures
            result@ == self@.cyclic_redundancy_check_delimiter,
            result@ == 1,
    {
        proof {
            use_type_invariant(self);
        }
        self.cyclic_redundancy_check_delimiter
    }

    /// The acknowledgement slot.
    pub fn acknowledgement_slot(&self) -> (result: U1)
        ensures
            result@ == self@.acknowledgement_slot,
    {
        self.acknowledgement_slot
    }

    /// The acknowledgement delimiter, which is set.
    pub fn acknowledgement_delimiter(&self) -> (result: U1)
        ensures
            result@ == self@.acknowledgement_delimiter,
            result@ == 1,
    {
        proof {
            use_type_invariant(self);
        }
        self.acknowledgement_delimiter
    }

    /// The end of frame: seven set bits.
    pub fn end_of_frame(&self) -> (result: U7)
        ensures
            result@ == self@.end_of_frame,
            result@ == END_OF_FRAME,
    {
        proof {
            use_type_invariant(self);
        }
        self.end_of_frame
    }

    /// The inter-frame spacing: three set bits.
    pub fn inter_frame_spacing(&self) -> (result: U3)
        ensures
            result@ == self@.inter_frame_spacing,
            result@ == INTER_FRAME_SPACING,
    {
        proof {
            use_type_invariant(self);
        }
        self.inter_frame_spacing
    }
}

/// The number of bits of the extended frame that `bits` starts with.
pub open spec fn extended_frame_len(bits: Seq<bool>) -> int {
    crc_start(bits, EXTENDED_DATA_LENGTH_CODE_AT as int) + CLOSING_BITS
}

/// The field that is cut when an extended frame is left with only its
/// first `cut` bits.
pub open spec fn extended_missing_at(bits: Seq<bool>, cut: int) -> CANFrameDecodingError {
    if cut < 1 {
        CANFrameDecodingError::StartOfFrameMissing
    } else if cut < 12 {
        CANFrameDecodingError::IdentifierAMissing
    } else if cut < 13 {
        CANFrameDecodingError::SubstituteRemoteRequestMissing
    } else if cut < 14 {
        CANFrameDecodingError::IdentifierExtensionBitMissing
    } else if cut < 32 {
        CANFrameDecodingError::IdentifierBMissing
    } else if cut < 33 {
        CANFrameDecodingError::RemoteTransmissionRequestMissing
    } else if cut < 34 {
        CANFrameDecodingError::ReservedBitOneMissing
    } else if cut < 35 {
        CANFrameDecodingError::ReservedBitZeroMissing
    } else {
        tail_missing_at(bits, EXTENDED_DATA_LENGTH_CODE_AT as int, cut)
    }
}

/// What decodes as an extended frame has all the bits of that frame, the
/// frame is well formed, and its whole identifier has twenty-nine bits.
pub proof fn lemma_extended_frame_is_whole(bits: Seq<bool>)
    requires
        extended_frame_of(bits) is Ok,
    ensures
        extended_frame_len(bits) <= bits.len(),
        extended_frame_of(bits)->Ok_0.wf(),
        extended_frame_of(bits)->Ok_0.identifier() <= 0x1FFFFFFF,
{
    lemma2_to64();
    lemma_field_value_bound(bits.subrange(1, 12));
    lemma_field_value_bound(bits.subrange(14, 32));
}

/// An extended frame that is cut short anywhere is refused for the field
/// that is cut: with any trailing fields removed, the error names the
/// first field that is gone.
pub proof fn lemma_truncated_extended_frame(bits: Seq<bool>, cut: int)
    requires
        extended_frame_of(bits) is Ok,
        0 <= cut < extended_frame_len(bits),
    ensures
        extended_frame_of(bits.take(cut)) == Err::<ExtendedDataFrameView, CANFrameDecodingError>(
            extended_missing_at(bits, cut),
        ),
{
    if cut >= 35 {
        lemma_truncated_tail(bits, EXTENDED_DATA_LENGTH_CODE_AT as int, cut);
    }
}

/// An extended frame with one of its fixed bits inverted is refused for
/// that bit: a set start bit, a clear substitute remote request, a clear
/// identifier extension bit, a clear CRC delimiter, a clear
/// acknowledgement delimiter.
pub proof fn lemma_extended_frame_with_wrong_bit(bits: Seq<bool>)
    requires
        extended_frame_of(bits) is Ok,
    ensures
        extended_frame_of(bits.update(0, true)) == Err::<
            ExtendedDataFrameView,
            CANFrameDecodingError,
        >(CANFrameDecodingError::StartOfFrameMustBeZero),
        extended_frame_of(bits.update(12, false)) == Err::<
            ExtendedDataFrameView,
            CANFrameDecodingError,
        >(CANFrameDecodingError::SubstituteRemoteRequestMustBeOne),
        extended_frame_of(bits.update(13, false)) == Err::<
            ExtendedDataFrameView,
            CANFrameDecodingError,
        >(CANFrameDecodingError::IdentifierExtensionBitMustBeOne),
        extended_frame_of(bits.update(extended_frame_len(bits) - 13, false)) == Err::<
            ExtendedDataFrameView,
            CANFrameDecodingError,
        >(CANFrameDecodingError::CyclicRedundancyCheckDelimiterMustBeOne),
        extended_frame_of(bits.update(extended_frame_len(bits) - 11, false)) == Err::<
            ExtendedDataFrameView,
            CANFrameDecodingError,
        >(CANFrameDecodingError::AcknowledgementDelimiterMustBeOne),
{
    lemma_tail_with_clear_delimiter(bits, EXTENDED_DATA_LENGTH_CODE_AT as int);
}

/// Bits that are stuffed for the wire decode, from the wire, to what they
/// decode to as they are.
pub proof fn lemma_extended_frame_survives_stuffing(bits: Seq<bool>)
    ensures
        extended_frame_of(unstuffed(stuffed(bits, STUFFING_WINDOW as nat), STUFFING_WINDOW as nat))
            == extended_frame_of(bits),
{
    lemma_unstuff_undoes_stuff(bits, STUFFING_WINDOW as nat);
}

} // verus!
