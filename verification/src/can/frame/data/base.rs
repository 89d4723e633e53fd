//! The base data frame, with its identifier of eleven bits.

use crate::bits::{field_value, Bits};
use crate::can::frame::data::{
    bit_value, crc_start, decode_tail, extract_bit, extract_field, lemma_tail_with_clear_delimiter,
    lemma_truncated_tail, payload_byte, tail_missing_at, tail_of, DataFrameTailView, CLOSING_BITS, END_OF_FRAME,
    INTER_FRAME_SPACING, STUFFING_WINDOW,
};
use crate::can::frame::CANFrameDecodingError;
use crate::stuffing::{lemma_unstuff_undoes_stuff, stuffed, unstuffed};
use crate::uint::{U1, U11, U15, U3, U4, U7};
use crate::unstuff;
use vstd::arithmetic::power2::lemma2_to64;
use vstd::prelude::*;

verus! {

/// Where the data length code of a base frame starts: behind the start
/// bit, the identifier and three single bits.
pub const BASE_DATA_LENGTH_CODE_AT: usize = 15;

/// A base data frame as numbers, field by field in the order of the wire.
pub struct BaseDataFrameView {
    pub start_of_frame: nat,
    pub identifier: nat,
    pub remote_transmission_request: nat,
    pub identifier_extension_bit: nat,
    pub reserved_bit_zero: nat,
    pub data_length_code: nat,
    pub data_field: Seq<u8>,
    pub cyclic_redundancy_check: nat,
    pub cyclic_redundancy_check_delimiter: nat,
    pub acknowledgement_slot: nat,
    pub acknowledgement_delimiter: nat,
    pub end_of_frame: nat,
    pub inter_frame_spacing: nat,
}

impl BaseDataFrameView {
    /// The fields that the format fixes have their values, and the data
    /// field is as long as the data length code says.
    pub open spec fn wf(self) -> bool {
        &&& self.start_of_frame == 0
        &&& self.identifier_extension_bit == 0
        &&& self.cyclic_redundancy_check_delimiter == 1
        &&& self.acknowledgement_delimiter == 1
        &&& self.end_of_frame == END_OF_FRAME
        &&& self.inter_frame_spacing == INTER_FRAME_SPACING
        &&& self.data_field.len() == self.data_length_code
    }
}

/// The base frame made of a head and a tail.
pub open spec fn base_frame_with(bits: Seq<bool>, tail: DataFrameTailView) -> BaseDataFrameView {
    BaseDataFrameView {
        start_of_frame: 0,
        identifier: field_value(bits.subrange(1, 12)),
        remote_transmission_request: bit_value(bits[12]),
        identifier_extension_bit: 0,
        reserved_bit_zero: bit_value(bits[14]),
        data_length_code: tail.data_length_code,
        data_field: tail.data_field,
        cyclic_redundancy_check: tail.cyclic_redundancy_check,
        cyclic_redundancy_check_delimiter: tail.cyclic_redundancy_check_delimiter,
        acknowledgement_slot: tail.acknowledgement_slot,
        acknowledgement_delimiter: tail.acknowledgement_delimiter,
        end_of_frame: tail.end_of_frame,
        inter_frame_spacing: tail.inter_frame_spacing,
    }
}

/// The base data frame that destuffed bits spell, or the first thing wrong
/// with them, fields taken in their order on the wire. Bits behind the
/// frame are not looked at.
pub open spec fn base_frame_of(bits: Seq<bool>) -> Result<
    BaseDataFrameView,
    CANFrameDecodingError,
> {
    if bits.len() < 1 {
        Err(CANFrameDecodingError::StartOfFrameMissing)
    } else if bits[0] {
        Err(CANFrameDecodingError::StartOfFrameMustBeZero)
    } else if bits.len() < 12 {
        Err(CANFrameDecodingError::IdentifierMissing)
    } else if bits.len() < 13 {
        Err(CANFrameDecodingError::RemoteTransmissionRequestMissing)
    } else if bits.len() < 14 {
        Err(CANFrameDecodingError::IdentifierExtensionBitMissing)
    } else if bits[13] {
        Err(CANFrameDecodingError::IdentifierExtensionBitMustBeZero)
    } else if bits.len() < 15 {
        Err(CANFrameDecodingError::ReservedBitZeroMissing)
    } else {
        match tail_of(bits, BASE_DATA_LENGTH_CODE_AT as int) {
            Ok(tail) => Ok(base_frame_with(bits, tail)),
            Err(error) => Err(error),
        }
    }
}

/// A decoded base data frame.
pub struct BaseDataFrame {
    start_of_frame: U1,
    identifier: U11,
    remote_transmission_request: U1,
    identifier_extension_bit: U1,
    reserved_bit_zero: U1,
    data_length_code: U4,
    data_field: Vec<u8>,
    cyclic_redundancy_check: U15,
    cyclic_redundancy_check_delimiter: U1,
    acknowledgement_slot: U1,
    acknowledgement_delimiter: U1,
    end_of_frame: U7,
    inter_frame_spacing: U3,
}

impl View for BaseDataFrame {
    type V = BaseDataFrameView;

    closed spec fn view(&self) -> BaseDataFrameView {
        BaseDataFrameView {
            start_of_frame: self.start_of_frame@,
            identifier: self.identifier@,
            remote_transmission_request: self.remote_transmission_request@,
            identifier_extension_bit: self.identifier_extension_bit@,
            reserved_bit_zero: self.reserved_bit_zero@,
            data_length_code: self.data_length_code@,
            data_field: self.data_field@,
            cyclic_redundancy_check: self.cyclic_redundancy_check@,
            cyclic_redundancy_check_delimiter: self.cyclic_redundancy_check_delimiter@,
            acknowledgement_slot: self.acknowledgement_slot@,
            acknowledgement_delimiter: self.acknowledgement_delimiter@,
            end_of_frame: self.end_of_frame@,
            inter_frame_spacing: self.inter_frame_spacing@,
        }
    }
}

/// Whether `result` is what decoding should give when the bits spell
/// `expected`.
pub open spec fn base_decoded_as(
    result: Result<BaseDataFrame, CANFrameDecodingError>,
    expected: Result<BaseDataFrameView, CANFrameDecodingError>,
) -> bool {
    match expected {
        Ok(frame) => result is Ok && result->Ok_0@ == frame,
        Err(error) => result == Err::<BaseDataFrame, CANFrameDecodingError>(error),
    }
}

impl BaseDataFrame {
    /// Every frame is well formed.
    #[verifier::type_invariant]
    pub open spec fn wf(&self) -> bool {
        self@.wf()
    }

    /// Decodes bits from which the stuffing bits have been removed.
    pub fn from_unstuffed_bits(unstuffed_bits: &Bits) -> (result: Result<
        Self,
        CANFrameDecodingError,
    >)
        ensures
            base_decoded_as(result, base_frame_of(unstuffed_bits@)),
    {
        proof {
            lemma2_to64();
        }
        let start = match extract_bit(
            unstuffed_bits,
            0,
            CANFrameDecodingError::StartOfFrameMissing,
        ) {
            Ok(bit) => bit,
            Err(error) => {
                return Err(error);
            },
        };
        if start {
            return Err(CANFrameDecodingError::StartOfFrameMustBeZero);
        }
        let start_of_frame = U1::from_bit(start);
        let identifier = match extract_field(
            unstuffed_bits,
            1,
            11,
            CANFrameDecodingError::IdentifierMissing,
        ) {
            Ok(value) => U11::new(value as u16),
            Err(error) => {
                return Err(error);
            },
        };
        let remote_transmission_request = match extract_bit(
            unstuffed_bits,
            12,
            CANFrameDecodingError::RemoteTransmissionRequestMissing,
        ) {
            Ok(bit) => U1::from_bit(bit),
            Err(error) => {
                return Err(error);
            },
        };
        let extension = match extract_bit(
            unstuffed_bits,
            13,
            CANFrameDecodingError::IdentifierExtensionBitMissing,
        ) {
            Ok(bit) => bit,
            Err(error) => {
                return Err(error);
            },
        };
        if extension {
            return Err(CANFrameDecodingError::IdentifierExtensionBitMustBeZero);
        }
        let identifier_extension_bit = U1::from_bit(extension);
        let reserved_bit_zero = match extract_bit(
            unstuffed_bits,
            14,
            CANFrameDecodingError::ReservedBitZeroMissing,
        ) {
            Ok(bit) => U1::from_bit(bit),
            Err(error) => {
                return Err(error);
            },
        };
        let tail = match decode_tail(unstuffed_bits, BASE_DATA_LENGTH_CODE_AT) {
            Ok(tail) => tail,
            Err(error) => {
                return Err(error);
            },
        };
        Ok(
            Self {
                start_of_frame,
                identifier,
                remote_transmission_request,
                identifier_extension_bit,
                reserved_bit_zero,
                data_length_code: tail.data_length_code,
                data_field: tail.data_field,
                cyclic_redundancy_check: tail.cyclic_redundancy_check,
                cyclic_redundancy_check_delimiter: tail.cyclic_redundancy_check_delimiter,
                acknowledgement_slot: tail.acknowledgement_slot,
                acknowledgement_delimiter: tail.acknowledgement_delimiter,
                end_of_frame: tail.end_of_frame,
                inter_frame_spacing: tail.inter_frame_spacing,
            },
        )
    }

    /// Decodes bits as they are on the wire: removes the stuffing bits for
    /// a window of five, then decodes what is left.
    pub fn from_stuffed_bits(stuffed_bits: &Bits) -> (result: Result<Self, CANFrameDecodingError>)
        ensures
            base_decoded_as(
                result,
                base_frame_of(unstuffed(stuffed_bits@, STUFFING_WINDOW as nat)),
            ),
    {
        let unstuffed_bits = unstuff(stuffed_bits, STUFFING_WINDOW);
        Self::from_unstuffed_bits(&unstuffed_bits)
    }

    /// The start bit, which is clear.
    pub fn start_of_frame(&self) -> (result: U1)
        ensures
            result@ == self@.start_of_frame,
            result@ == 0,
    {
        proof {
            use_type_invariant(self);
        }
        self.start_of_frame
    }

    /// The identifier.
    pub fn identifier(&self) -> (result: U11)
        ensures
            result@ == self@.identifier,
    {
        self.identifier
    }

    /// The remote transmission request bit.
    pub fn remote_transmission_request(&self) -> (result: U1)
        ensures
            result@ == self@.remote_transmission_request,
    {
        self.remote_transmission_request
    }

    /// The identifier extension bit, which is clear.
    pub fn identifier_extension_bit(&self) -> (result: U1)
        ensures
            result@ == self@.identifier_extension_bit,
            result@ == 0,
    {
        proof {
            use_type_invariant(self);
        }
        self.identifier_extension_bit
    }

    /// The last reserved bit.
    pub fn reserved_bit_zero(&self) -> (result: U1)
        ensures
            result@ == self@.reserved_bit_zero,
    {
        self.reserved_bit_zero
    }

    /// The data length code: the number of bytes in the data field.
    pub fn data_length_code(&self) -> (result: U4)
        ensures
            result@ == self@.data_length_code,
    {
        self.data_length_code
    }

    /// The payload: as many bytes as the data length code says, each read
    /// most significant bit first.
    pub fn data_field(&self) -> (result: &Vec<u8>)
        ensures
            result@ == self@.data_field,
            result@.len() == self@.data_length_code,
    {
        proof {
            use_type_invariant(self);
        }
        &self.data_field
    }

    /// The CRC as it stands in the frame. It is not checked against the bits.
    pub fn cyclic_redundancy_check(&self) -> (result: U15)
        ensures
            result@ == self@.cyclic_redundancy_check,
    {
        self.cyclic_redundancy_check
    }

    /// The CRC delimiter, which is set.
    pub fn cyclic_redundancy_check_delimiter(&self) -> (result: U1)
        ensures
            result@ == self@.cyclic_redundancy_check_delimiter,
            result@ == 1,
    {
        proof {
            use_type_invariant(self);
        }
        self.cyclic_redundancy_check_delimiter
    }

    /// The acknowledgement slot.
    pub fn acknowledgement_slot(&self) -> (result: U1)
        ensures
            result@ == self@.acknowledgement_slot,
    {
        self.acknowledgement_slot
    }

    /// The acknowledgement delimiter, which is set.
    pub fn acknowledgement_delimiter(&self) -> (result: U1)
        ensures
            result@ == self@.acknowledgement_delimiter,
            result@ == 1,
    {
        proof {
            use_type_invariant(self);
        }
        self.acknowledgement_delimiter
    }

    /// The end of frame: seven set bits.
    pub fn end_of_frame(&self) -> (result: U7)
        ensures
            result@ == self@.end_of_frame,
            result@ == END_OF_FRAME,
    {
        proof {
            use_type_invariant(self);
        }
        self.end_of_frame
    }

    /// The inter-frame spacing: three set bits.
    pub fn inter_frame_spacing(&self) -> (result: U3)
        ensures
            result@ == self@.inter_frame_spacing,
            result@ == INTER_FRAME_SPACING,
    {
        proof {
            use_type_invariant(self);
        }
        self.inter_frame_spacing
    }
}

/// The number of bits of the base frame that `bits` starts with.
pub open spec fn base_frame_len(bits: Seq<bool>) -> int {
    crc_start(bits, BASE_DATA_LENGTH_CODE_AT as int) + CLOSING_BITS
}

/// The field that is cut when a base frame is left with only its first
/// `cut` bits.
pub open spec fn base_missing_at(bits: Seq<bool>, cut: int) -> CANFrameDecodingError {
    if cut < 1 {
        CANFrameDecodingError::StartOfFrameMissing
    } else if cut < 12 {
        CANFrameDecodingError::IdentifierMissing
    } else if cut < 13 {
        CANFrameDecodingError::RemoteTransmissionRequestMissing
    } else if cut < 14 {
        CANFrameDecodingError::IdentifierExtensionBitMissing
    } else if cut < 15 {
        CANFrameDecodingError::ReservedBitZeroMissing
    } else {
        tail_missing_at(bits, BASE_DATA_LENGTH_CODE_AT as int, cut)
    }
}

/// What decodes as a base frame has all the bits of that frame, and the
/// frame is well formed.
pub proof fn lemma_base_frame_is_whole(bits: Seq<bool>)
    requires
        base_frame_of(bits) is Ok,
    ensures
        base_frame_len(bits) <= bits.len(),
        base_frame_of(bits)->Ok_0.wf(),
        base_frame_of(bits.take(base_frame_len(bits))) == base_frame_of(bits),
{
    let whole = bits.take(base_frame_len(bits));
    let crc = crc_start(bits, BASE_DATA_LENGTH_CODE_AT as int);
    assert(whole.subrange(15, 19) =~= bits.subrange(15, 19));
    assert(whole.subrange(1, 12) =~= bits.subrange(1, 12));
    assert(whole.subrange(crc, crc + 15) =~= bits.subrange(crc, crc + 15));
    assert(whole.subrange(crc + 18, crc + 25) =~= bits.subrange(crc + 18, crc + 25));
    assert(whole.subrange(crc + 25, crc + 28) =~= bits.subrange(crc + 25, crc + 28));
    let count = field_value(bits.subrange(15, 19));
    assert forall|k: int| 0 <= k < count implies payload_byte(whole, 19, k) == payload_byte(
        bits,
        19,
        k,
    ) by {
        assert(whole.subrange(19 + 8 * k, 19 + 8 * k + 8) =~= bits.subrange(
            19 + 8 * k,
            19 + 8 * k + 8,
        ));
    }
    assert(base_frame_of(whole)->Ok_0.data_field =~= base_frame_of(bits)->Ok_0.data_field);
}

/// A base frame that is cut short anywhere is refused for the field that
/// is cut: with any trailing fields removed, the error names the first
/// field that is gone.
pub proof fn lemma_truncated_base_frame(bits: Seq<bool>, cut: int)
    requires
        base_frame_of(bits) is Ok,
        0 <= cut < base_frame_len(bits),
    ensures
        base_frame_of(bits.take(cut)) == Err::<BaseDataFrameView, CANFrameDecodingError>(
            base_missing_at(bits, cut),
        ),
{
    if cut >= 15 {
        lemma_truncated_tail(bits, BASE_DATA_LENGTH_CODE_AT as int, cut);
    }
}

/// A base frame with one of its fixed bits inverted is refused for that
/// bit: a set start bit, a set identifier extension bit, a clear CRC
/// delimiter, a clear acknowledgement delimiter.
pub proof fn lemma_base_frame_with_wrong_bit(bits: Seq<bool>)
    requires
        base_frame_of(bits) is Ok,
    ensures
        base_frame_of(bits.update(0, true)) == Err::<BaseDataFrameView, CANFrameDecodingError>(
            CANFrameDecodingError::StartOfFrameMustBeZero,
        ),
        base_frame_of(bits.update(13, true)) == Err::<BaseDataFrameView, CANFrameDecodingError>(
            CANFrameDecodingError::IdentifierExtensionBitMustBeZero,
        ),
        base_frame_of(bits.update(base_frame_len(bits) - 13, false)) == Err::<
            BaseDataFrameView,
            CANFrameDecodingError,
        >(CANFrameDecodingError::CyclicRedundancyCheckDelimiterMustBeOne),
        base_frame_of(bits.update(base_frame_len(bits) - 11, false)) == Err::<
            BaseDataFrameView,
            CANFrameDecodingError,
        >(CANFrameDecodingError::AcknowledgementDelimiterMustBeOne),
{
    lemma_tail_with_clear_delimiter(bits, BASE_DATA_LENGTH_CODE_AT as int);
}

/// Bits that are stuffed for the wire decode, from the wire, to what they
/// decode to as they are.
pub proof fn lemma_base_frame_survives_stuffing(bits: Seq<bool>)
    ensures
        base_frame_of(unstuffed(stuffed(bits, STUFFING_WINDOW as nat), STUFFING_WINDOW as nat))
            == base_frame_of(bits),
{
    lemma_unstuff_undoes_stuff(bits, STUFFING_WINDOW as nat);
}

} // verus!
