//! Data frames: what the base and the extended format share.

use crate::bits::{bits_get, bits_len, bits_load, field_value, max_bits, Bits};
use crate::can::frame::CANFrameDecodingError;
use crate::uint::{U1, U15, U3, U4, U7};
use vstd::arithmetic::power2::{lemma2_to64, lemma_pow2_unfold, pow2};
use vstd::prelude::*;

pub mod base;
pub mod extended;

verus! {

/// Window of the stuffing that frames on the bus carry.
pub const STUFFING_WINDOW: usize = 5;

/// Value of an end-of-frame field: seven set bits.
pub const END_OF_FRAME: u32 = 0x7F;

/// Value of an inter-frame spacing: three set bits.
pub const INTER_FRAME_SPACING: u32 = 0x7;

/// One for a set bit, zero for a clear one.
pub open spec fn bit_value(bit: bool) -> nat {
    if bit {
        1
    } else {
        0
    }
}

/// A field of `n` bits spells a number below two to the `n`.
pub proof fn lemma_field_value_bound(bits: Seq<bool>)
    ensures
        field_value(bits) < pow2(bits.len()),
    decreases bits.len(),
{
    if bits.len() == 0 {
        lemma2_to64();
    } else {
        lemma_field_value_bound(bits.drop_last());
        lemma_pow2_unfold(bits.len());
    }
}

/// The `length` bits at `offset` as a number, most significant bit first,
/// or `missing_error` if the bits end before the field does.
pub fn extract_field(
    bits: &Bits,
    offset: usize,
    length: usize,
    missing_error: CANFrameDecodingError,
) -> (result: Result<u32, CANFrameDecodingError>)
    requires
        1 <= length <= 32,
    ensures
        match result {
            Ok(value) => {
                &&& offset + length <= bits@.len()
                &&& value == field_value(bits@.subrange(offset as int, offset + length))
                &&& value < pow2(length as nat)
            },
            Err(error) => offset + length > bits@.len() && error == missing_error,
        },
{
    let len = bits_len(bits);
    if offset <= len && length <= len - offset {
        proof {
            lemma_field_value_bound(bits@.subrange(offset as int, offset + length));
        }
        Ok(bits_load(bits, offset, offset + length))
    } else {
        Err(missing_error)
    }
}

/// The bit at `offset`, or `missing_error` if the bits end before it.
pub fn extract_bit(bits: &Bits, offset: usize, missing_error: CANFrameDecodingError) -> (result:
    Result<bool, CANFrameDecodingError>)
    ensures
        result == if offset < bits@.len() {
            Ok::<bool, CANFrameDecodingError>(bits@[offset as int])
        } else {
            Err::<bool, CANFrameDecodingError>(missing_error)
        },
{
    if offset < bits_len(bits) {
        Ok(bits_get(bits, offset))
    } else {
        Err(missing_error)
    }
}

/// Number of bits in a frame from its CRC to its end: the CRC of fifteen
/// bits, its delimiter, the two acknowledgement bits, the end of frame of
/// seven bits and the spacing of three.
pub const CLOSING_BITS: usize = 28;

/// The part of a data frame that starts at its data length code, as
/// numbers.
pub struct DataFrameTailView {
    pub data_length_code: nat,
    pub data_field: Seq<u8>,
    pub cyclic_redundancy_check: nat,
    pub cyclic_redundancy_check_delimiter: nat,
    pub acknowledgement_slot: nat,
    pub acknowledgement_delimiter: nat,
    pub end_of_frame: nat,
    pub inter_frame_spacing: nat,
}

/// The byte that the eight bits from `at + 8 * index` on spell, most
/// significant bit first.
pub open spec fn payload_byte(bits: Seq<bool>, at: int, index: int) -> u8 {
    field_value(bits.subrange(at + 8 * index, at + 8 * index + 8)) as u8
}

/// The `count` bytes that the bits from `at` on spell.
pub open spec fn payload_of(bits: Seq<bool>, at: int, count: nat) -> Seq<u8> {
    Seq::new(count, |index: int| payload_byte(bits, at, index))
}

/// The data length code of a frame whose code starts at `at`.
pub open spec fn data_length_code_of(bits: Seq<bool>, at: int) -> nat {
    field_value(bits.subrange(at, at + 4))
}

/// Where the CRC starts in a frame whose data length code starts at `at`:
/// behind the code and eight bits of data for each unit of the code.
pub open spec fn crc_start(bits: Seq<bool>, at: int) -> int {
    at + 4 + 8 * data_length_code_of(bits, at)
}

/// The tail of a frame whose data length code starts at `at`, or the first
/// thing wrong with it, fields taken in their order on the wire.
pub open spec fn tail_of(bits: Seq<bool>, at: int) -> Result<
    DataFrameTailView,
    CANFrameDecodingError,
> {
    let crc = crc_start(bits, at);
    if bits.len() < at + 4 {
        Err(CANFrameDecodingError::DataLengthCodeMissing)
    } else if bits.len() < crc {
        Err(CANFrameDecodingError::DataFieldMissing)
    } else if bits.len() < crc + 15 {
        Err(CANFrameDecodingError::CyclicRedundancyCheckMissing)
    } else if bits.len() < crc + 16 {
        Err(CANFrameDecodingError::CyclicRedundancyCheckDelimiterMissing)
    } else if !bits[crc + 15] {
        Err(CANFrameDecodingError::CyclicRedundancyCheckDelimiterMustBeOne)
    } else if bits.len() < crc + 17 {
        Err(CANFrameDecodingError::AcknowledgementSlotMissing)
    } else if bits.len() < crc + 18 {
        Err(CANFrameDecodingError::AcknowledgementDelimiterMissing)
    } else if !bits[crc + 17] {
        Err(CANFrameDecodingError::AcknowledgementDelimiterMustBeOne)
    } else if bits.len() < crc + 25 {
        Err(CANFrameDecodingError::EndOfFrameMissing)
    } else if field_value(bits.subrange(crc + 18, crc + 25)) != END_OF_FRAME {
        Err(CANFrameDecodingError::EndOfFrameMustBeOne)
    } else if bits.len() < crc + 28 {
        Err(CANFrameDecodingError::InterFrameSpacingMissing)
    } else if field_value(bits.subrange(crc + 25, crc + 28)) != INTER_FRAME_SPACING {
        Err(CANFrameDecodingError::InterFrameSpacingMustBeOne)
    } else {
        Ok(
            DataFrameTailView {
                data_length_code: data_length_code_of(bits, at),
                data_field: payload_of(bits, at + 4, data_length_code_of(bits, at)),
                cyclic_redundancy_check: field_value(bits.subrange(crc, crc + 15)),
                cyclic_redundancy_check_delimiter: 1,
                acknowledgement_slot: bit_value(bits[crc + 16]),
                acknowledgement_delimiter: 1,
                end_of_frame: END_OF_FRAME as nat,
                inter_frame_spacing: INTER_FRAME_SPACING as nat,
            },
        )
    }
}

/// The part of a decoded data frame that starts at its data length code.
pub(crate) struct DataFrameTail {
    pub(crate) data_length_code: U4,
    pub(crate) data_field: Vec<u8>,
    pub(crate) cyclic_redundancy_check: U15,
    pub(crate) cyclic_redundancy_check_delimiter: U1,
    pub(crate) acknowledgement_slot: U1,
    pub(crate) acknowledgement_delimiter: U1,
    pub(crate) end_of_frame: U7,
    pub(crate) inter_frame_spacing: U3,
}

impl View for DataFrameTail {
    type V = DataFrameTailView;

    closed spec fn view(&self) -> DataFrameTailView {
        DataFrameTailView {
            data_length_code: self.data_length_code@,
            data_field: self.data_field@,
            cyclic_redundancy_check: self.cyclic_redundancy_check@,
            cyclic_redundancy_check_delimiter: self.cyclic_redundancy_check_delimiter@,
            acknowledgement_slot: self.acknowledgement_slot@,
            acknowledgement_delimiter: self.acknowledgement_delimiter@,
            end_of_frame: self.end_of_frame@,
            inter_frame_spacing: self.inter_frame_spacing@,
        }
    }
}

/// Reads `count` bytes of payload that start at `at`.
fn extract_payload(bits: &Bits, at: usize, count: usize) -> (result: Vec<u8>)
    requires
        at + 8 * count <= bits@.len(),
    ensures
        result@ == payload_of(bits@, at as int, count as nat),
{
    let len = bits_len(bits);
    let mut payload: Vec<u8> = Vec::new();
    let mut index: usize = 0;
    proof {
        lemma2_to64();
    }
    while index < count
        invariant
            index <= count,
            at + 8 * count <= bits@.len() <= max_bits(),
            payload@ == payload_of(bits@, at as int, index as nat),
            pow2(8) == 0x100,
        decreases count - index,
    {
        let start = at + 8 * index;
        proof {
            lemma_field_value_bound(bits@.subrange(start as int, start + 8));
        }
        let byte = bits_load(bits, start, start + 8);
        payload.push(byte as u8);
        index += 1;
        assert(payload@ =~= payload_of(bits@, at as int, index as nat));
    }
    payload
}

/// Decodes the tail of a frame whose data length code starts at `at`.
pub(crate) fn decode_tail(bits: &Bits, at: usize) -> (result: Result<
    DataFrameTail,
    CANFrameDecodingError,
>)
    requires
        at <= 64,
    ensures
        match tail_of(bits@, at as int) {
            Ok(tail) => result is Ok && result->Ok_0@ == tail,
            Err(error) => result == Err::<DataFrameTail, CANFrameDecodingError>(error),
        },
{
    proof {
        lemma2_to64();
    }
    let len = bits_len(bits);
    let code = match extract_field(bits, at, 4, CANFrameDecodingError::DataLengthCodeMissing) {
        Ok(code) => code,
        Err(error) => {
            return Err(error);
        },
    };
    let data_length_code = U4::new(code as u8);
    let data_at = at + 4;
    let count = code as usize;
    let crc_at = data_at + 8 * count;
    if len < crc_at {
        return Err(CANFrameDecodingError::DataFieldMissing);
    }
    let data_field = extract_payload(bits, data_at, count);
    let check = match extract_field(
        bits,
        crc_at,
        15,
        CANFrameDecodingError::CyclicRedundancyCheckMissing,
    ) {
        Ok(check) => check,
        Err(error) => {
            return Err(error);
        },
    };
    let cyclic_redundancy_check = U15::new(check as u16);
    let delimiter = match extract_bit(
        bits,
        crc_at + 15,
        CANFrameDecodingError::CyclicRedundancyCheckDelimiterMissing,
    ) {
        Ok(bit) => bit,
        Err(error) => {
            return Err(error);
        },
    };
    if !delimiter {
        return Err(CANFrameDecodingError::CyclicRedundancyCheckDelimiterMustBeOne);
    }
    let cyclic_redundancy_check_delimiter = U1::from_bit(delimiter);
    let slot = match extract_bit(
        bits,
        crc_at + 16,
        CANFrameDecodingError::AcknowledgementSlotMissing,
    ) {
        Ok(bit) => bit,
        Err(error) => {
            return Err(error);
        },
    };
    let acknowledgement_slot = U1::from_bit(slot);
    let delimiter = match extract_bit(
        bits,
        crc_at + 17,
        CANFrameDecodingError::AcknowledgementDelimiterMissing,
    ) {
        Ok(bit) => bit,
        Err(error) => {
            return Err(error);
        },
    };
    if !delimiter {
        return Err(CANFrameDecodingError::AcknowledgementDelimiterMustBeOne);
    }
    let acknowledgement_delimiter = U1::from_bit(delimiter);
    let end = match extract_field(bits, crc_at + 18, 7, CANFrameDecodingError::EndOfFrameMissing) {
        Ok(end) => end,
        Err(error) => {
            return Err(error);
        },
    };
    if end != END_OF_FRAME {
        return Err(CANFrameDecodingError::EndOfFrameMustBeOne);
    }
    let end_of_frame = U7::new(end as u8);
    let spacing = match extract_field(
        bits,
        crc_at + 25,
        3,
        CANFrameDecodingError::InterFrameSpacingMissing,
    ) {
        Ok(spacing) => spacing,
        Err(error) => {
            return Err(error);
        },
    };
    if spacing != INTER_FRAME_SPACING {
        return Err(CANFrameDecodingError::InterFrameSpacingMustBeOne);
    }
    let inter_frame_spacing = U3::new(spacing as u8);
    Ok(
        DataFrameTail {
            data_length_code,
            data_field,
            cyclic_redundancy_check,
            cyclic_redundancy_check_delimiter,
            acknowledgement_slot,
            acknowledgement_delimiter,
            end_of_frame,
            inter_frame_spacing,
        },
    )
}

/// The field that is cut when a frame whose data length code starts at
/// `at` is left with only its first `cut` bits, `cut` being at least `at`.
pub open spec fn tail_missing_at(bits: Seq<bool>, at: int, cut: int) -> CANFrameDecodingError {
    let crc = crc_start(bits, at);
    if cut < at + 4 {
        CANFrameDecodingError::DataLengthCodeMissing
    } else if cut < crc {
        CANFrameDecodingError::DataFieldMissing
    } else if cut < crc + 15 {
        CANFrameDecodingError::CyclicRedundancyCheckMissing
    } else if cut < crc + 16 {
        CANFrameDecodingError::CyclicRedundancyCheckDelimiterMissing
    } else if cut < crc + 17 {
        CANFrameDecodingError::AcknowledgementSlotMissing
    } else if cut < crc + 18 {
        CANFrameDecodingError::AcknowledgementDelimiterMissing
    } else if cut < crc + 25 {
        CANFrameDecodingError::EndOfFrameMissing
    } else {
        CANFrameDecodingError::InterFrameSpacingMissing
    }
}

/// The tail of a frame that is cut short is refused for the field that is
/// cut, and for nothing else.
pub proof fn lemma_truncated_tail(bits: Seq<bool>, at: int, cut: int)
    requires
        tail_of(bits, at) is Ok,
        0 <= at <= cut < crc_start(bits, at) + CLOSING_BITS,
    ensures
        tail_of(bits.take(cut), at) == Err::<DataFrameTailView, CANFrameDecodingError>(
            tail_missing_at(bits, at, cut),
        ),
{
    let kept = bits.take(cut);
    let crc = crc_start(bits, at);
    if cut >= at + 4 {
        assert(kept.subrange(at, at + 4) =~= bits.subrange(at, at + 4));
        assert(crc_start(kept, at) == crc);
        if cut >= crc + 25 {
            assert(kept.subrange(crc + 18, crc + 25) =~= bits.subrange(crc + 18, crc + 25));
        }
    }
}

/// A frame whose CRC delimiter or acknowledgement delimiter is cleared is
/// refused for that delimiter.
pub proof fn lemma_tail_with_clear_delimiter(bits: Seq<bool>, at: int)
    requires
        tail_of(bits, at) is Ok,
        0 <= at,
    ensures
        tail_of(bits.update(crc_start(bits, at) + 15, false), at) == Err::<
            DataFrameTailView,
            CANFrameDecodingError,
        >(CANFrameDecodingError::CyclicRedundancyCheckDelimiterMustBeOne),
        tail_of(bits.update(crc_start(bits, at) + 17, false), at) == Err::<
            DataFrameTailView,
            CANFrameDecodingError,
        >(CANFrameDecodingError::AcknowledgementDelimiterMustBeOne),
{
    let crc = crc_start(bits, at);
    let first = bits.update(crc + 15, false);
    let second = bits.update(crc + 17, false);
    assert(first.subrange(at, at + 4) =~= bits.subrange(at, at + 4));
    assert(second.subrange(at, at + 4) =~= bits.subrange(at, at + 4));
}

} // verus!
