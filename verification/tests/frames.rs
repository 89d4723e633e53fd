use can_decode::bits::Bits;
use can_decode::can::frame::data::base::BaseDataFrame;
use can_decode::can::frame::data::extended::ExtendedDataFrame;
use can_decode::can::frame::data::{extract_bit, extract_field};
use can_decode::can::frame::CANFrameDecodingError;
use can_decode::can::frame::CANFrameDecodingError as Error;
use can_decode::stuff;
use can_decode::uint::{U1, U11, U15, U18, U29, U3, U4, U7};

fn frame_bits(values: &[u8]) -> Bits {
    Bits::from_bools(&values.iter().map(|value| *value != 0).collect())
}

/// The bits of the given fields, each a value and a width, first field
/// first and most significant bit first.
fn fields(parts: &[(u32, usize)]) -> Vec<bool> {
    let mut bools = Vec::new();
    for (value, width) in parts {
        for position in (0..*width).rev() {
            bools.push((value >> position) & 1 == 1);
        }
    }
    bools
}

fn base_parts(identifier: u32, payload: &[u8], crc: u32) -> Vec<(u32, usize)> {
    let mut parts = vec![
        (0, 1),
        (identifier, 11),
        (0, 1),
        (0, 1),
        (0, 1),
        (payload.len() as u32, 4),
    ];
    for byte in payload {
        parts.push((u32::from(*byte), 8));
    }
    parts.extend([(crc, 15), (1, 1), (0, 1), (1, 1), (0x7F, 7), (0x7, 3)]);
    parts
}

fn extended_parts(a: u32, b: u32, payload: &[u8], crc: u32) -> Vec<(u32, usize)> {
    let mut parts = vec![
        (0, 1),
        (a, 11),
        (1, 1),
        (1, 1),
        (b, 18),
        (0, 1),
        (0, 1),
        (0, 1),
        (payload.len() as u32, 4),
    ];
    for byte in payload {
        parts.push((u32::from(*byte), 8));
    }
    parts.extend([(crc, 15), (1, 1), (0, 1), (1, 1), (0x7F, 7), (0x7, 3)]);
    parts
}

fn base_error(bools: &Vec<bool>) -> CANFrameDecodingError {
    match BaseDataFrame::from_unstuffed_bits(&Bits::from_bools(bools)) {
        Ok(_) => panic!("the bits decode"),
        Err(error) => error,
    }
}

fn extended_error(bools: &Vec<bool>) -> CANFrameDecodingError {
    match ExtendedDataFrame::from_unstuffed_bits(&Bits::from_bools(bools)) {
        Ok(_) => panic!("the bits decode"),
        Err(error) => error,
    }
}

#[test]
fn base_test_from_stuffed_bits() {
    let base_data_frame = BaseDataFrame::from_stuffed_bits(&frame_bits(&[
        0, // SOF
        0, 0, 0, 0, 1, 0, 0, 1, 0, 1, 0, 0, // ID
        0, // RTR
        0, // IDE
        0, // R0
        1, 0, 0, 0, 1, // DLC
        0, 0, 0, 0, 0, 1, 0, 0, 1, // DF
        1, 1, 1, 0, 1, 1, 1, 0, 1, 0, 1, 0, 0, 1, 1, // CRC
        1, // CRC Delim
        0, // ACK Slot
        1, // ACK Delim
        1, 1, 1, 1, 1, 1, 1, // EOF
        1, 1, 1, // IFS
    ]))
    .unwrap();

    assert_eq!(base_data_frame.start_of_frame(), U1::new(0b0));
    assert_eq!(base_data_frame.identifier(), U11::new(0b00000010100));
    assert_eq!(base_data_frame.remote_transmission_request(), U1::new(0b0));
    assert_eq!(base_data_frame.identifier_extension_bit(), U1::new(0b0));
    assert_eq!(base_data_frame.reserved_bit_zero(), U1::new(0b0));
    assert_eq!(base_data_frame.data_length_code(), U4::new(0b0001));
    assert_eq!(base_data_frame.cyclic_redundancy_check(), U15::new(0b111011101010011));
    assert_eq!(base_data_frame.cyclic_redundancy_check_delimiter(), U1::new(0b1));
    assert_eq!(base_data_frame.acknowledgement_slot(), U1::new(0b0));
    assert_eq!(base_data_frame.acknowledgement_delimiter(), U1::new(0b1));
    assert_eq!(base_data_frame.end_of_frame(), U7::new(0b1111111));
    assert_eq!(base_data_frame.inter_frame_spacing(), U3::new(0b111));
}

#[test]
fn extended_test_from_stuffed_bits() {
    let extended_data_frame = ExtendedDataFrame::from_stuffed_bits(&frame_bits(&[
        0, // SOF
        0, 0, 0, 0, 1, 0, 0, 1, 0, 1, 0, 0, // ID A
        1, // SRR
        1, // IDE
        1, 0, 1, 0, 1, 0, 1, 0, 1, 0, 1, 0, 1, 0, 1, 0, 1, 0, // ID B
        0, // RTR
        0, // R1
        0, // R0
        0, 1, 0, 0, 1, // DLC
        0, 0, 0, 0, 0, 1, 0, 0, 1, // DF
        1, 1, 1, 0, 1, 1, 1, 0, 1, 0, 1, 0, 0, 1, 1, // CRC
        1, // CRC Delim
        0, // ACK Slot
        1, // ACK Delim
        1, 1, 1, 1, 1, 1, 1, // EOF
        1, 1, 1, // IFS
    ]))
    .unwrap();

    assert_eq!(extended_data_frame.start_of_frame(), U1::new(0b0));
    assert_eq!(extended_data_frame.identifier_a(), U11::new(0b00000010100));
    assert_eq!(extended_data_frame.substitute_remote_request(), U1::new(0b1));
    assert_eq!(extended_data_frame.identifier_extension_bit(), U1::new(0b1));
    assert_eq!(extended_data_frame.identifier_b(), U18::new(0b101010101010101010));
    assert_eq!(
        extended_data_frame.identifier(),
        U29::new(0b00000010100101010101010101010)
    );
    assert_eq!(extended_data_frame.remote_transmission_request(), U1::new(0b0));
    assert_eq!(extended_data_frame.reserved_bit_one(), U1::new(0b0));
    assert_eq!(extended_data_frame.reserved_bit_zero(), U1::new(0b0));
    assert_eq!(extended_data_frame.data_length_code(), U4::new(0b0001));
    assert_eq!(
        extended_data_frame.cyclic_redundancy_check(),
        U15::new(0b111011101010011)
    );
    assert_eq!(extended_data_frame.cyclic_redundancy_check_delimiter(), U1::new(0b1));
    assert_eq!(extended_data_frame.acknowledgement_slot(), U1::new(0b0));
    assert_eq!(extended_data_frame.acknowledgement_delimiter(), U1::new(0b1));
    assert_eq!(extended_data_frame.end_of_frame(), U7::new(0b1111111));
    assert_eq!(extended_data_frame.inter_frame_spacing(), U3::new(0b111));
}

#[test]
fn base_frame_carries_its_payload() {
    let frame = BaseDataFrame::from_stuffed_bits(&frame_bits(&[
        0, 0, 0, 0, 0, 1, 0, 0, 1, 0, 1, 0, 0, 0, 0, 0, 1, 0, 0, 0, 1, 0, 0, 0, 0, 0, 1, 0, 0, 1,
        1, 1, 1, 0, 1, 1, 1, 0, 1, 0, 1, 0, 0, 1, 1, 1, 0, 1, 1, 1, 1, 1, 1, 1, 1, 1, 1, 1,
    ]))
    .unwrap();
    assert_eq!(frame.data_field(), &vec![0x01]);
}

#[test]
fn base_frame_fields_cross_storage_words() {
    let payload = [0x12, 0x34, 0x56, 0x78, 0x9A, 0xBC, 0xDE, 0xF0];
    let bools = fields(&base_parts(0x5A5, &payload, 0x2AAA));
    assert_eq!(bools.len(), 47 + 64);
    let frame = BaseDataFrame::from_unstuffed_bits(&Bits::from_bools(&bools)).unwrap();
    assert_eq!(frame.identifier(), U11::new(0x5A5));
    assert_eq!(frame.data_length_code(), U4::new(8));
    assert_eq!(frame.data_field(), &payload.to_vec());
    assert_eq!(frame.cyclic_redundancy_check(), U15::new(0x2AAA));

    let stuffed = stuff(&Bits::from_bools(&bools), 5);
    let frame = BaseDataFrame::from_stuffed_bits(&stuffed).unwrap();
    assert_eq!(frame.identifier(), U11::new(0x5A5));
    assert_eq!(frame.data_field(), &payload.to_vec());
    assert_eq!(frame.cyclic_redundancy_check(), U15::new(0x2AAA));
}

#[test]
fn extended_frame_fields_cross_storage_words() {
    let payload = [0xFF, 0x00, 0xA5, 0x5A, 0x81, 0x7E];
    let bools = fields(&extended_parts(0x7FF, 0x2FEDC, &payload, 0x4321));
    let frame = ExtendedDataFrame::from_unstuffed_bits(&Bits::from_bools(&bools)).unwrap();
    assert_eq!(frame.identifier_a(), U11::new(0x7FF));
    assert_eq!(frame.identifier_b(), U18::new(0x2FEDC));
    assert_eq!(frame.identifier(), U29::new((0x7FF << 18) | 0x2FEDC));
    assert_eq!(frame.data_length_code(), U4::new(6));
    assert_eq!(frame.data_field(), &payload.to_vec());
    assert_eq!(frame.cyclic_redundancy_check(), U15::new(0x4321));
}

#[test]
fn data_length_code_above_eight_counts_bytes_too() {
    let payload = [0x11; 15];
    let bools = fields(&base_parts(1, &payload, 0));
    let frame = BaseDataFrame::from_unstuffed_bits(&Bits::from_bools(&bools)).unwrap();
    assert_eq!(frame.data_length_code(), U4::new(15));
    assert_eq!(frame.data_field().len(), 15);
}

#[test]
fn bits_behind_a_frame_are_ignored() {
    let mut bools = fields(&base_parts(0x123, &[0xAB], 0x1234));
    bools.extend([false, true, false]);
    let frame = BaseDataFrame::from_unstuffed_bits(&Bits::from_bools(&bools)).unwrap();
    assert_eq!(frame.identifier(), U11::new(0x123));
    assert_eq!(frame.data_field(), &vec![0xAB]);
}

#[test]
fn truncated_base_frame_misses_the_field_that_is_cut() {
    let parts = base_parts(0x014, &[0x01], 0x7753);
    let expected = [
        Error::StartOfFrameMissing,
        Error::IdentifierMissing,
        Error::RemoteTransmissionRequestMissing,
        Error::IdentifierExtensionBitMissing,
        Error::ReservedBitZeroMissing,
        Error::DataLengthCodeMissing,
        Error::DataFieldMissing,
        Error::CyclicRedundancyCheckMissing,
        Error::CyclicRedundancyCheckDelimiterMissing,
        Error::AcknowledgementSlotMissing,
        Error::AcknowledgementDelimiterMissing,
        Error::EndOfFrameMissing,
        Error::InterFrameSpacingMissing,
    ];
    assert_eq!(parts.len(), expected.len());
    for kept in 0..parts.len() {
        // All fields before `kept`, and then the field cut at every length
        // short of its own.
        let whole = fields(&parts[..kept]);
        let next = fields(&parts[kept..kept + 1]);
        for extra in 0..next.len() {
            let mut bools = whole.clone();
            bools.extend(&next[..extra]);
            assert_eq!(base_error(&bools), expected[kept]);
        }
    }
    assert!(BaseDataFrame::from_unstuffed_bits(&Bits::from_bools(&fields(&parts))).is_ok());
}

#[test]
fn truncated_extended_frame_misses_the_field_that_is_cut() {
    let parts = extended_parts(0x014, 0x2AAAA, &[0x01], 0x7753);
    let expected = [
        Error::StartOfFrameMissing,
        Error::IdentifierAMissing,
        Error::SubstituteRemoteRequestMissing,
        Error::IdentifierExtensionBitMissing,
        Error::IdentifierBMissing,
        Error::RemoteTransmissionRequestMissing,
        Error::ReservedBitOneMissing,
        Error::ReservedBitZeroMissing,
        Error::DataLengthCodeMissing,
        Error::DataFieldMissing,
        Error::CyclicRedundancyCheckMissing,
        Error::CyclicRedundancyCheckDelimiterMissing,
        Error::AcknowledgementSlotMissing,
        Error::AcknowledgementDelimiterMissing,
        Error::EndOfFrameMissing,
        Error::InterFrameSpacingMissing,
    ];
    assert_eq!(parts.len(), expected.len());
    for kept in 0..parts.len() {
        let whole = fields(&parts[..kept]);
        let next = fields(&parts[kept..kept + 1]);
        for extra in 0..next.len() {
            let mut bools = whole.clone();
            bools.extend(&next[..extra]);
            assert_eq!(extended_error(&bools), expected[kept]);
        }
    }
    assert!(ExtendedDataFrame::from_unstuffed_bits(&Bits::from_bools(&fields(&parts))).is_ok());
}

#[test]
fn base_frame_with_a_wrong_constant_is_refused() {
    let good = fields(&base_parts(0x014, &[0x01], 0x7753));
    let crc_at = 19 + 8;
    let flips = [
        (0, Error::StartOfFrameMustBeZero),
        (13, Error::IdentifierExtensionBitMustBeZero),
        (crc_at + 15, Error::CyclicRedundancyCheckDelimiterMustBeOne),
        (crc_at + 17, Error::AcknowledgementDelimiterMustBeOne),
        (crc_at + 18, Error::EndOfFrameMustBeOne),
        (crc_at + 24, Error::EndOfFrameMustBeOne),
        (crc_at + 25, Error::InterFrameSpacingMustBeOne),
        (crc_at + 27, Error::InterFrameSpacingMustBeOne),
    ];
    for (position, expected) in flips {
        let mut bools = good.clone();
        bools[position] = !bools[position];
        assert_eq!(base_error(&bools), expected);
    }
}

#[test]
fn extended_frame_with_a_wrong_constant_is_refused() {
    let good = fields(&extended_parts(0x014, 0x2AAAA, &[0x01], 0x7753));
    let crc_at = 39 + 8;
    let flips = [
        (0, Error::StartOfFrameMustBeZero),
        (12, Error::SubstituteRemoteRequestMustBeOne),
        (13, Error::IdentifierExtensionBitMustBeOne),
        (crc_at + 15, Error::CyclicRedundancyCheckDelimiterMustBeOne),
        (crc_at + 17, Error::AcknowledgementDelimiterMustBeOne),
        (crc_at + 21, Error::EndOfFrameMustBeOne),
        (crc_at + 26, Error::InterFrameSpacingMustBeOne),
    ];
    for (position, expected) in flips {
        let mut bools = good.clone();
        bools[position] = !bools[position];
        assert_eq!(extended_error(&bools), expected);
    }
}

#[test]
fn free_bits_of_a_frame_are_read_as_they_are() {
    let mut bools = fields(&base_parts(0x7FF, &[], 0x7FFF));
    bools[12] = true;
    bools[14] = true;
    bools[19 + 16] = true;
    let frame = BaseDataFrame::from_unstuffed_bits(&Bits::from_bools(&bools)).unwrap();
    assert_eq!(frame.remote_transmission_request(), U1::new(1));
    assert_eq!(frame.reserved_bit_zero(), U1::new(1));
    assert_eq!(frame.acknowledgement_slot(), U1::new(1));
    assert_eq!(frame.data_length_code(), U4::new(0));
    assert!(frame.data_field().is_empty());

    let mut bools = fields(&extended_parts(0, 0, &[], 0));
    bools[32] = true;
    bools[33] = true;
    bools[34] = true;
    let frame = ExtendedDataFrame::from_unstuffed_bits(&Bits::from_bools(&bools)).unwrap();
    assert_eq!(frame.remote_transmission_request(), U1::new(1));
    assert_eq!(frame.reserved_bit_one(), U1::new(1));
    assert_eq!(frame.reserved_bit_zero(), U1::new(1));
    assert_eq!(frame.identifier(), U29::new(0));
}

#[test]
fn fields_are_read_most_significant_bit_first() {
    let bools = fields(&[(0b1, 1), (0xDEADBEE, 28), (0b10, 2), (0x7FFFFFFF, 31), (0x12345, 17)]);
    let bits = Bits::from_bools(&bools);
    let missing = CANFrameDecodingError::IdentifierMissing;
    assert_eq!(extract_field(&bits, 0, 1, missing), Ok(1));
    assert_eq!(extract_field(&bits, 1, 28, missing), Ok(0xDEADBEE));
    assert_eq!(extract_field(&bits, 29, 2, missing), Ok(0b10));
    assert_eq!(extract_field(&bits, 31, 31, missing), Ok(0x7FFFFFFF));
    assert_eq!(extract_field(&bits, 62, 17, missing), Ok(0x12345));
    assert_eq!(extract_field(&bits, 63, 17, missing), Err(missing));
    assert_eq!(extract_field(&bits, 79, 1, missing), Err(missing));
    assert_eq!(extract_field(&bits, usize::MAX, 4, missing), Err(missing));
    assert_eq!(extract_bit(&bits, 0, missing), Ok(true));
    assert_eq!(extract_bit(&bits, 30, missing), Ok(false));
    assert_eq!(extract_bit(&bits, 79, missing), Err(missing));
}
