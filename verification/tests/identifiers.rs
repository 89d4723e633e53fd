use can_decode::can::can_db_id::CANDBID;
use can_decode::can::can_id::CANID;
use can_decode::j1939::j1939_id::{CANIDToJ1939IDError, J1939ID};
use can_decode::j1939::pdu::PDU;
use can_decode::j1939::pgn::PGN;
use can_decode::uint::{U1, U11, U15, U18, U29, U3, U4, U7};

#[test]
fn test_can_db_id_to_can_id() {
    let standard_can_db_id = CANDBID::Standard(U11::new(0b00000000001));
    let standard_can_id = CANID::from(standard_can_db_id);
    assert_eq!(standard_can_id, CANID::Standard(U11::new(0b00000000001)));

    let extended_can_db_id = CANDBID::Extended(0b10000000000000000000000000000001);
    let extended_can_id = CANID::from(extended_can_db_id);
    assert_eq!(
        extended_can_id,
        CANID::Extended(U29::new(0b00000000000000000000000000001))
    );
}

#[test]
fn test_can_id_to_can_db_id() {
    let standard_can_id = CANID::Standard(U11::new(0b00000000001));
    let standard_can_db_id = CANDBID::from(standard_can_id);
    assert_eq!(standard_can_db_id, CANDBID::Standard(U11::new(0b00000000001)));

    let extended_can_id = CANID::Extended(U29::new(0b00000000000000000000000000001));
    let extended_can_db_id = CANDBID::from(extended_can_id);
    assert_eq!(
        extended_can_db_id,
        CANDBID::Extended(0b10000000000000000000000000000001)
    );
}

#[test]
pub fn test_can_id_to_j1939_id() {
    let standard_can_id = CANID::Standard(U11::new(0b00000000000));
    assert!(J1939ID::try_from(standard_can_id).is_err());

    let extended_can_id = CANID::Extended(U29::new(0x18FF0105));
    let j1939_id = J1939ID::try_from(extended_can_id).unwrap();
    assert_eq!(j1939_id.get_priority_raw(), U3::new(6));
    assert_eq!(j1939_id.get_pgn(), PGN::new(PDU::new(0xFF, 0x01)));
    assert_eq!(j1939_id.get_source_address_raw(), 5);
}

#[test]
fn standard_can_id_is_no_j1939_id() {
    for value in [0u16, 1, 0x7FF] {
        assert_eq!(
            J1939ID::try_from(CANID::Standard(U11::new(value))),
            Err(CANIDToJ1939IDError)
        );
    }
}

#[test]
fn can_id_round_trips_through_can_db_id() {
    for value in [0u16, 1, 0x555, 0x7FF] {
        let id = CANID::Standard(U11::new(value));
        assert_eq!(CANID::from(CANDBID::from(id)), id);
    }
    for value in [0u32, 1, 0x18FF0105, 0x1FFFFFFF] {
        let id = CANID::Extended(U29::new(value));
        assert_eq!(CANDBID::from(id), CANDBID::Extended(value | 0x80000000));
        assert_eq!(CANID::from(CANDBID::from(id)), id);
    }
}

#[test]
fn can_db_id_drops_bits_above_the_identifier() {
    assert_eq!(
        CANID::from(CANDBID::Extended(0xFFFFFFFF)),
        CANID::Extended(U29::new(0x1FFFFFFF))
    );
    assert_eq!(
        CANID::from(CANDBID::Extended(0x60000005)),
        CANID::Extended(U29::new(5))
    );
    assert_eq!(
        CANDBID::from(CANID::from(CANDBID::Extended(0x60000005))),
        CANDBID::Extended(0x80000005)
    );
}

#[test]
fn bounded_integers_accept_their_width_only() {
    assert_eq!(U1::try_new(1).map(U1::get), Some(1));
    assert_eq!(U1::try_new(2), None);
    assert_eq!(U3::try_new(7).map(U3::get), Some(7));
    assert_eq!(U3::try_new(8), None);
    assert_eq!(U4::try_new(15).map(U4::get), Some(15));
    assert_eq!(U4::try_new(16), None);
    assert_eq!(U7::try_new(0x7F).map(U7::get), Some(0x7F));
    assert_eq!(U7::try_new(0x80), None);
    assert_eq!(U11::try_new(0x7FF).map(U11::get), Some(0x7FF));
    assert_eq!(U11::try_new(0x800), None);
    assert_eq!(U15::try_new(0x7FFF).map(U15::get), Some(0x7FFF));
    assert_eq!(U15::try_new(0x8000), None);
    assert_eq!(U18::try_new(0x3FFFF).map(U18::get), Some(0x3FFFF));
    assert_eq!(U18::try_new(0x40000), None);
    assert_eq!(U29::try_new(0x1FFFFFFF).map(U29::get), Some(0x1FFFFFFF));
    assert_eq!(U29::try_new(0x20000000), None);
    assert_eq!(U1::from_bit(true), U1::new(1));
    assert_eq!(U1::from_bit(false), U1::new(0));
}
