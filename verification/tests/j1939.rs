use can_decode::can::can_id::CANID;
use can_decode::j1939::j1939_id::J1939ID;
use can_decode::j1939::pdu::{PDUType, PDU};
use can_decode::j1939::pgn::PGN;
use can_decode::uint::{U1, U18, U29, U3};

#[test]
fn test_j1939_id() {
    let j1939_id = J1939ID::new(U3::new(7), PGN::new(PDU::new(0x11, 0x11)), 0x11);
    assert_eq!(j1939_id.get_priority_raw(), U3::new(7));
    assert_eq!(j1939_id.get_source_address_raw(), 0x11);
    assert_eq!(j1939_id.raw(), U29::new(0x1C111111));

    assert_eq!(j1939_id, J1939ID::from(U29::new(0x1C111111)));
}

#[test]
pub fn test_j1939_id_to_can_id() {
    let j1939_id = J1939ID::new(U3::new(6), PGN::new(PDU::new(0xFF, 0x01)), 5);

    let can_id = CANID::from(j1939_id);
    assert!(matches!(can_id, CANID::Extended(ref inner) if *inner == U29::new(0x18FF0105)));
}

#[test]
fn test_pdu1() {
    let pdu1 = PDU::new(0x11, 0x11);
    assert_eq!(pdu1.get_format_raw(), 0x11);
    assert_eq!(pdu1.get_specific_raw(), 0x11);
    assert_eq!(pdu1.raw(), 0x1111);
    assert!(matches!(pdu1.get_destination_address(), Some(0x11)));
    assert!(pdu1.get_group_extension().is_none());

    assert_eq!(pdu1, PDU::from(0x1111));
}

#[test]
fn test_pdu2() {
    let pdu2 = PDU::new(0xF1, 0x11);
    assert_eq!(pdu2.get_format_raw(), 0xF1);
    assert_eq!(pdu2.get_specific_raw(), 0x11);
    assert_eq!(pdu2.raw(), 0xF111);
    assert!(pdu2.get_destination_address().is_none());
    assert!(matches!(pdu2.get_group_extension(), Some(0x11)));

    assert_eq!(pdu2, PDU::from(0xF111));
}

#[test]
fn test_pgn() {
    let pgn = PGN::new(PDU::new(0x11, 0x11));
    assert_eq!(pgn.get_reserved_raw(), U1::new(0));
    assert_eq!(pgn.get_data_page_raw(), U1::new(0));
    assert_eq!(pgn.raw(), U18::new(0x1111));

    assert_eq!(pgn, PGN::from(U18::new(0x1111)));
}

#[test]
fn pdu_class_changes_at_format_f0() {
    let last_pdu1 = PDU::new(0xEF, 0x42);
    assert_eq!(last_pdu1.get_type(), PDUType::PDU1);
    assert_eq!(last_pdu1.get_destination_address(), Some(0x42));
    assert_eq!(last_pdu1.get_group_extension(), None);

    let first_pdu2 = PDU::new(0xF0, 0x42);
    assert_eq!(first_pdu2.get_type(), PDUType::PDU2);
    assert_eq!(first_pdu2.get_destination_address(), None);
    assert_eq!(first_pdu2.get_group_extension(), Some(0x42));

    assert_eq!(PDUType::from(0x00), PDUType::PDU1);
    assert_eq!(PDUType::from(0xFF), PDUType::PDU2);
}

#[test]
fn pdu_packs_format_above_specific() {
    assert_eq!(PDU::new(0xAB, 0xCD).raw(), 0xABCD);
    assert_eq!(PDU::from(0xABCD).get_format_raw(), 0xAB);
    assert_eq!(PDU::from(0xABCD).get_specific_raw(), 0xCD);
    for raw in [0x0000u16, 0x00FF, 0xFF00, 0xFFFF, 0x1234] {
        assert_eq!(PDU::from(raw).raw(), raw);
    }
}

#[test]
fn pgn_unpacks_reserved_and_data_page() {
    let pgn = PGN::from(U18::new(0x3FECA));
    assert_eq!(pgn.get_reserved_raw(), U1::new(1));
    assert_eq!(pgn.get_data_page_raw(), U1::new(1));
    assert_eq!(pgn.get_pdu(), PDU::new(0xFE, 0xCA));
    assert_eq!(pgn.raw(), U18::new(0x3FECA));

    let pgn = PGN::from(U18::new(0x1F004));
    assert_eq!(pgn.get_reserved_raw(), U1::new(0));
    assert_eq!(pgn.get_data_page_raw(), U1::new(1));
    assert_eq!(pgn.get_pdu(), PDU::new(0xF0, 0x04));
    assert_eq!(pgn.raw(), U18::new(0x1F004));
}

#[test]
fn j1939_id_round_trips_through_raw() {
    for raw in [0u32, 0x1FFFFFFF, 0x18FF0105, 0x0CF00400, 0x1DEADBEE, 0x03000000] {
        let id = J1939ID::from(U29::new(raw));
        assert_eq!(id.raw(), U29::new(raw));
        let rebuilt = J1939ID::new(id.get_priority_raw(), id.get_pgn(), id.get_source_address_raw());
        assert_eq!(rebuilt, id);
        assert_eq!(J1939ID::from(rebuilt.raw()), id);
    }
}

#[test]
fn j1939_id_unpacks_by_layout() {
    let id = J1939ID::from(U29::new(0x0CF00400));
    assert_eq!(id.get_priority_raw(), U3::new(3));
    assert_eq!(id.get_pgn().raw(), U18::new(0x0F004));
    assert_eq!(id.get_pgn().get_pdu(), PDU::new(0xF0, 0x04));
    assert_eq!(id.get_source_address_raw(), 0x00);
}
