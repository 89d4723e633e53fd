//! The J1939 application layer: identifier, parameter group number and
//! protocol data unit.

pub mod j1939_id;
pub mod pdu;
pub mod pgn;
