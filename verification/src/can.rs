//! The CAN bus layer: identifiers and frames.

pub mod can_db_id;
pub mod can_id;
pub mod frame;
