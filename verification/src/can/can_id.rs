//! The identifier of a frame on the bus.

use crate::can::can_db_id::CANDBID;
use crate::j1939::j1939_id::J1939ID;
use crate::uint::{U11, U29};
use vstd::prelude::*;
use vstd::std_specs::convert::FromSpecImpl;

verus! {

/// A CAN identifier: eleven bits in a base frame, twenty-nine in an
/// extended one.
#[derive(Debug, Copy, Clone, PartialEq, Eq, Structural)]
pub enum CANID {
    Standard(U11),
    Extended(U29),
}

impl CANID {
    /// The identifier is within the width of its variant.
    pub open spec fn wf(self) -> bool {
        match self {
            CANID::Standard(value) => value.wf(),
            CANID::Extended(value) => value.wf(),
        }
    }
}

/// The CAN identifier that carries a J1939 identifier: extended, with the
/// packing of the J1939 identifier as its value.
pub open spec fn can_id_of_j1939(id: J1939ID) -> CANID {
    CANID::Extended(U29::spec_new(id.spec_raw()))
}

impl From<J1939ID> for CANID {
    /// The extended identifier that carries `value`.
    fn from(value: J1939ID) -> (result: Self)
        ensures
            result == can_id_of_j1939(value),
            result matches CANID::Extended(raw) && raw@ == value.spec_raw(),
    {
        let raw = value.raw();
        proof {
            use_type_invariant(raw);
            U29::lemma_spec_new(value.spec_raw());
            raw.lemma_value_determines(U29::spec_new(value.spec_raw()));
        }
        Self::Extended(raw)
    }
}

impl FromSpecImpl<J1939ID> for CANID {
    open spec fn obeys_from_spec() -> bool {
        true
    }

    open spec fn from_spec(v: J1939ID) -> Self {
        can_id_of_j1939(v)
    }
}

/// The CAN identifier that a database identifier stands for: a standard
/// one as it is, an extended one as its low twenty-nine bits.
pub open spec fn can_id_of_db(id: CANDBID) -> CANID {
    match id {
        CANDBID::Standard(value) => CANID::Standard(value),
        CANDBID::Extended(value) => CANID::Extended(U29::spec_new((value % 0x20000000) as nat)),
    }
}

impl From<CANDBID> for CANID {
    /// The identifier that `value` stands for. Of an extended database
    /// identifier only the low twenty-nine bits count.
    fn from(value: CANDBID) -> (result: Self)
        ensures
            result == can_id_of_db(value),
            result.wf(),
    {
        match value {
            CANDBID::Standard(value) => {
                proof {
                    use_type_invariant(value);
                }
                Self::Standard(value)
            },
            CANDBID::Extended(value) => {
                assert(value & 0x1FFFFFFF == value % 0x20000000) by (bit_vector);
                Self::Extended(U29::new(value & 0x1FFFFFFF))
            },
        }
    }
}

impl FromSpecImpl<CANDBID> for CANID {
    open spec fn obeys_from_spec() -> bool {
        true
    }

    open spec fn from_spec(v: CANDBID) -> Self {
        can_id_of_db(v)
    }
}

} // verus!
