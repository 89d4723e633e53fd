//! The identifier of a frame as logs and databases write it.

use crate::can::can_id::{can_id_of_db, CANID};
use crate::uint::{U11, U29};
use vstd::prelude::*;
use vstd::std_specs::convert::FromSpecImpl;

verus! {

/// The flag that marks a database identifier as extended: the highest of
/// its thirty-two bits.
pub const EXTENDED_FLAG: u32 = 0x80000000;

/// A database identifier: a standard identifier as it is, or an extended
/// identifier in the low twenty-nine of thirty-two bits under a set flag.
#[derive(Debug, Copy, Clone, PartialEq, Eq, Structural)]
pub enum CANDBID {
    Standard(U11),
    Extended(u32),
}

impl CANDBID {
    /// A standard identifier is within eleven bits, and an extended one
    /// has its flag set.
    pub open spec fn wf(self) -> bool {
        match self {
            CANDBID::Standard(value) => value.wf(),
            CANDBID::Extended(value) => value >= EXTENDED_FLAG,
        }
    }
}

/// The database identifier of a CAN identifier: a standard one as it is,
/// an extended one with the flag added.
pub open spec fn can_db_id_of(id: CANID) -> CANDBID {
    match id {
        CANID::Standard(value) => CANDBID::Standard(value),
        CANID::Extended(value) => CANDBID::Extended((value@ + EXTENDED_FLAG) as u32),
    }
}

impl From<CANID> for CANDBID {
    /// The database form of `value`.
    fn from(value: CANID) -> (result: Self)
        ensures
            result == can_db_id_of(value),
            result.wf(),
    {
        match value {
            CANID::Standard(value) => {
                proof {
                    use_type_invariant(value);
                }
                Self::Standard(value)
            },
            CANID::Extended(value) => {
                let raw: u32 = value.get();
                assert(raw | (1u32 << 31) == raw + 0x80000000) by (bit_vector)
                    requires
                        raw <= 0x1FFFFFFF,
                ;
                Self::Extended(raw | (1u32 << 31))
            },
        }
    }
}

impl FromSpecImpl<CANID> for CANDBID {
    open spec fn obeys_from_spec() -> bool {
        true
    }

    open spec fn from_spec(v: CANID) -> Self {
        can_db_id_of(v)
    }
}

/// Writing a CAN identifier as a database identifier and reading it back
/// gives the same identifier: a standard one passes through twice, and
/// the flag added to an extended one is dropped with the bits above
/// twenty-nine.
pub proof fn lemma_can_id_round_trip(id: CANID)
    requires
        id.wf(),
    ensures
        can_db_id_of(id).wf(),
        can_id_of_db(can_db_id_of(id)) == id,
{
    match id {
        CANID::Standard(_) => {},
        CANID::Extended(value) => {
            U29::lemma_spec_new(value@);
            value.lemma_value_determines(U29::spec_new(value@));
        },
    }
}

/// Reading a database identifier and writing it again keeps a standard
/// identifier, and keeps of an extended one the low twenty-nine bits under
/// a set flag.
pub proof fn lemma_can_db_id_round_trip(id: CANDBID)
    ensures
        can_db_id_of(can_id_of_db(id)) == match id {
            CANDBID::Standard(value) => id,
            CANDBID::Extended(value) => CANDBID::Extended(
                (value % 0x20000000 + EXTENDED_FLAG) as u32,
            ),
        },
{
    match id {
        CANDBID::Standard(_) => {},
        CANDBID::Extended(value) => {
            U29::lemma_spec_new((value % 0x20000000) as nat);
        },
    }
}

} // verus!
