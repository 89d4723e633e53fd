//! The J1939 identifier: what the twenty-nine bits of an extended CAN
//! identifier mean at the application layer.

use crate::can::can_id::CANID;
use crate::j1939::pgn::PGN;
use crate::uint::{U18, U29, U29_MAX, U3};
use vstd::prelude::*;
use vstd::std_specs::convert::{FromSpecImpl, TryFromSpecImpl};

verus! {

/// A J1939 identifier: priority, parameter group number and source
/// address, from the highest bit down.
#[derive(Debug, Copy, Clone, PartialEq, Eq, Structural)]
pub struct J1939ID {
    priority: U3,
    pgn: PGN,
    source_address: u8,
}

/// The failure to read the identifier of a base frame as a J1939
/// identifier: eleven bits cannot hold one.
#[derive(Debug, Copy, Clone, PartialEq, Eq, Structural)]
pub struct CANIDToJ1939IDError;

impl J1939ID {
    /// The priority.
    pub closed spec fn priority(self) -> nat {
        self.priority@
    }

    /// The parameter group number.
    pub closed spec fn pgn(self) -> PGN {
        self.pgn
    }

    /// The source address.
    pub closed spec fn source_address(self) -> u8 {
        self.source_address
    }

    /// The priority has three bits and the parameter group number is well
    /// formed.
    #[verifier::type_invariant]
    pub open spec fn wf(self) -> bool {
        self.priority() <= 7 && self.pgn().wf()
    }

    /// The twenty-nine-bit packing: the priority in the top three bits,
    /// the parameter group number in the eighteen below, the source
    /// address in the low eight.
    pub open spec fn spec_raw(self) -> nat {
        self.priority() * 0x4000000 + self.pgn().spec_raw() * 0x100 + self.source_address() as nat
    }

    /// The identifier with the given parts.
    pub closed spec fn spec_new(priority: U3, pgn: PGN, source_address: u8) -> J1939ID {
        J1939ID { priority, pgn, source_address }
    }

    /// The identifier whose packing is `value`.
    pub closed spec fn of_raw(value: nat) -> J1939ID {
        J1939ID {
            priority: U3::spec_new(value / 0x4000000 % 8),
            pgn: PGN::of_raw(value / 0x100 % 0x40000),
            source_address: (value % 0x100) as u8,
        }
    }

    /// What `spec_new` holds.
    pub proof fn lemma_spec_new(priority: U3, pgn: PGN, source_address: u8)
        ensures
            Self::spec_new(priority, pgn, source_address).priority() == priority@,
            Self::spec_new(priority, pgn, source_address).pgn() == pgn,
            Self::spec_new(priority, pgn, source_address).source_address() == source_address,
    {
    }

    /// What `of_raw` holds.
    pub proof fn lemma_of_raw(value: nat)
        ensures
            Self::of_raw(value).priority() == value / 0x4000000 % 8,
            Self::of_raw(value).pgn() == PGN::of_raw(value / 0x100 % 0x40000),
            Self::of_raw(value).source_address() == value % 0x100,
            Self::of_raw(value).wf(),
    {
        U3::lemma_spec_new(value / 0x4000000 % 8);
        PGN::lemma_of_raw(value / 0x100 % 0x40000);
    }

    /// Two identifiers with the same three parts are the same identifier.
    pub proof fn lemma_parts_determine(self, other: J1939ID)
        requires
            self.priority() == other.priority(),
            self.pgn() == other.pgn(),
            self.source_address() == other.source_address(),
        ensures
            self == other,
    {
        self.priority.lemma_value_determines(other.priority);
    }

    /// Packing fits in twenty-nine bits, and unpacking what was packed
    /// gives the identifier back.
    pub proof fn lemma_raw_round_trip(self)
        requires
            self.wf(),
        ensures
            self.spec_raw() <= U29_MAX,
            Self::of_raw(self.spec_raw()) == self,
    {
        let raw = self.spec_raw();
        let priority = self.priority();
        let group = self.pgn().spec_raw();
        let source = self.source_address() as nat;
        self.pgn().lemma_raw_round_trip();
        Self::lemma_of_raw(raw);
        assert(raw == priority * 0x4000000 + group * 0x100 + source);
        assert(raw / 0x100 == priority * 0x40000 + group);
        assert(raw % 0x100 == source);
        assert(raw / 0x100 % 0x40000 == group);
        assert(raw / 0x4000000 == priority);
        Self::of_raw(raw).lemma_parts_determine(self);
    }

    /// Unpacking a number of twenty-nine bits gives parts that pack to it.
    pub proof fn lemma_of_raw_round_trip(value: nat)
        requires
            value <= U29_MAX,
        ensures
            Self::of_raw(value).spec_raw() == value,
    {
        Self::lemma_of_raw(value);
        PGN::lemma_of_raw_round_trip(value / 0x100 % 0x40000);
        let upper = value / 0x100;
        assert(value == upper * 0x100 + value % 0x100);
        assert(upper == (upper / 0x40000) * 0x40000 + upper % 0x40000);
        assert(value / 0x4000000 == upper / 0x40000);
    }

    /// The identifier with the given parts.
    pub fn new(priority: U3, pgn: PGN, source_address: u8) -> (result: Self)
        ensures
            result == Self::spec_new(priority, pgn, source_address),
            result.priority() == priority@,
            result.pgn() == pgn,
            result.source_address() == source_address,
    {
        proof {
            use_type_invariant(priority);
            use_type_invariant(pgn);
        }
        Self { priority, pgn, source_address }
    }

    /// The twenty-nine-bit packing.
    pub fn raw(&self) -> (result: U29)
        ensures
            result@ == self.spec_raw(),
    {
        let priority: u32 = self.priority.get() as u32;
        let pgn: u32 = self.pgn.raw().get();
        let source: u32 = self.source_address as u32;
        assert((priority << 26) | (pgn << 8) | source == priority * 0x4000000 + pgn * 0x100
            + source && (priority << 26) | (pgn << 8) | source <= 0x1FFFFFFF) by (bit_vector)
            requires
                priority <= 7,
                pgn <= 0x3FFFF,
                source <= 0xFF,
        ;
        U29::new((priority << 26) | (pgn << 8) | source)
    }

    /// The priority.
    pub fn get_priority_raw(&self) -> (result: U3)
        ensures
            result@ == self.priority(),
    {
        self.priority
    }

    /// The parameter group number.
    pub fn get_pgn(&self) -> (result: PGN)
        ensures
            result == self.pgn(),
    {
        self.pgn
    }

    /// The source address.
    pub fn get_source_address_raw(&self) -> (result: u8)
        ensures
            result == self.source_address(),
    {
        self.source_address
    }
}

impl From<U29> for J1939ID {
    /// The identifier whose packing is `value`: its top three bits are the
    /// priority, the next eighteen the parameter group number, the low eight
    /// the source address.
    fn from(value: U29) -> (result: Self)
        ensures
            result == Self::of_raw(value@),
            result.spec_raw() == value@,
            result.priority() == value@ / 0x4000000,
            result.pgn().spec_raw() == value@ / 0x100 % 0x40000,
            result.source_address() == value@ % 0x100,
    {
        let raw: u32 = value.get();
        assert((raw & 0x1C000000) >> 26 == raw / 0x4000000 % 8 && (raw & 0x3FFFF00) >> 8 == raw
            / 0x100 % 0x40000 && raw & 0xFF == raw % 0x100) by (bit_vector);
        proof {
            Self::lemma_of_raw_round_trip(value@);
            Self::lemma_of_raw(value@);
            PGN::lemma_of_raw_round_trip(value@ / 0x100 % 0x40000);
        }
        let priority = U3::new(((raw & 0x1C000000) >> 26) as u8);
        let pgn = PGN::from(U18::new((raw & 0x3FFFF00) >> 8));
        let source_address: u8 = (raw & 0xFF) as u8;
        proof {
            use_type_invariant(priority);
            use_type_invariant(pgn);
        }
        Self { priority, pgn, source_address }
    }
}

impl FromSpecImpl<U29> for J1939ID {
    open spec fn obeys_from_spec() -> bool {
        true
    }

    open spec fn from_spec(v: U29) -> Self {
        Self::of_raw(v@)
    }
}

/// The J1939 identifier that a CAN identifier carries: the unpacking of an
/// extended identifier, and nothing for a standard one.
pub open spec fn j1939_id_of(id: CANID) -> Result<J1939ID, CANIDToJ1939IDError> {
    match id {
        CANID::Standard(_) => Err(CANIDToJ1939IDError),
        CANID::Extended(value) => Ok(J1939ID::of_raw(value@)),
    }
}

impl TryFrom<CANID> for J1939ID {
    type Error = CANIDToJ1939IDError;

    /// The J1939 identifier that an extended CAN identifier carries. A
    /// standard identifier carries none and is refused.
    fn try_from(value: CANID) -> (result: Result<Self, Self::Error>)
        ensures
            result == j1939_id_of(value),
            result is Ok <==> value is Extended,
            result matches Ok(id) ==> {
                &&& id.spec_raw() == value->Extended_0@
                &&& id.priority() == value->Extended_0@ / 0x4000000
                &&& id.pgn().spec_raw() == value->Extended_0@ / 0x100 % 0x40000
                &&& id.source_address() == value->Extended_0@ % 0x100
            },
    {
        match value {
            CANID::Standard(_) => Err(CANIDToJ1939IDError),
            CANID::Extended(value) => Ok(J1939ID::from(value)),
        }
    }
}

impl TryFromSpecImpl<CANID> for J1939ID {
    open spec fn obeys_try_from_spec() -> bool {
        true
    }

    open spec fn try_from_spec(v: CANID) -> Result<Self, Self::Error> {
        j1939_id_of(v)
    }
}

} // verus!
