//! The parameter group number: eighteen bits that say what a message is.

use crate::j1939::pdu::{lemma_pdu_of_raw, pdu_of_raw, PDU};
use crate::uint::{U1, U18, U18_MAX};
use vstd::prelude::*;
use vstd::std_specs::convert::FromSpecImpl;

verus! {

/// A parameter group number: the reserved bit, the data page bit and the
/// protocol data unit, from the highest bit down.
#[derive(Debug, Copy, Clone, PartialEq, Eq, Structural)]
pub struct PGN {
    reserved: U1,
    data_page: U1,
    pdu: PDU,
}

impl PGN {
    /// The reserved bit.
    pub closed spec fn reserved(self) -> nat {
        self.reserved@
    }

    /// The data page bit.
    pub closed spec fn data_page(self) -> nat {
        self.data_page@
    }

    /// The protocol data unit.
    pub closed spec fn pdu(self) -> PDU {
        self.pdu
    }

    /// Both single bits are bits.
    #[verifier::type_invariant]
    pub open spec fn wf(self) -> bool {
        self.reserved() <= 1 && self.data_page() <= 1
    }

    /// The eighteen-bit packing: the reserved bit at the top, the data
    /// page bit below it, the protocol data unit in the low sixteen bits.
    pub open spec fn spec_raw(self) -> nat {
        self.reserved() * 0x20000 + self.data_page() * 0x10000 + self.pdu().spec_raw()
    }

    /// The number whose packing is `value`.
    pub closed spec fn of_raw(value: nat) -> PGN {
        PGN {
            reserved: U1::spec_new(value / 0x20000 % 2),
            data_page: U1::spec_new(value / 0x10000 % 2),
            pdu: pdu_of_raw((value % 0x10000) as u16),
        }
    }

    /// The number with clear reserved and data page bits around `pdu`.
    pub closed spec fn spec_new(pdu: PDU) -> PGN {
        PGN { reserved: U1::spec_new(0), data_page: U1::spec_new(0), pdu }
    }

    /// What `spec_new` holds.
    pub proof fn lemma_spec_new(pdu: PDU)
        ensures
            Self::spec_new(pdu).reserved() == 0,
            Self::spec_new(pdu).data_page() == 0,
            Self::spec_new(pdu).pdu() == pdu,
            Self::spec_new(pdu).wf(),
    {
        U1::lemma_spec_new(0);
    }

    /// What `of_raw` holds.
    pub proof fn lemma_of_raw(value: nat)
        ensures
            Self::of_raw(value).reserved() == value / 0x20000 % 2,
            Self::of_raw(value).data_page() == value / 0x10000 % 2,
            Self::of_raw(value).pdu() == pdu_of_raw((value % 0x10000) as u16),
            Self::of_raw(value).wf(),
    {
        U1::lemma_spec_new(value / 0x20000 % 2);
        U1::lemma_spec_new(value / 0x10000 % 2);
    }

    /// Two numbers with the same three parts are the same number.
    pub proof fn lemma_parts_determine(self, other: PGN)
        requires
            self.reserved() == other.reserved(),
            self.data_page() == other.data_page(),
            self.pdu() == other.pdu(),
        ensures
            self == other,
    {
        self.reserved.lemma_value_determines(other.reserved);
        self.data_page.lemma_value_determines(other.data_page);
    }

    /// Packing fits in eighteen bits, and unpacking undoes it.
    pub proof fn lemma_raw_round_trip(self)
        requires
            self.wf(),
        ensures
            self.spec_raw() <= U18_MAX,
            Self::of_raw(self.spec_raw()) == self,
    {
        let raw = self.spec_raw();
        let unit = self.pdu().spec_raw();
        Self::lemma_of_raw(raw);
        assert(raw == self.reserved() * 0x20000 + self.data_page() * 0x10000 + unit);
        assert(raw % 0x10000 == unit);
        assert(raw / 0x10000 == self.reserved() * 2 + self.data_page());
        assert(raw / 0x20000 == self.reserved());
        lemma_pdu_of_raw(unit as u16);
        self.pdu().lemma_bytes_determine(pdu_of_raw(self.pdu().spec_raw() as u16));
        Self::of_raw(raw).lemma_parts_determine(self);
    }

    /// Unpacking a number of eighteen bits gives parts that pack to it.
    pub proof fn lemma_of_raw_round_trip(value: nat)
        requires
            value <= U18_MAX,
        ensures
            Self::of_raw(value).spec_raw() == value,
    {
        Self::lemma_of_raw(value);
        lemma_pdu_of_raw((value % 0x10000) as u16);
        let pages = value / 0x10000;
        assert(value == pages * 0x10000 + value % 0x10000);
        assert(pages == (pages / 2) * 2 + pages % 2);
        assert(value / 0x20000 == pages / 2);
    }

    /// The number for `pdu`, with the reserved and data page bits clear.
    pub fn new(pdu: PDU) -> (result: Self)
        ensures
            result == Self::spec_new(pdu),
            result.reserved() == 0,
            result.data_page() == 0,
            result.pdu() == pdu,
    {
        Self { reserved: U1::new(0), data_page: U1::new(0), pdu }
    }

    /// The eighteen-bit packing.
    pub fn raw(&self) -> (result: U18)
        ensures
            result@ == self.spec_raw(),
    {
        let reserved: u32 = self.reserved.get() as u32;
        let data_page: u32 = self.data_page.get() as u32;
        let pdu: u32 = self.pdu.raw() as u32;
        assert((reserved << 17) | (data_page << 16) | pdu == reserved * 0x20000 + data_page
            * 0x10000 + pdu && (reserved << 17) | (data_page << 16) | pdu <= 0x3FFFF)
            by (bit_vector)
            requires
                reserved <= 1,
                data_page <= 1,
                pdu <= 0xFFFF,
        ;
        U18::new((reserved << 17) | (data_page << 16) | pdu)
    }

    /// The reserved bit.
    pub fn get_reserved_raw(&self) -> (result: U1)
        ensures
            result@ == self.reserved(),
    {
        self.reserved
    }

    /// The data page bit.
    pub fn get_data_page_raw(&self) -> (result: U1)
        ensures
            result@ == self.data_page(),
    {
        self.data_page
    }

    /// The protocol data unit.
    pub fn get_pdu(&self) -> (result: PDU)
        ensures
            result == self.pdu(),
    {
        self.pdu
    }
}

impl From<U18> for PGN {
    /// The number whose packing is `value`: its top bit is the reserved bit,
    /// the next the data page bit, the low sixteen the protocol data unit.
    fn from(value: U18) -> (result: Self)
        ensures
            result == Self::of_raw(value@),
            result.spec_raw() == value@,
            result.reserved() == value@ / 0x20000,
            result.data_page() == value@ / 0x10000 % 2,
            result.pdu().spec_raw() == value@ % 0x10000,
    {
        let raw: u32 = value.get();
        assert((raw >> 17) & 1 == raw / 0x20000 % 2 && (raw >> 16) & 1 == raw / 0x10000 % 2 && raw
            & 0xFFFF == raw % 0x10000) by (bit_vector);
        proof {
            Self::lemma_of_raw_round_trip(value@);
            Self::lemma_of_raw(value@);
            lemma_pdu_of_raw((value@ % 0x10000) as u16);
        }
        Self {
            reserved: U1::new(((raw >> 17) & 1) as u8),
            data_page: U1::new(((raw >> 16) & 1) as u8),
            pdu: PDU::from((raw & 0xFFFF) as u16),
        }
    }
}

impl FromSpecImpl<U18> for PGN {
    open spec fn obeys_from_spec() -> bool {
        true
    }

    open spec fn from_spec(v: U18) -> Self {
        Self::of_raw(v@)
    }
}

} // verus!
