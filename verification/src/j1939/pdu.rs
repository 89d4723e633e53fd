//! The format and specific bytes of a parameter group number.

use vstd::prelude::*;
use vstd::std_specs::convert::FromSpecImpl;

verus! {

/// First format byte of the broadcast range: below it a unit is addressed
/// to one destination, from it on it is broadcast.
pub const PDU2_FORMAT_START: u8 = 0xF0;

/// How the specific byte of a protocol data unit is read.
#[derive(Debug, Copy, Clone, PartialEq, Eq, Structural)]
pub enum PDUType {
    /// Peer to peer: the specific byte is a destination address.
    PDU1,
    /// Broadcast: the specific byte is a group extension.
    PDU2,
}

/// The class of a format byte.
pub open spec fn pdu_type_of(format: u8) -> PDUType {
    if format < PDU2_FORMAT_START {
        PDUType::PDU1
    } else {
        PDUType::PDU2
    }
}

impl From<u8> for PDUType {
    /// The class of a format byte.
    fn from(value: u8) -> (result: Self)
        ensures
            result == pdu_type_of(value),
    {
        if value < PDU2_FORMAT_START {
            PDUType::PDU1
        } else {
            PDUType::PDU2
        }
    }
}

impl FromSpecImpl<u8> for PDUType {
    open spec fn obeys_from_spec() -> bool {
        true
    }

    open spec fn from_spec(v: u8) -> Self {
        pdu_type_of(v)
    }
}

/// A protocol data unit: the format byte above the specific byte.
#[derive(Debug, Copy, Clone, PartialEq, Eq, Structural)]
pub struct PDU {
    format: u8,
    specific: u8,
}

/// The sixteen-bit number whose high byte is `format` and whose low byte is
/// `specific`.
pub open spec fn pdu_raw_of(format: u8, specific: u8) -> nat {
    (format as nat) * 256 + specific as nat
}

impl PDU {
    /// The format byte.
    pub closed spec fn format(self) -> u8 {
        self.format
    }

    /// The specific byte.
    pub closed spec fn specific(self) -> u8 {
        self.specific
    }

    /// The sixteen-bit packing of the unit.
    pub open spec fn spec_raw(self) -> nat {
        pdu_raw_of(self.format(), self.specific())
    }

    /// The class of the unit, decided by its format byte.
    pub open spec fn spec_type(self) -> PDUType {
        pdu_type_of(self.format())
    }

    /// Two units with the same bytes are the same unit.
    pub proof fn lemma_bytes_determine(self, other: PDU)
        requires
            self.format() == other.format(),
            self.specific() == other.specific(),
        ensures
            self == other,
    {
    }

    /// The unit with the given bytes.
    pub fn new(format: u8, specific: u8) -> (result: Self)
        ensures
            result.format() == format,
            result.specific() == specific,
    {
        Self { format, specific }
    }

    /// The sixteen-bit packing: the format byte above the specific byte.
    pub fn raw(&self) -> (result: u16)
        ensures
            result == self.spec_raw(),
            result == (self.format() as u16) << 8 | (self.specific() as u16),
    {
        let format: u16 = self.format as u16;
        let specific: u16 = self.specific as u16;
        assert(format << 8 | specific == format * 256 + specific) by (bit_vector)
            requires
                format < 256,
                specific < 256,
        ;
        format << 8 | specific
    }

    /// The format byte.
    pub fn get_format_raw(&self) -> (result: u8)
        ensures
            result == self.format(),
    {
        self.format
    }

    /// The specific byte.
    pub fn get_specific_raw(&self) -> (result: u8)
        ensures
            result == self.specific(),
    {
        self.specific
    }

    /// The class of the unit, decided by its format byte.
    pub fn get_type(&self) -> (result: PDUType)
        ensures
            result == self.spec_type(),
    {
        PDUType::from(self.get_format_raw())
    }

    /// The specific byte of a peer-to-peer unit, where it is the destination
    /// address; nothing for a broadcast unit.
    pub fn get_destination_address(&self) -> (result: Option<u8>)
        ensures
            result == if self.spec_type() == PDUType::PDU1 {
                Some(self.specific())
            } else {
                None
            },
    {
        match self.get_type() {
            PDUType::PDU1 => Some(self.get_specific_raw()),
            PDUType::PDU2 => None,
        }
    }

    /// The specific byte of a broadcast unit, where it is the group
    /// extension; nothing for a peer-to-peer unit.
    pub fn get_group_extension(&self) -> (result: Option<u8>)
        ensures
            result == if self.spec_type() == PDUType::PDU2 {
                Some(self.specific())
            } else {
                None
            },
    {
        match self.get_type() {
            PDUType::PDU1 => None,
            PDUType::PDU2 => Some(self.get_specific_raw()),
        }
    }
}

/// The unit whose packing is `value`: its high byte is the format, its low
/// byte the specific byte.
pub closed spec fn pdu_of_raw(value: u16) -> PDU {
    PDU { format: (value / 256) as u8, specific: (value % 256) as u8 }
}

/// What `pdu_of_raw` holds, and that packing undoes it.
pub proof fn lemma_pdu_of_raw(value: u16)
    ensures
        pdu_of_raw(value).format() == value / 256,
        pdu_of_raw(value).specific() == value % 256,
        pdu_of_raw(value).spec_raw() == value,
{
}

impl From<u16> for PDU {
    /// The unit whose packing is `value`.
    fn from(value: u16) -> (result: Self)
        ensures
            result == pdu_of_raw(value),
            result.format() == value / 256,
            result.specific() == value % 256,
            result.spec_raw() == value,
    {
        let format: u16 = (value & 0xFF00) >> 8;
        let specific: u16 = value & 0xFF;
        assert((value & 0xFF00) >> 8 == value / 256) by (bit_vector);
        assert(value & 0xFF == value % 256) by (bit_vector);
        Self::new(format as u8, specific as u8)
    }
}

impl FromSpecImpl<u16> for PDU {
    open spec fn obeys_from_spec() -> bool {
        true
    }

    open spec fn from_spec(v: u16) -> Self {
        pdu_of_raw(v)
    }
}

} // verus!
