//! Unsigned integers of the widths that CAN and J1939 fields have. Each is
//! kept in the smallest native integer that covers it, and no value out of
//! range can be made.

use vstd::prelude::*;

verus! {

/// Greatest value of one bit.
pub const U1_MAX: u8 = 0x1;

/// An unsigned integer of one bit.
#[derive(Debug, Copy, Clone, PartialEq, Eq, Hash, Structural)]
pub struct U1 {
    value: u8,
}

impl View for U1 {
    type V = nat;

    closed spec fn view(&self) -> nat {
        self.value as nat
    }
}

impl U1 {
    /// The value is within the width.
    #[verifier::type_invariant]
    pub open spec fn wf(self) -> bool {
        self@ <= U1_MAX
    }

    /// The integer of this width whose value is `value`.
    pub closed spec fn spec_new(value: nat) -> Self {
        U1 { value: value as u8 }
    }

    /// `spec_new` keeps a value that is within the width.
    pub proof fn lemma_spec_new(value: nat)
        requires
            value <= U1_MAX,
        ensures
            Self::spec_new(value)@ == value,
            Self::spec_new(value).wf(),
    {
    }

    /// Two integers of this width with the same value are the same.
    pub proof fn lemma_value_determines(self, other: Self)
        requires
            self@ == other@,
        ensures
            self == other,
    {
    }

    /// The integer with the given value, which must be within the width.
    pub fn new(value: u8) -> (result: Self)
        requires
            value <= U1_MAX,
        ensures
            result@ == value,
            result == Self::spec_new(value as nat),
    {
        Self { value }
    }

    /// The integer with the given value, if it is within the width.
    pub fn try_new(value: u8) -> (result: Option<Self>)
        ensures
            result == if value <= U1_MAX {
                Some(Self::spec_new(value as nat))
            } else {
                None
            },
    {
        if value <= U1_MAX {
            Some(Self { value })
        } else {
            None
        }
    }

    /// The value as a native integer.
    pub fn get(self) -> (result: u8)
        ensures
            result == self@,
            result <= U1_MAX,
    {
        proof {
            use_type_invariant(self);
        }
        self.value
    }

    /// One for a set bit, zero for a clear one.
    pub fn from_bit(bit: bool) -> (result: Self)
        ensures
            result@ == if bit {
                1nat
            } else {
                0nat
            },
    {
        if bit {
            Self { value: 1 }
        } else {
            Self { value: 0 }
        }
    }
}

/// Greatest value of three bits.
pub const U3_MAX: u8 = 0x7;

/// An unsigned integer of three bits.
#[derive(Debug, Copy, Clone, PartialEq, Eq, Hash, Structural)]
pub struct U3 {
    value: u8,
}

impl View for U3 {
    type V = nat;

    closed spec fn view(&self) -> nat {
        self.value as nat
    }
}

impl U3 {
    /// The value is within the width.
    #[verifier::type_invariant]
    pub open spec fn wf(self) -> bool {
        self@ <= U3_MAX
    }

    /// The integer of this width whose value is `value`.
    pub closed spec fn spec_new(value: nat) -> Self {
        U3 { value: value as u8 }
    }

    /// `spec_new` keeps a value that is within the width.
    pub proof fn lemma_spec_new(value: nat)
        requires
            value <= U3_MAX,
        ensures
            Self::spec_new(value)@ == value,
            Self::spec_new(value).wf(),
    {
    }

    /// Two integers of this width with the same value are the same.
    pub proof fn lemma_value_determines(self, other: Self)
        requires
            self@ == other@,
        ensures
            self == other,
    {
    }

    /// The integer with the given value, which must be within the width.
    pub fn new(value: u8) -> (result: Self)
        requires
            value <= U3_MAX,
        ensures
            result@ == value,
            result == Self::spec_new(value as nat),
    {
        Self { value }
    }

    /// The integer with the given value, if it is within the width.
    pub fn try_new(value: u8) -> (result: Option<Self>)
        ensures
            result == if value <= U3_MAX {
                Some(Self::spec_new(value as nat))
            } else {
                None
            },
    {
        if value <= U3_MAX {
            Some(Self { value })
        } else {
            None
        }
    }

    /// The value as a native integer.
    pub fn get(self) -> (result: u8)
        ensures
            result == self@,
            result <= U3_MAX,
    {
        proof {
            use_type_invariant(self);
        }
        self.value
    }
}

/// Greatest value of four bits.
pub const U4_MAX: u8 = 0xF;

/// An unsigned integer of four bits.
#[derive(Debug, Copy, Clone, PartialEq, Eq, Hash, Structural)]
pub struct U4 {
    value: u8,
}

impl View for U4 {
    type V = nat;

    closed spec fn view(&self) -> nat {
        self.value as nat
    }
}

impl U4 {
    /// The value is within the width.
    #[verifier::type_invariant]
    pub open spec fn wf(self) -> bool {
        self@ <= U4_MAX
    }

    /// The integer of this width whose value is `value`.
    pub closed spec fn spec_new(value: nat) -> Self {
        U4 { value: value as u8 }
    }

    /// `spec_new` keeps a value that is within the width.
    pub proof fn lemma_spec_new(value: nat)
        requires
            value <= U4_MAX,
        ensures
            Self::spec_new(value)@ == value,
            Self::spec_new(value).wf(),
    {
    }

    /// Two integers of this width with the same value are the same.
    pub proof fn lemma_value_determines(self, other: Self)
        requires
            self@ == other@,
        ensures
            self == other,
    {
    }

    /// The integer with the given value, which must be within the width.
    pub fn new(value: u8) -> (result: Self)
        requires
            value <= U4_MAX,
        ensures
            result@ == value,
            result == Self::spec_new(value as nat),
    {
        Self { value }
    }

    /// The integer with the given value, if it is within the width.
    pub fn try_new(value: u8) -> (result: Option<Self>)
        ensures
            result == if value <= U4_MAX {
                Some(Self::spec_new(value as nat))
            } else {
                None
            },
    {
        if value <= U4_MAX {
            Some(Self { value })
        } else {
            None
        }
    }

    /// The value as a native integer.
    pub fn get(self) -> (result: u8)
        ensures
            result == self@,
            result <= U4_MAX,
    {
        proof {
            use_type_invariant(self);
        }
        self.value
    }
}

/// Greatest value of seven bits.
pub const U7_MAX: u8 = 0x7F;

/// An unsigned integer of seven bits.
#[derive(Debug, Copy, Clone, PartialEq, Eq, Hash, Structural)]
pub struct U7 {
    value: u8,
}

impl View for U7 {
    type V = nat;

    closed spec fn view(&self) -> nat {
        self.value as nat
    }
}

impl U7 {
    /// The value is within the width.
    #[verifier::type_invariant]
    pub open spec fn wf(self) -> bool {
        self@ <= U7_MAX
    }

    /// The integer of this width whose value is `value`.
    pub closed spec fn spec_new(value: nat) -> Self {
        U7 { value: value as u8 }
    }

    /// `spec_new` keeps a value that is within the width.
    pub proof fn lemma_spec_new(value: nat)
        requires
            value <= U7_MAX,
        ensures
            Self::spec_new(value)@ == value,
            Self::spec_new(value).wf(),
    {
    }

    /// Two integers of this width with the same value are the same.
    pub proof fn lemma_value_determines(self, other: Self)
        requires
            self@ == other@,
        ensures
            self == other,
    {
    }

    /// The integer with the given value, which must be within the width.
    pub fn new(value: u8) -> (result: Self)
        requires
            value <= U7_MAX,
        ensures
            result@ == value,
            result == Self::spec_new(value as nat),
    {
        Self { value }
    }

    /// The integer with the given value, if it is within the width.
    pub fn try_new(value: u8) -> (result: Option<Self>)
        ensures
            result == if value <= U7_MAX {
                Some(Self::spec_new(value as nat))
            } else {
                None
            },
    {
        if value <= U7_MAX {
            Some(Self { value })
        } else {
            None
        }
    }

    /// The value as a native integer.
    pub fn get(self) -> (result: u8)
        ensures
            result == self@,
            result <= U7_MAX,
    {
        proof {
            use_type_invariant(self);
        }
        self.value
    }
}

/// Greatest value of eleven bits.
pub const U11_MAX: u16 = 0x7FF;

/// An unsigned integer of eleven bits.
#[derive(Debug, Copy, Clone, PartialEq, Eq, Hash, Structural)]
pub struct U11 {
    value: u16,
}

impl View for U11 {
    type V = nat;

    closed spec fn view(&self) -> nat {
        self.value as nat
    }
}

impl U11 {
    /// The value is within the width.
    #[verifier::type_invariant]
    pub open spec fn wf(self) -> bool {
        self@ <= U11_MAX
    }

    /// The integer of this width whose value is `value`.
    pub closed spec fn spec_new(value: nat) -> Self {
        U11 { value: value as u16 }
    }

    /// `spec_new` keeps a value that is within the width.
    pub proof fn lemma_spec_new(value: nat)
        requires
            value <= U11_MAX,
        ensures
            Self::spec_new(value)@ == value,
            Self::spec_new(value).wf(),
    {
    }

    /// Two integers of this width with the same value are the same.
    pub proof fn lemma_value_determines(self, other: Self)
        requires
            self@ == other@,
        ensures
            self == other,
    {
    }

    /// The integer with the given value, which must be within the width.
    pub fn new(value: u16) -> (result: Self)
        requires
            value <= U11_MAX,
        ensures
            result@ == value,
            result == Self::spec_new(value as nat),
    {
        Self { value }
    }

    /// The integer with the given value, if it is within the width.
    pub fn try_new(value: u16) -> (result: Option<Self>)
        ensures
            result == if value <= U11_MAX {
                Some(Self::spec_new(value as nat))
            } else {
                None
            },
    {
        if value <= U11_MAX {
            Some(Self { value })
        } else {
            None
        }
    }

    /// The value as a native integer.
    pub fn get(self) -> (result: u16)
        ensures
            result == self@,
            result <= U11_MAX,
    {
        proof {
            use_type_invariant(self);
        }
        self.value
    }
}

/// Greatest value of fifteen bits.
pub const U15_MAX: u16 = 0x7FFF;

/// An unsigned integer of fifteen bits.
#[derive(Debug, Copy, Clone, PartialEq, Eq, Hash, Structural)]
pub struct U15 {
    value: u16,
}

impl View for U15 {
    type V = nat;

    closed spec fn view(&self) -> nat {
        self.value as nat
    }
}

impl U15 {
    /// The value is within the width.
    #[verifier::type_invariant]
    pub open spec fn wf(self) -> bool {
        self@ <= U15_MAX
    }

    /// The integer of this width whose value is `value`.
    pub closed spec fn spec_new(value: nat) -> Self {
        U15 { value: value as u16 }
    }

    /// `spec_new` keeps a value that is within the width.
    pub proof fn lemma_spec_new(value: nat)
        requires
            value <= U15_MAX,
        ensures
            Self::spec_new(value)@ == value,
            Self::spec_new(value).wf(),
    {
    }

    /// Two integers of this width with the same value are the same.
    pub proof fn lemma_value_determines(self, other: Self)
        requires
            self@ == other@,
        ensures
            self == other,
    {
    }

    /// The integer with the given value, which must be within the width.
    pub fn new(value: u16) -> (result: Self)
        requires
            value <= U15_MAX,
        ensures
            result@ == value,
            result == Self::spec_new(value as nat),
    {
        Self { value }
    }

    /// The integer with the given value, if it is within the width.
    pub fn try_new(value: u16) -> (result: Option<Self>)
        ensures
            result == if value <= U15_MAX {
                Some(Self::spec_new(value as nat))
            } else {
                None
            },
    {
        if value <= U15_MAX {
            Some(Self { value })
        } else {
            None
        }
    }

    /// The value as a native integer.
    pub fn get(self) -> (result: u16)
        ensures
            result == self@,
            result <= U15_MAX,
    {
        proof {
            use_type_invariant(self);
        }
        self.value
    }
}

/// Greatest value of eighteen bits.
pub const U18_MAX: u32 = 0x3FFFF;

/// An unsigned integer of eighteen bits.
#[derive(Debug, Copy, Clone, PartialEq, Eq, Hash, Structural)]
pub struct U18 {
    value: u32,
}

impl View for U18 {
    type V = nat;

    closed spec fn view(&self) -> nat {
        self.value as nat
    }
}

impl U18 {
    /// The value is within the width.
    #[verifier::type_invariant]
    pub open spec fn wf(self) -> bool {
        self@ <= U18_MAX
    }

    /// The integer of this width whose value is `value`.
    pub closed spec fn spec_new(value: nat) -> Self {
        U18 { value: value as u32 }
    }

    /// `spec_new` keeps a value that is within the width.
    pub proof fn lemma_spec_new(value: nat)
        requires
            value <= U18_MAX,
        ensures
            Self::spec_new(value)@ == value,
            Self::spec_new(value).wf(),
    {
    }

    /// Two integers of this width with the same value are the same.
    pub proof fn lemma_value_determines(self, other: Self)
        requires
            self@ == other@,
        ensures
            self == other,
    {
    }

    /// The integer with the given value, which must be within the width.
    pub fn new(value: u32) -> (result: Self)
        requires
            value <= U18_MAX,
        ensures
            result@ == value,
            result == Self::spec_new(value as nat),
    {
        Self { value }
    }

    /// The integer with the given value, if it is within the width.
    pub fn try_new(value: u32) -> (result: Option<Self>)
        ensures
            result == if value <= U18_MAX {
                Some(Self::spec_new(value as nat))
            } else {
                None
            },
    {
        if value <= U18_MAX {
            Some(Self { value })
        } else {
            None
        }
    }

    /// The value as a native integer.
    pub fn get(self) -> (result: u32)
        ensures
            result == self@,
            result <= U18_MAX,
    {
        proof {
            use_type_invariant(self);
        }
        self.value
    }
}

/// Greatest value of twenty-nine bits.
pub const U29_MAX: u32 = 0x1FFFFFFF;

/// An unsigned integer of twenty-nine bits.
#[derive(Debug, Copy, Clone, PartialEq, Eq, Hash, Structural)]
pub struct U29 {
    value: u32,
}

impl View for U29 {
    type V = nat;

    closed spec fn view(&self) -> nat {
        self.value as nat
    }
}

impl U29 {
    /// The value is within the width.
    #[verifier::type_invariant]
    pub open spec fn wf(self) -> bool {
        self@ <= U29_MAX
    }

    /// The integer of this width whose value is `value`.
    pub closed spec fn spec_new(value: nat) -> Self {
        U29 { value: value as u32 }
    }

    /// `spec_new` keeps a value that is within the width.
    pub proof fn lemma_spec_new(value: nat)
        requires
            value <= U29_MAX,
        ensures
            Self::spec_new(value)@ == value,
            Self::spec_new(value).wf(),
    {
    }

    /// Two integers of this width with the same value are the same.
    pub proof fn lemma_value_determines(self, other: Self)
        requires
            self@ == other@,
        ensures
            self == other,
    {
    }

    /// The integer with the given value, which must be within the width.
    pub fn new(value: u32) -> (result: Self)
        requires
            value <= U29_MAX,
        ensures
            result@ == value,
            result == Self::spec_new(value as nat),
    {
        Self { value }
    }

    /// The integer with the given value, if it is within the width.
    pub fn try_new(value: u32) -> (result: Option<Self>)
        ensures
            result == if value <= U29_MAX {
                Some(Self::spec_new(value as nat))
            } else {
                None
            },
    {
        if value <= U29_MAX {
            Some(Self { value })
        } else {
            None
        }
    }

    /// The value as a native integer.
    pub fn get(self) -> (result: u32)
        ensures
            result == self@,
            result <= U29_MAX,
    {
        proof {
            use_type_invariant(self);
        }
        self.value
    }
}

} // verus!
