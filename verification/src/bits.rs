//! Bit sequences: the bit vector that carries them, what it holds, and the
//! few operations the rest of the library performs on it.

use bitvec::field::BitField;
use bitvec::order::Msb0;
use bitvec::vec::BitVec;
use vstd::prelude::*;

verus! {

/// An ordered sequence of bits, most significant bit of each field first,
/// kept in a `bitvec::vec::BitVec<usize, Msb0>`.
#[verifier::external_body]
pub struct Bits {
    bits: BitVec<usize, Msb0>,
}

/// The bits that a bit vector holds, first bit first.
pub uninterp spec fn bits_of(bits: Bits) -> Seq<bool>;

/// The greatest number of bits that a bit vector can hold: the greatest
/// `usize` with its three highest bits cleared.
pub open spec fn max_bits() -> nat {
    (usize::MAX / 8) as nat
}

/// The number that a bit sequence spells in binary, most significant bit
/// first.
pub open spec fn field_value(bits: Seq<bool>) -> nat
    decreases bits.len(),
{
    if bits.len() == 0 {
        0
    } else {
        2 * field_value(bits.drop_last()) + if bits.last() {
            1nat
        } else {
            0nat
        }
    }
}

impl View for Bits {
    type V = Seq<bool>;

    open spec fn view(&self) -> Seq<bool> {
        bits_of(*self)
    }
}

/// `BitVec::new`: the new vector holds no bit.
#[verifier::external_body]
pub(crate) fn bits_new() -> (result: Bits)
    ensures
        bits_of(result) == Seq::<bool>::empty(),
{
    Bits { bits: BitVec::new() }
}

/// `BitVec::len`: the number of bits held, which the vector's encoding of
/// its length keeps at or below `max_bits()`.
#[verifier::external_body]
pub(crate) fn bits_len(bits: &Bits) -> (result: usize)
    ensures
        result == bits_of(*bits).len(),
        result <= max_bits(),
{
    bits.bits.len()
}

/// Indexing a `BitVec` by a position: the bit held there. An index past
/// the end panics, so it is excluded.
#[verifier::external_body]
pub(crate) fn bits_get(bits: &Bits, index: usize) -> (result: bool)
    requires
        index < bits_of(*bits).len(),
    ensures
        result == bits_of(*bits)[index as int],
{
    bits.bits[index]
}

/// `BitVec::push`: the bit is appended and nothing else changes. A push
/// onto a vector of `max_bits()` bits panics, so it is excluded.
#[verifier::external_body]
pub(crate) fn bits_push(bits: &mut Bits, bit: bool)
    requires
        bits_of(*old(bits)).len() < max_bits(),
    ensures
        bits_of(*final(bits)) == bits_of(*old(bits)).push(bit),
{
    bits.bits.push(bit)
}

/// `BitField::load_be` on the bits from `start` up to `end`: with `Msb0`
/// ordering and big-endian element order the first bit of the range is the
/// most significant bit of the result, whatever storage elements the range
/// crosses. An empty range, one wider than the result, or one past the end
/// panics, so they are excluded.
#[verifier::external_body]
pub(crate) fn bits_load(bits: &Bits, start: usize, end: usize) -> (result: u32)
    requires
        start < end <= bits_of(*bits).len(),
        end - start <= 32,
    ensures
        result == field_value(bits_of(*bits).subrange(start as int, end as int)),
{
    bits.bits[start..end].load_be::<u32>()
}

impl Bits {
    /// A sequence without bits.
    pub fn new() -> (result: Self)
        ensures
            result@ == Seq::<bool>::empty(),
    {
        bits_new()
    }

    /// The number of bits.
    pub fn len(&self) -> (result: usize)
        ensures
            result == self@.len(),
            result <= max_bits(),
    {
        bits_len(self)
    }

    /// The bit at `index`, if there is one.
    pub fn get(&self, index: usize) -> (result: Option<bool>)
        ensures
            result == if index < self@.len() {
                Some(self@[index as int])
            } else {
                None
            },
    {
        if index < bits_len(self) {
            Some(bits_get(self, index))
        } else {
            None
        }
    }

    /// Appends one bit. A sequence that is already at its greatest length
    /// is left as it is, and the result says so.
    pub fn push(&mut self, bit: bool) -> (pushed: bool)
        ensures
            pushed == (old(self)@.len() < max_bits()),
            final(self)@ == if pushed {
                old(self)@.push(bit)
            } else {
                old(self)@
            },
    {
        if bits_len(self) < usize::MAX / 8 {
            bits_push(self, bit);
            true
        } else {
            false
        }
    }

    /// The same bits as `bools`, in the same order.
    pub fn from_bools(bools: &Vec<bool>) -> (result: Self)
        requires
            bools@.len() <= max_bits(),
        ensures
            result@ == bools@,
    {
        let mut result = bits_new();
        let mut index: usize = 0;
        while index < bools.len()
            invariant
                index <= bools@.len() <= max_bits(),
                result@ == bools@.take(index as int),
            decreases bools@.len() - index,
        {
            bits_push(&mut result, bools[index]);
            assert(bools@.take(index + 1) == bools@.take(index as int).push(bools@[index as int]));
            index += 1;
        }
        assert(bools@.take(bools@.len() as int) == bools@);
        result
    }

    /// The bits as a vector of `bool`, in the same order.
    pub fn to_bools(&self) -> (result: Vec<bool>)
        ensures
            result@ == self@,
    {
        let len = bits_len(self);
        let mut result: Vec<bool> = Vec::new();
        let mut index: usize = 0;
        while index < len
            invariant
                len == self@.len(),
                index <= len,
                result@ == self@.take(index as int),
            decreases len - index,
        {
            result.push(bits_get(self, index));
            assert(self@.take(index + 1) == self@.take(index as int).push(self@[index as int]));
            index += 1;
        }
        assert(self@.take(len as int) == self@);
        result
    }
}

} // verus!
