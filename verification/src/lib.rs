//! Decoding of Controller Area Network bit streams into typed frames, and
//! of 29-bit identifiers into their J1939 parts.

use crate::bits::{bits_get, bits_len, bits_new, bits_push, max_bits, Bits};
use crate::stuffing::{
    ends_in_run, last_bits, lemma_stuffed_prefix_grows, lemma_unstuffed_prefix_len, stuffable_len,
    stuffed, stuffed_prefix, unstuffed, unstuffed_prefix, TRAILER_BITS,
};
use std::collections::VecDeque;
use vstd::prelude::*;

pub mod bits;
pub mod can;
pub mod j1939;
pub mod stuffing;
pub mod uint;

verus! {

/// A queue that holds at most `max_size` elements: adding to a full queue
/// evicts the oldest.
pub struct MaxSizeQueue<T> {
    elements: VecDeque<T>,
    max_size: usize,
}

impl<T> View for MaxSizeQueue<T> {
    type V = Seq<T>;

    closed spec fn view(&self) -> Seq<T> {
        self.elements@
    }
}

impl<T> MaxSizeQueue<T> {
    /// The bound the queue was made with.
    pub closed spec fn capacity(&self) -> nat {
        self.max_size as nat
    }

    /// The queue holds no more than its bound allows.
    pub open spec fn wf(&self) -> bool {
        self@.len() <= self.capacity()
    }

    /// The contents after `element` is added to a queue that holds
    /// `elements` and is bounded by `capacity`.
    pub open spec fn after_add(elements: Seq<T>, capacity: nat, element: T) -> Seq<T> {
        if elements.len() < capacity {
            elements.push(element)
        } else {
            elements.push(element).subrange(1, elements.len() as int + 1)
        }
    }

    /// An empty queue that will hold at most `max_size` elements.
    pub fn new(max_size: usize) -> (result: Self)
        ensures
            result@ == Seq::<T>::empty(),
            result.capacity() == max_size,
            result.wf(),
    {
        Self { elements: VecDeque::new(), max_size }
    }

    /// The elements held, oldest first.
    pub fn elements(&self) -> (result: &VecDeque<T>)
        ensures
            result@ == self@,
    {
        &self.elements
    }

    /// The bound the queue was made with.
    pub fn max_size(&self) -> (result: usize)
        ensures
            result == self.capacity(),
    {
        self.max_size
    }

    /// Whether the queue holds as many elements as its bound allows.
    pub fn is_full(&self) -> (result: bool)
        ensures
            result == (self@.len() == self.capacity()),
    {
        self.elements.len() == self.max_size
    }

    /// Adds `element` at the back. A queue that was full gives up its
    /// oldest element, which is returned.
    pub fn add(&mut self, element: T) -> (evicted: Option<T>)
        ensures
            final(self).capacity() == old(self).capacity(),
            final(self)@ == Self::after_add(old(self)@, old(self).capacity(), element),
            evicted == if old(self)@.len() < old(self).capacity() {
                None
            } else {
                Some(old(self)@.push(element)[0])
            },
            old(self).wf() ==> final(self).wf(),
    {
        self.elements.push_back(element);
        if self.elements.len() > self.max_size {
            self.elements.pop_front()
        } else {
            None
        }
    }
}

/// Whether the queue holds `bit`.
fn holds(window: &MaxSizeQueue<bool>, bit: bool) -> (result: bool)
    ensures
        result == window@.contains(bit),
{
    let elements = window.elements();
    let mut index: usize = 0;
    while index < elements.len()
        invariant
            elements@ == window@,
            index <= elements@.len(),
            forall|k: int| 0 <= k < index ==> elements@[k] != bit,
        decreases elements@.len() - index,
    {
        if elements[index] == bit {
            return true;
        }
        index += 1;
    }
    false
}

/// Adding a bit to a window that holds the last `n` emitted bits gives the
/// last `n` bits of what is then emitted.
proof fn lemma_window_follows(emitted: Seq<bool>, n: nat, bit: bool)
    ensures
        MaxSizeQueue::<bool>::after_add(last_bits(emitted, n), n, bit) == last_bits(
            emitted.push(bit),
            n,
        ),
{
    assert(MaxSizeQueue::<bool>::after_add(last_bits(emitted, n), n, bit) =~= last_bits(
        emitted.push(bit),
        n,
    ));
}

/// A window of the last `n` emitted bits is full and lacks the opposite of
/// `bit` exactly when the emitted bits end in a run of `n` bits `bit`.
proof fn lemma_window_run(emitted: Seq<bool>, n: nat, bit: bool)
    ensures
        (last_bits(emitted, n).len() == n && !last_bits(emitted, n).contains(!bit))
            == ends_in_run(emitted, n, bit),
{
    let window = last_bits(emitted, n);
    if emitted.len() >= n {
        if !window.contains(!bit) {
            assert forall|k: int| emitted.len() - n <= k < emitted.len() implies emitted[k]
                == bit by {
                assert(window[k - (emitted.len() - n)] == emitted[k]);
            }
        }
        if ends_in_run(emitted, n, bit) {
            assert forall|k: int| 0 <= k < window.len() implies window[k] != !bit by {
                assert(window[k] == emitted[k + (emitted.len() - n)]);
            }
        }
    }
}

/// Inserts a bit of the opposite value after every run of `n` equal bits,
/// stuffing bits counted, that ends before the last thirteen bits of the
/// input.
pub fn stuff(unstuffed_bits: &Bits, n: usize) -> (stuffed_bits: Bits)
    requires
        stuffed(unstuffed_bits@, n as nat).len() <= max_bits(),
    ensures
        stuffed_bits@ == stuffed(unstuffed_bits@, n as nat),
{
    let len = bits_len(unstuffed_bits);
    let stuffable = if len >= TRAILER_BITS {
        len - TRAILER_BITS
    } else {
        0
    };
    let mut stuffed_bits = bits_new();
    let mut window: MaxSizeQueue<bool> = MaxSizeQueue::new(n);
    let mut index: usize = 0;
    while index < len
        invariant
            len == unstuffed_bits@.len(),
            stuffed(unstuffed_bits@, n as nat).len() <= max_bits(),
            stuffable == stuffable_len(len as nat),
            index <= len,
            stuffed_bits@ == stuffed_prefix(unstuffed_bits@, n as nat, index as nat),
            window@ == last_bits(stuffed_bits@, n as nat),
            window.capacity() == n,
        decreases len - index,
    {
        proof {
            lemma_stuffed_prefix_grows(unstuffed_bits@, n as nat, (index + 1) as nat, len as nat);
        }
        let bit = bits_get(unstuffed_bits, index);
        proof {
            lemma_window_follows(stuffed_bits@, n as nat, bit);
        }
        bits_push(&mut stuffed_bits, bit);
        window.add(bit);
        let ghost emitted = stuffed_bits@;
        proof {
            lemma_window_run(emitted, n as nat, false);
            lemma_window_run(emitted, n as nat, true);
        }
        if window.is_full() && index < stuffable {
            if !holds(&window, true) {
                proof {
                    lemma_window_follows(emitted, n as nat, true);
                }
                bits_push(&mut stuffed_bits, true);
                window.add(true);
            } else if !holds(&window, false) {
                proof {
                    lemma_window_follows(emitted, n as nat, false);
                }
                bits_push(&mut stuffed_bits, false);
                window.add(false);
            }
        }
        index += 1;
    }
    stuffed_bits
}

/// Drops every bit that follows `n` equal bits of the input and lies
/// before its last thirteen bits.
pub fn unstuff(stuffed_bits: &Bits, n: usize) -> (unstuffed_bits: Bits)
    ensures
        unstuffed_bits@ == unstuffed(stuffed_bits@, n as nat),
{
    let len = bits_len(stuffed_bits);
    let stuffable = if len >= TRAILER_BITS {
        len - TRAILER_BITS
    } else {
        0
    };
    let mut unstuffed_bits = bits_new();
    let mut window: MaxSizeQueue<bool> = MaxSizeQueue::new(n);
    let mut index: usize = 0;
    while index < len
        invariant
            len == stuffed_bits@.len(),
            len <= max_bits(),
            stuffable == stuffable_len(len as nat),
            index <= len,
            unstuffed_bits@ == unstuffed_prefix(stuffed_bits@, n as nat, index as nat),
            window@ == last_bits(stuffed_bits@.take(index as int), n as nat),
            window.capacity() == n,
        decreases len - index,
    {
        proof {
            lemma_unstuffed_prefix_len(stuffed_bits@, n as nat, index as nat);
        }
        let bit = bits_get(stuffed_bits, index);
        let ghost seen = stuffed_bits@.take(index as int);
        proof {
            lemma_window_follows(seen, n as nat, bit);
            assert(seen.push(bit) == stuffed_bits@.take(index + 1));
            if index >= n {
                assert(last_bits(seen, n as nat) == stuffed_bits@.subrange(index - n, index as int));
            }
        }
        if index >= stuffable || !window.is_full() || (holds(&window, true) && holds(
            &window,
            false,
        )) {
            bits_push(&mut unstuffed_bits, bit);
        }
        window.add(bit);
        index += 1;
    }
    unstuffed_bits
}

} // verus!
