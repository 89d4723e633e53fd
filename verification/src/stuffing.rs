//! The mathematical model of bit stuffing and destuffing.

use vstd::prelude::*;

verus! {

/// Number of bits at the end of a frame, from the CRC delimiter to the
/// inter-frame spacing, that are never stuffed.
pub const TRAILER_BITS: usize = 13;

/// Number of leading bits of a sequence of `len` bits that are subject to
/// stuffing: all but the trailer.
pub open spec fn stuffable_len(len: nat) -> nat {
    if len >= TRAILER_BITS {
        (len - TRAILER_BITS) as nat
    } else {
        0
    }
}

/// Whether `bits` has at least `n` bits and its last `n` bits all equal
/// `bit`.
pub open spec fn ends_in_run(bits: Seq<bool>, n: nat, bit: bool) -> bool {
    &&& bits.len() >= n
    &&& forall|k: int| bits.len() - n <= k < bits.len() ==> bits[k] == bit
}

/// The bit to insert after the bits emitted so far, if any: the opposite
/// of a run of `n` equal bits at their end.
pub open spec fn stuffing_bit(emitted: Seq<bool>, n: nat) -> Option<bool> {
    if ends_in_run(emitted, n, false) {
        Some(true)
    } else if ends_in_run(emitted, n, true) {
        Some(false)
    } else {
        None
    }
}

/// What has been emitted once the first `count` bits of `bits` have been
/// stuffed with window `n`.
pub open spec fn stuffed_prefix(bits: Seq<bool>, n: nat, count: nat) -> Seq<bool>
    decreases count,
{
    if count == 0 {
        Seq::empty()
    } else {
        let index = (count - 1) as nat;
        let emitted = stuffed_prefix(bits, n, index).push(bits[index as int]);
        if index < stuffable_len(bits.len()) {
            match stuffing_bit(emitted, n) {
                Some(bit) => emitted.push(bit),
                None => emitted,
            }
        } else {
            emitted
        }
    }
}

/// `bits` with a bit of the opposite value inserted after every run of `n`
/// equal emitted bits that ends before the trailer.
pub open spec fn stuffed(bits: Seq<bool>, n: nat) -> Seq<bool> {
    stuffed_prefix(bits, n, bits.len())
}

/// Whether `bits` holds both a set and a clear bit.
pub open spec fn has_both(bits: Seq<bool>) -> bool {
    bits.contains(true) && bits.contains(false)
}

/// Whether the bit at `index` of a stuffed sequence is a stuffing bit: it
/// lies before the trailer and the `n` bits before it are all equal.
pub open spec fn is_stuffing_position(bits: Seq<bool>, n: nat, index: int) -> bool {
    &&& index < stuffable_len(bits.len())
    &&& index >= n
    &&& !has_both(bits.subrange(index - n, index))
}

/// What is kept of the first `count` bits of `bits` when the stuffing bits
/// for window `n` are dropped.
pub open spec fn unstuffed_prefix(bits: Seq<bool>, n: nat, count: nat) -> Seq<bool>
    decreases count,
{
    if count == 0 {
        Seq::empty()
    } else {
        let index = (count - 1) as nat;
        let kept = unstuffed_prefix(bits, n, index);
        if is_stuffing_position(bits, n, index as int) {
            kept
        } else {
            kept.push(bits[index as int])
        }
    }
}

/// `bits` without its stuffing bits for window `n`.
pub open spec fn unstuffed(bits: Seq<bool>, n: nat) -> Seq<bool> {
    unstuffed_prefix(bits, n, bits.len())
}

/// The last `n` bits of `bits`, or all of them if there are fewer.
pub open spec fn last_bits(bits: Seq<bool>, n: nat) -> Seq<bool> {
    if bits.len() >= n {
        bits.subrange(bits.len() - n, bits.len() as int)
    } else {
        bits
    }
}

/// Stuffing never more than doubles what it has read.
pub proof fn lemma_stuffed_prefix_len(bits: Seq<bool>, n: nat, count: nat)
    ensures
        count <= stuffed_prefix(bits, n, count).len() <= 2 * count,
    decreases count,
{
    if count > 0 {
        lemma_stuffed_prefix_len(bits, n, (count - 1) as nat);
    }
}

/// Destuffing keeps at most what it has read.
pub proof fn lemma_unstuffed_prefix_len(bits: Seq<bool>, n: nat, count: nat)
    ensures
        unstuffed_prefix(bits, n, count).len() <= count,
    decreases count,
{
    if count > 0 {
        lemma_unstuffed_prefix_len(bits, n, (count - 1) as nat);
    }
}

/// Whether the `n` bits of `bits` that start at `start` are all equal.
pub open spec fn is_run(bits: Seq<bool>, start: int, n: nat) -> bool {
    forall|k: int| start <= k < start + n ==> #[trigger] bits[k] == bits[start]
}

/// Whether no `n` consecutive bits among the first `limit` bits of `bits`
/// are all equal.
pub open spec fn free_of_runs(bits: Seq<bool>, n: nat, limit: nat) -> bool {
    forall|start: int| 0 <= start && start + n <= limit ==> !is_run(bits, start, n)
}

/// Bits that do not hold both values are all equal.
proof fn lemma_one_value(bits: Seq<bool>)
    requires
        !has_both(bits),
    ensures
        forall|k: int| 0 <= k < bits.len() ==> #[trigger] bits[k] == bits[0],
{
    assert forall|k: int| 0 <= k < bits.len() implies #[trigger] bits[k] == bits[0] by {
        assert(bits.contains(bits[k]));
        assert(bits.contains(bits[0]));
    }
}

/// Stuffing the first `i` bits gives a prefix of what stuffing the first
/// `j` gives, for `i` up to `j`.
pub proof fn lemma_stuffed_prefix_grows(bits: Seq<bool>, n: nat, i: nat, j: nat)
    requires
        i <= j,
    ensures
        stuffed_prefix(bits, n, i).len() <= stuffed_prefix(bits, n, j).len(),
        forall|k: int|
            0 <= k < stuffed_prefix(bits, n, i).len() ==> stuffed_prefix(bits, n, j)[k]
                == stuffed_prefix(bits, n, i)[k],
    decreases j,
{
    if i < j {
        lemma_stuffed_prefix_grows(bits, n, i, (j - 1) as nat);
    }
}

/// While bits are stuffed, what has been emitted never ends in a run of
/// the window's length, for a window of two or more.
proof fn lemma_no_run_at_end(bits: Seq<bool>, n: nat, count: nat, bit: bool)
    requires
        n >= 2,
        count <= stuffable_len(bits.len()),
    ensures
        !ends_in_run(stuffed_prefix(bits, n, count), n, bit),
{
    if count > 0 {
        let index = (count - 1) as nat;
        let emitted = stuffed_prefix(bits, n, index).push(bits[index as int]);
        let result = stuffed_prefix(bits, n, count);
        match stuffing_bit(emitted, n) {
            Some(inserted) => {
                assert(emitted[emitted.len() - 1] == !inserted);
                if ends_in_run(result, n, bit) {
                    assert(result[result.len() - 1] == bit);
                    assert(result[result.len() - 2] == bit);
                }
            },
            None => {},
        }
    }
}

/// Behind the stuffable part, stuffing copies its input.
proof fn lemma_trailer_copied(bits: Seq<bool>, n: nat, count: nat)
    requires
        stuffable_len(bits.len()) <= count <= bits.len(),
    ensures
        stuffed_prefix(bits, n, count) == stuffed_prefix(bits, n, stuffable_len(bits.len()))
            + bits.subrange(stuffable_len(bits.len()) as int, count as int),
    decreases count,
{
    let stuffable = stuffable_len(bits.len());
    let head = stuffed_prefix(bits, n, stuffable);
    if count > stuffable {
        lemma_trailer_copied(bits, n, (count - 1) as nat);
        assert(stuffed_prefix(bits, n, count) =~= head + bits.subrange(
            stuffable as int,
            count as int,
        ));
    } else {
        assert(stuffed_prefix(bits, n, count) =~= head + bits.subrange(
            stuffable as int,
            count as int,
        ));
    }
}

/// The stuffable part of a stuffed sequence is the stuffing of the
/// stuffable part of its input.
proof fn lemma_stuffable_part(bits: Seq<bool>, n: nat)
    ensures
        stuffable_len(stuffed(bits, n).len()) == stuffed_prefix(
            bits,
            n,
            stuffable_len(bits.len()),
        ).len(),
{
    lemma_trailer_copied(bits, n, bits.len());
}

/// Behind the stuffable part, destuffing copies its input.
proof fn lemma_trailer_kept(bits: Seq<bool>, n: nat, count: nat)
    requires
        stuffable_len(bits.len()) <= count <= bits.len(),
    ensures
        unstuffed_prefix(bits, n, count) == unstuffed_prefix(bits, n, stuffable_len(bits.len()))
            + bits.subrange(stuffable_len(bits.len()) as int, count as int),
    decreases count,
{
    let stuffable = stuffable_len(bits.len());
    let head = unstuffed_prefix(bits, n, stuffable);
    if count > stuffable {
        lemma_trailer_kept(bits, n, (count - 1) as nat);
        assert(unstuffed_prefix(bits, n, count) =~= head + bits.subrange(
            stuffable as int,
            count as int,
        ));
    } else {
        assert(unstuffed_prefix(bits, n, count) =~= head + bits.subrange(
            stuffable as int,
            count as int,
        ));
    }
}

/// Destuffing what stuffing emitted for the first `count` bits gives those
/// bits back, for a window of two or more.
proof fn lemma_unstuff_stuffed_prefix(bits: Seq<bool>, n: nat, count: nat)
    requires
        n >= 2,
        count <= stuffable_len(bits.len()),
    ensures
        unstuffed_prefix(stuffed(bits, n), n, stuffed_prefix(bits, n, count).len()) == bits.take(
            count as int,
        ),
    decreases count,
{
    let all = stuffed(bits, n);
    if count == 0 {
        assert(unstuffed_prefix(all, n, 0) =~= bits.take(0));
    } else {
        let index = (count - 1) as nat;
        let before = stuffed_prefix(bits, n, index);
        let emitted = before.push(bits[index as int]);
        let after = stuffed_prefix(bits, n, count);
        let stuffable = stuffable_len(bits.len());
        lemma_unstuff_stuffed_prefix(bits, n, index);
        lemma_stuffable_part(bits, n);
        lemma_stuffed_prefix_grows(bits, n, count, stuffable);
        lemma_stuffed_prefix_grows(bits, n, stuffable, bits.len());
        assert forall|k: int| 0 <= k < after.len() implies all[k] == after[k] by {
            assert(stuffed_prefix(bits, n, stuffable)[k] == after[k]);
        }
        // The data bit is kept: the bits before it do not end in a run.
        let at = before.len() as int;
        assert(all[at] == bits[index as int]) by {
            assert(after[at] == emitted[at]);
        }
        assert(!is_stuffing_position(all, n, at)) by {
            if at >= n && !has_both(all.subrange(at - n, at)) {
                let window = all.subrange(at - n, at);
                lemma_one_value(window);
                let bit = window[0];
                assert forall|k: int| before.len() - n <= k < before.len() implies before[k]
                    == bit by {
                    assert(window[k - (at - n)] == all[k]);
                    assert(after[k] == emitted[k]);
                }
                lemma_no_run_at_end(bits, n, index, bit);
            }
        }
        assert(unstuffed_prefix(all, n, (at + 1) as nat) == bits.take(index as int).push(
            bits[index as int],
        ));
        assert(bits.take(index as int).push(bits[index as int]) =~= bits.take(count as int));
        match stuffing_bit(emitted, n) {
            Some(inserted) => {
                // The inserted bit is dropped: it follows a run.
                assert(after == emitted.push(inserted));
                let window = all.subrange(at + 1 - n, at + 1);
                assert(ends_in_run(emitted, n, !inserted));
                assert forall|k: int| 0 <= k < window.len() implies window[k] == !inserted by {
                    assert(window[k] == all[k + (at + 1 - n)]);
                    assert(after[k + (at + 1 - n)] == emitted[k + (at + 1 - n)]);
                }
                assert(!window.contains(inserted));
                assert(is_stuffing_position(all, n, at + 1));
                assert(unstuffed_prefix(all, n, (at + 2) as nat) == unstuffed_prefix(
                    all,
                    n,
                    (at + 1) as nat,
                ));
            },
            None => {
                assert(after == emitted);
            },
        }
    }
}

/// Destuffing undoes stuffing, for every input and every window of two or
/// more bits.
pub proof fn lemma_unstuff_undoes_stuff(bits: Seq<bool>, n: nat)
    requires
        n >= 2,
    ensures
        unstuffed(stuffed(bits, n), n) == bits,
{
    let all = stuffed(bits, n);
    let stuffable = stuffable_len(bits.len());
    let head = stuffed_prefix(bits, n, stuffable);
    lemma_stuffable_part(bits, n);
    lemma_trailer_copied(bits, n, bits.len());
    lemma_unstuff_stuffed_prefix(bits, n, stuffable);
    lemma_trailer_kept(all, n, all.len());
    assert(all.subrange(head.len() as int, all.len() as int) =~= bits.subrange(
        stuffable as int,
        bits.len() as int,
    ));
    assert(bits.take(stuffable as int) + bits.subrange(stuffable as int, bits.len() as int)
        =~= bits);
}

/// Where no `n` consecutive bits before the trailer are equal, stuffing
/// inserts nothing.
proof fn lemma_stuffing_inserts_nothing(bits: Seq<bool>, n: nat, count: nat)
    requires
        free_of_runs(bits, n, stuffable_len(bits.len())),
        count <= bits.len(),
    ensures
        stuffed_prefix(bits, n, count) == bits.take(count as int),
    decreases count,
{
    if count == 0 {
        assert(stuffed_prefix(bits, n, count) =~= bits.take(0));
    } else {
        let index = (count - 1) as nat;
        lemma_stuffing_inserts_nothing(bits, n, index);
        let emitted = bits.take(index as int).push(bits[index as int]);
        assert(emitted =~= bits.take(count as int));
        if index < stuffable_len(bits.len()) {
            assert forall|bit: bool| !ends_in_run(emitted, n, bit) by {
                if ends_in_run(emitted, n, bit) {
                    let start = count - n;
                    assert forall|k: int| start <= k < start + n implies #[trigger] bits[k]
                        == bits[start] by {
                        assert(emitted[k] == bit);
                        assert(n > 0 ==> emitted[start] == bit);
                    }
                    assert(is_run(bits, start, n));
                }
            }
        }
    }
}

/// Where no `n` consecutive bits before the trailer are equal, destuffing
/// drops nothing.
proof fn lemma_destuffing_drops_nothing(bits: Seq<bool>, n: nat, count: nat)
    requires
        free_of_runs(bits, n, stuffable_len(bits.len())),
        count <= bits.len(),
    ensures
        unstuffed_prefix(bits, n, count) == bits.take(count as int),
    decreases count,
{
    if count == 0 {
        assert(unstuffed_prefix(bits, n, count) =~= bits.take(0));
    } else {
        let index = (count - 1) as nat;
        lemma_destuffing_drops_nothing(bits, n, index);
        assert(bits.take(index as int).push(bits[index as int]) =~= bits.take(count as int));
        if is_stuffing_position(bits, n, index as int) {
            let start = index - n;
            let window = bits.subrange(start, index as int);
            lemma_one_value(window);
            assert forall|k: int| start <= k < start + n implies #[trigger] bits[k] == bits[start] by {
                assert(window[k - start] == bits[k]);
                assert(window[0] == bits[start]);
            }
            assert(is_run(bits, start, n));
        }
    }
}

/// A sequence in which no `n` consecutive bits before the trailer are
/// equal is left as it is by stuffing and by destuffing with window `n`,
/// so destuffing what stuffing gave returns it, and what stuffing gave
/// holds no `n` consecutive equal bits before its trailer either.
pub proof fn lemma_round_trip_without_runs(bits: Seq<bool>, n: nat)
    requires
        free_of_runs(bits, n, stuffable_len(bits.len())),
    ensures
        stuffed(bits, n) == bits,
        unstuffed(bits, n) == bits,
        unstuffed(stuffed(bits, n), n) == bits,
        free_of_runs(stuffed(bits, n), n, stuffable_len(stuffed(bits, n).len())),
{
    lemma_stuffing_inserts_nothing(bits, n, bits.len());
    lemma_destuffing_drops_nothing(bits, n, bits.len());
    assert(bits.take(bits.len() as int) =~= bits);
}

/// While bits are stuffed with a window of two or more, a bit emitted
/// behind `n` equal bits is their opposite.
proof fn lemma_runs_are_broken(bits: Seq<bool>, n: nat, count: nat, at: int)
    requires
        n >= 2,
        count <= stuffable_len(bits.len()),
        n <= at < stuffed_prefix(bits, n, count).len(),
        is_run(stuffed_prefix(bits, n, count), at - n, n),
    ensures
        stuffed_prefix(bits, n, count)[at] != stuffed_prefix(bits, n, count)[at - n],
    decreases count,
{
    let after = stuffed_prefix(bits, n, count);
    if count > 0 {
        let index = (count - 1) as nat;
        let before = stuffed_prefix(bits, n, index);
        let emitted = before.push(bits[index as int]);
        let bit = after[at - n];
        if at < before.len() {
            assert forall|k: int| at - n <= k < at implies #[trigger] before[k] == before[at - n] by {
                assert(after[k] == after[at - n]);
            }
            lemma_runs_are_broken(bits, n, index, at);
        } else if at == before.len() {
            assert forall|k: int| before.len() - n <= k < before.len() implies before[k]
                == bit by {
                assert(after[k] == after[at - n]);
            }
            lemma_no_run_at_end(bits, n, index, bit);
        } else {
            assert forall|k: int| emitted.len() - n <= k < emitted.len() implies emitted[k]
                == bit by {
                assert(after[k] == after[at - n]);
            }
            assert(ends_in_run(emitted, n, bit));
            assert(emitted[emitted.len() - 1] == bit);
        }
    }
}

/// Before the trailer, what stuffing with a window of two or more gives
/// holds no more than `n` consecutive equal bits.
pub proof fn lemma_stuffed_runs_are_bounded(bits: Seq<bool>, n: nat)
    requires
        n >= 2,
    ensures
        free_of_runs(stuffed(bits, n), n + 1, stuffable_len(stuffed(bits, n).len())),
{
    let all = stuffed(bits, n);
    let stuffable = stuffable_len(bits.len());
    let head = stuffed_prefix(bits, n, stuffable);
    lemma_stuffable_part(bits, n);
    lemma_stuffed_prefix_grows(bits, n, stuffable, bits.len());
    let longer = n + 1;
    assert forall|start: int| 0 <= start && start + longer <= head.len() implies !is_run(
        all,
        start,
        longer,
    ) by {
        if is_run(all, start, longer) {
            assert forall|k: int| start <= k < start + n implies #[trigger] head[k] == head[start] by {
                assert(all[k] == all[start]);
            }
            lemma_runs_are_broken(bits, n, stuffable, start + n);
            assert(all[start + n] == all[start]);
        }
    }
}

} // verus!
