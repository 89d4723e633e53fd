use can_decode::bits::Bits;
use can_decode::{stuff, unstuff, MaxSizeQueue};

fn bit_sequence(values: &[u8]) -> Bits {
    Bits::from_bools(&values.iter().map(|value| *value != 0).collect())
}

fn bit_values(bits: &Bits) -> Vec<u8> {
    bits.to_bools().iter().map(|bit| u8::from(*bit)).collect()
}

const UNSTUFFED: [u8; 55] = [
    0, //
    0, 0, 0, 0, 0, 0, 1, 0, 1, 0, 0, //
    0, //
    0, //
    0, //
    0, 0, 0, 1, //
    0, 0, 0, 0, 0, 0, 0, 1, //
    1, 1, 1, 0, 1, 1, 1, 0, 1, 0, 1, 0, 0, 1, 1, //
    1, //
    0, //
    1, //
    1, 1, 1, 1, 1, 1, 1, //
    1, 1, 1,
];

const STUFFED: [u8; 58] = [
    0, //
    0, 0, 0, 0, 1, 0, 0, 1, 0, 1, 0, 0, //
    0, //
    0, //
    0, 1, //
    0, 0, 0, 1, //
    0, 0, 0, 0, 0, 1, 0, 0, 1, //
    1, 1, 1, 0, 1, 1, 1, 0, 1, 0, 1, 0, 0, 1, 1, //
    1, //
    0, //
    1, //
    1, 1, 1, 1, 1, 1, 1, //
    1, 1, 1,
];

#[test]
fn test_max_size_queue() {
    let mut queue = MaxSizeQueue::new(5);
    assert_eq!(queue.elements().len(), 0);

    queue.add(0);
    assert_eq!(queue.elements().len(), 1);
    assert_eq!(queue.elements(), &[0]);

    queue.add(1);
    assert_eq!(queue.elements().len(), 2);
    assert_eq!(queue.elements(), &[0, 1]);

    queue.add(2);
    assert_eq!(queue.elements().len(), 3);
    assert_eq!(queue.elements(), &[0, 1, 2]);

    queue.add(3);
    assert_eq!(queue.elements().len(), 4);
    assert_eq!(queue.elements(), &[0, 1, 2, 3]);

    queue.add(4);
    assert_eq!(queue.elements().len(), 5);
    assert_eq!(queue.elements(), &[0, 1, 2, 3, 4]);

    queue.add(5);
    assert_eq!(queue.elements().len(), 5);
    assert_eq!(queue.elements(), &[1, 2, 3, 4, 5]);
}

#[test]
fn test_bit_stuffing() {
    let bits = bit_sequence(&UNSTUFFED);

    assert_eq!(bit_values(&stuff(&bits, 5)), STUFFED.to_vec());
}

#[test]
fn test_bit_unstuffing() {
    let bits = bit_sequence(&STUFFED);

    assert_eq!(bit_values(&unstuff(&bits, 5)), UNSTUFFED.to_vec());
}

#[test]
fn queue_reports_what_it_evicts() {
    let mut queue = MaxSizeQueue::new(2);
    assert_eq!(queue.max_size(), 2);
    assert!(!queue.is_full());
    assert_eq!(queue.add(7), None);
    assert_eq!(queue.add(8), None);
    assert!(queue.is_full());
    assert_eq!(queue.add(9), Some(7));
    assert_eq!(queue.elements(), &[8, 9]);
}

#[test]
fn queue_without_room_keeps_nothing() {
    let mut queue = MaxSizeQueue::new(0);
    assert!(queue.is_full());
    assert_eq!(queue.add(3), Some(3));
    assert_eq!(queue.elements().len(), 0);
    assert!(queue.is_full());
}

#[test]
fn bits_keep_what_is_pushed() {
    let mut bits = Bits::new();
    assert_eq!(bits.len(), 0);
    assert_eq!(bits.get(0), None);
    assert!(bits.push(true));
    assert!(bits.push(false));
    assert!(bits.push(true));
    assert_eq!(bits.len(), 3);
    assert_eq!(bits.get(0), Some(true));
    assert_eq!(bits.get(1), Some(false));
    assert_eq!(bits.get(2), Some(true));
    assert_eq!(bits.get(3), None);
    assert_eq!(bits.to_bools(), vec![true, false, true]);
}

#[test]
fn bits_round_trip_through_bools() {
    let bools: Vec<bool> = (0..200).map(|index| index % 3 == 0 || index % 7 == 0).collect();
    let bits = Bits::from_bools(&bools);
    assert_eq!(bits.len(), 200);
    assert_eq!(bits.to_bools(), bools);
}

#[test]
fn stuffing_leaves_the_trailer_alone() {
    // Fourteen clear bits: only the first lies before the trailer.
    let bits = bit_sequence(&[0; 14]);
    assert_eq!(bit_values(&stuff(&bits, 5)), vec![0; 14]);
    // Eighteen clear bits: the run of five ends at the last bit before
    // the trailer, and the stuffing bit goes in front of the trailer.
    let bits = bit_sequence(&[0; 18]);
    let mut expected = vec![0; 5];
    expected.push(1);
    expected.extend(vec![0; 13]);
    assert_eq!(bit_values(&stuff(&bits, 5)), expected);
    assert_eq!(bit_values(&unstuff(&bit_sequence(&expected), 5)), vec![0; 18]);
}

#[test]
fn stuffing_counts_stuffing_bits_in_runs() {
    // 00000 1111 ...: the stuffing bit after the zeros starts the run of
    // ones, so the next stuffing bit comes after four more ones.
    let mut input = vec![0, 0, 0, 0, 0, 1, 1, 1, 1, 0, 1];
    input.extend(vec![1; 13]);
    let mut expected = vec![0, 0, 0, 0, 0, 1, 1, 1, 1, 1, 0, 0, 1];
    expected.extend(vec![1; 13]);
    let stuffed = stuff(&bit_sequence(&input), 5);
    assert_eq!(bit_values(&stuffed), expected);
    assert_eq!(bit_values(&unstuff(&stuffed, 5)), input);
}

#[test]
fn stuffing_of_short_input_changes_nothing() {
    let input = vec![1; 13];
    assert_eq!(bit_values(&stuff(&bit_sequence(&input), 5)), input);
    assert_eq!(bit_values(&unstuff(&bit_sequence(&input), 5)), input);
    let empty: Vec<u8> = Vec::new();
    assert_eq!(bit_values(&stuff(&bit_sequence(&empty), 5)), empty);
    assert_eq!(bit_values(&unstuff(&bit_sequence(&empty), 5)), empty);
}

#[test]
fn stuffing_round_trips_without_long_runs() {
    // No run of three before the trailer: stuffing with a window of three
    // inserts nothing, and destuffing removes nothing.
    let mut input = vec![0, 0, 1, 1, 0, 1, 0, 0, 1, 1, 0, 1];
    input.extend(vec![1; 13]);
    let stuffed = stuff(&bit_sequence(&input), 3);
    assert_eq!(bit_values(&stuffed), input);
    assert_eq!(bit_values(&unstuff(&stuffed, 3)), input);
}

#[test]
fn stuffing_round_trips_with_long_runs() {
    for window in 2..8usize {
        let mut input: Vec<u8> = Vec::new();
        for index in 0..120u32 {
            input.push(u8::from((index / 11) % 2 == 0 || index % 17 == 3));
        }
        let stuffed = stuff(&bit_sequence(&input), window);
        assert_eq!(bit_values(&unstuff(&stuffed, window)), input);
        // Before the trailer no more than `window` equal bits follow one
        // another.
        let values = bit_values(&stuffed);
        let before_trailer = values.len() - 13;
        let mut run = 0;
        for index in 0..before_trailer {
            if index > 0 && values[index] == values[index - 1] {
                run += 1;
            } else {
                run = 1;
            }
            assert!(run <= window);
        }
    }
}

#[test]
fn stuffing_with_window_of_one_follows_each_bit_with_its_opposite() {
    let mut input = vec![0, 1];
    input.extend(vec![1; 13]);
    let mut expected = vec![0, 1, 1, 0];
    expected.extend(vec![1; 13]);
    assert_eq!(bit_values(&stuff(&bit_sequence(&input), 1)), expected);
}

#[test]
fn stuffing_with_window_of_zero_follows_each_bit_with_a_set_bit() {
    let mut input = vec![0, 1];
    input.extend(vec![0; 13]);
    let mut expected = vec![0, 1, 1, 1];
    expected.extend(vec![0; 13]);
    assert_eq!(bit_values(&stuff(&bit_sequence(&input), 0)), expected);
    // With no window every bit before the trailer counts as stuffing.
    assert_eq!(bit_values(&unstuff(&bit_sequence(&expected), 0)), vec![0; 13]);
}
