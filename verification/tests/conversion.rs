//! Powers of two, zero padding and concatenation of byte strings.

use sike::utils::conversion::{concatenate, next_power_of_two, pad_and_join};

#[test]
fn next_power_of_two_rounds_up() {
    let cases = [
        (0, 1),
        (1, 1),
        (2, 2),
        (3, 4),
        (4, 4),
        (5, 8),
        (7, 8),
        (8, 8),
        (9, 16),
        (55, 64),
        (64, 64),
        (65, 128),
        (77, 128),
        (1000, 1024),
        (1 << 20, 1 << 20),
        ((1 << 20) + 1, 1 << 21),
    ];
    for (n, expected) in cases {
        assert_eq!(next_power_of_two(n), expected);
        assert_eq!(n.next_power_of_two(), expected);
    }
}

#[test]
fn next_power_of_two_of_the_largest() {
    let top = 1usize << (usize::BITS - 1);
    assert_eq!(next_power_of_two(top), top);
    assert_eq!(next_power_of_two(top - 1), top);
}

#[test]
fn concatenate_keeps_the_order() {
    let a = [1u8, 2];
    let b = [3u8];
    let c: [u8; 0] = [];
    let d = [4u8, 5, 6];
    assert_eq!(concatenate(&[&a, &b, &c, &d]), vec![1u8, 2, 3, 4, 5, 6]);
    assert_eq!(concatenate(&[&d, &a]), vec![4u8, 5, 6, 1, 2]);
    assert_eq!(concatenate(&[]), Vec::<u8>::new());
    assert_eq!(concatenate(&[&c]), Vec::<u8>::new());
}

#[test]
fn pad_and_join_pads_to_the_larger_power_of_two() {
    // 3 bytes round up to 4, 5 bytes to 8: both parts are padded to 8.
    let joined = pad_and_join(&[1, 2, 3], &[4, 5, 6, 7, 8]);
    assert_eq!(joined, vec![0u8, 0, 0, 0, 0, 1, 2, 3, 0, 0, 0, 4, 5, 6, 7, 8]);
    let joined = pad_and_join(&[4, 5, 6, 7, 8], &[1, 2, 3]);
    assert_eq!(joined, vec![0u8, 0, 0, 4, 5, 6, 7, 8, 0, 0, 0, 0, 0, 1, 2, 3]);
}

#[test]
fn pad_and_join_adds_nothing_to_powers_of_two() {
    assert_eq!(pad_and_join(&[1, 2], &[3, 4]), vec![1u8, 2, 3, 4]);
    assert_eq!(pad_and_join(&[1], &[2]), vec![1u8, 2]);
    assert_eq!(pad_and_join(&[1, 2, 3, 4], &[5]), vec![1u8, 2, 3, 4, 0, 0, 0, 5]);
}

#[test]
fn pad_and_join_of_empty_parts() {
    // Nothing rounds up to one byte.
    assert_eq!(pad_and_join(&[], &[]), vec![0u8, 0]);
    assert_eq!(pad_and_join(&[], &[9]), vec![0u8, 9]);
    assert_eq!(pad_and_join(&[9, 9, 9], &[]), vec![0u8, 9, 9, 9, 0, 0, 0, 0]);
}
