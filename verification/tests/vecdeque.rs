use std::collections::VecDeque;

use stream_owl::store::mem::fill_with_offset;
use stream_owl::vecdeque::VecDequeExt;

/// `[1, 2, 3, 4]`, stored in one piece.
fn contiguous() -> VecDeque<u8> {
    let mut dvec = VecDeque::new();
    for x in [1, 2, 3, 4] {
        dvec.push_back(x);
    }
    dvec
}

/// `[1, 2, ..., 8]`, stored in two pieces: pushed back `5, 6, 7, 8`, then
/// pushed front `4, 3, 2, 1`.
fn discontiguous() -> VecDeque<u8> {
    let mut dvec = VecDeque::new();
    for x in [5, 6, 7, 8] {
        dvec.push_back(x);
    }
    for y in [4, 3, 2, 1] {
        dvec.push_front(y);
    }
    dvec
}

#[test]
fn vecdeque_starting_at_zero() {
    let mut target = [0u8; 4];
    let buffer = contiguous();
    buffer.copy_starting_at(0, &mut target);
    assert_eq!(target, [1, 2, 3, 4]);

    let mut target = [0u8; 8];
    let buffer = discontiguous();
    buffer.copy_starting_at(0, &mut target);
    assert_eq!(target, [1, 2, 3, 4, 5, 6, 7, 8]);
}

#[test]
fn vecdeque_skip_half() {
    let mut target = [0u8; 2];
    let buffer = contiguous();
    buffer.copy_starting_at(2, &mut target);
    assert_eq!(target, [3, 4]);

    let mut target = [0u8; 4];
    let buffer = discontiguous();
    buffer.copy_starting_at(4, &mut target);
    assert_eq!(target, [5, 6, 7, 8]);
}

#[test]
fn vecdeque_target_bigger() {
    let mut target = [0u8; 6];
    let buffer = contiguous();
    buffer.copy_starting_at(0, &mut target);
    assert_eq!(target, [1, 2, 3, 4, 0, 0]);

    let mut target = [0u8; 6];
    let buffer = discontiguous();
    buffer.copy_starting_at(4, &mut target);
    assert_eq!(target, [5, 6, 7, 8, 0, 0]);
}

#[test]
fn vecdeque_target_smaller() {
    let mut target = [0u8; 2];
    let buffer = contiguous();
    buffer.copy_starting_at(0, &mut target);
    assert_eq!(target, [1, 2]);

    let mut target = [0u8; 2];
    let buffer = discontiguous();
    buffer.copy_starting_at(0, &mut target);
    assert_eq!(target, [1, 2]);
}

#[test]
fn vecdeque_copy_returns_count() {
    let mut target = [9u8; 5];
    let n = discontiguous().copy_starting_at(6, &mut target);
    assert_eq!(n, 2);
    assert_eq!(target, [7, 8, 9, 9, 9]);

    let mut target = [9u8; 3];
    let n = contiguous().copy_starting_at(4, &mut target);
    assert_eq!(n, 0);
    assert_eq!(target, [9, 9, 9]);
}

#[test]
fn test_fill_with_offset() {
    let source = discontiguous();

    let mut target = [0u8; 4];
    let n = fill_with_offset(&mut target, &source, 3);
    assert_eq!(n, 4);
    assert_eq!(target, [4, 5, 6, 7]);

    let mut target = [0u8; 4];
    let n = fill_with_offset(&mut target, &source, 6);
    assert_eq!(n, 2);
    assert_eq!(target, [7, 8, 0, 0]);

    let mut target = [0u8; 3];
    let n = fill_with_offset(&mut target, &source, 8);
    assert_eq!(n, 0);
    assert_eq!(target, [0, 0, 0]);
}
