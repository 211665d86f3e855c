use std::collections::VecDeque;
use robigo_luculenta::pop_iter::PopFrontIter;

#[test]
fn pop_front_iter_ring_buf() {
    let mut xs = VecDeque::new();
    xs.push_back(0u32);
    xs.push_back(1);
    xs.push_back(2);
    xs.push_back(3);
    xs.push_back(4);
    let ys: Vec<u32> = xs.pop_front_iter(3).items;
    assert_eq!(xs[0], 3u32);
    assert_eq!(xs[1], 4u32);
    assert_eq!(&ys, &[0u32, 1, 2]);
}

#[test]
fn pop_front_iter_takes_all_when_short() {
    let mut xs = VecDeque::new();
    xs.push_back(7u32);
    xs.push_back(8);
    let ys: Vec<u32> = xs.pop_front_iter(5).items;
    assert_eq!(&ys, &[7u32, 8]);
    assert!(xs.is_empty());
}

#[test]
fn pop_front_iter_zero_is_noop() {
    let mut xs = VecDeque::new();
    xs.push_back(1u8);
    let ys: Vec<u8> = xs.pop_front_iter(0).items;
    assert!(ys.is_empty());
    assert_eq!(xs.len(), 1);
}
