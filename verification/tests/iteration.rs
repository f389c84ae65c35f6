use range_vec::RangeVec;

#[test]
fn test_iter() {
    let mut range_vec = RangeVec::<u8>::new();
    range_vec.set(5, 1);
    range_vec.set(6, 2);
    range_vec.set(7, 3);

    let mut iter = range_vec.iter(3..9);
    assert_eq!(iter.len(), 6);
    assert_eq!(iter.next(), Some(&0));
    assert_eq!(iter.next(), Some(&0));
    assert_eq!(iter.next(), Some(&1));
    assert_eq!(iter.next_back(), Some(&0));
    assert_eq!(iter.next_back(), Some(&3));
    assert_eq!(iter.len(), 1);
    assert_eq!(iter.next(), Some(&2));
    assert_eq!(iter.next(), None);
    assert_eq!(iter.next(), None);
}

#[test]
fn test_iter_synthesizes_defaults() {
    let mut v = RangeVec::<u8>::new();
    v.set(5, 1);
    v.set(6, 2);
    v.set(7, 3);
    assert_eq!(v.range(), Some(5..8));
    let mut collected = Vec::new();
    let mut it = v.iter(3..9);
    while let Some(x) = it.next() {
        collected.push(*x);
    }
    assert_eq!(collected, vec![0, 0, 1, 2, 3, 0]);
}

#[test]
fn test_iter_backward_is_reverse_of_forward() {
    let mut v = RangeVec::<u8>::new();
    v.set(4, 9);
    v.set(6, 5);

    let mut forward = Vec::new();
    let mut it = v.iter(2..8);
    while let Some(x) = it.next() {
        forward.push(*x);
    }

    let mut backward = Vec::new();
    let mut it = v.iter(2..8);
    while let Some(x) = it.next_back() {
        backward.push(*x);
    }

    forward.reverse();
    assert_eq!(forward, backward);
}

#[test]
fn test_iter_fused_and_mixed_ends() {
    let mut v = RangeVec::<u8>::new();
    v.set(1, 7);
    let mut it = v.iter(0..2);
    assert_eq!(it.size_hint(), (2, Some(2)));
    assert_eq!(it.next_back(), Some(&7));
    assert_eq!(it.next(), Some(&0));
    assert_eq!(it.next(), None);
    assert_eq!(it.next_back(), None);
    assert_eq!(it.next(), None);
    assert_eq!(it.len(), 0);
}

#[test]
fn test_iter_reversed_span_is_empty() {
    let mut v = RangeVec::<u8>::new();
    v.set(3, 3);
    let mut it = v.iter(7..2);
    assert_eq!(it.len(), 0);
    assert_eq!(it.next(), None);
    assert_eq!(it.next_back(), None);
}
