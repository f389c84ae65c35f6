use range_vec::RangeVec;

fn collect_range(v: &RangeVec<i32>, lo: usize, hi: usize) -> Vec<i32> {
    let mut out = Vec::new();
    let mut it = v.iter(lo..hi);
    while let Some(x) = it.next() {
        out.push(*x);
    }
    out
}

fn collect_range_u8(v: &RangeVec<u8>, lo: usize, hi: usize) -> Vec<u8> {
    let mut out = Vec::new();
    let mut it = v.iter(lo..hi);
    while let Some(x) = it.next() {
        out.push(*x);
    }
    out
}

#[test]
fn test_get_index() {
    let range_vec = RangeVec::<u8>::new();
    assert_eq!(range_vec.get(0), &0);
    assert_eq!(range_vec.get(100), &0);
    assert_eq!(range_vec[200], 0);
    assert!(range_vec.is_empty());
}

#[test]
fn test_set_get_mut_with_reset() {
    let mut range_vec = RangeVec::<u8>::new();
    range_vec.set(5, 10);
    range_vec.get_mut_with(10, |v| *v = 20);
    range_vec.set(3, 5);
    assert_eq!(range_vec[0], 0);
    assert_eq!(range_vec.get(5), &10);
    assert_eq!(range_vec.get(10), &20);
    assert_eq!(range_vec[12], 0);
    assert_eq!(range_vec.range(), Some(3..11));

    range_vec.get_mut_with(3, |v| *v = 0);
    assert_eq!(range_vec.range(), Some(5..11));
    range_vec.set(10, 0);
    range_vec.set(5, 0);
    assert!(range_vec.is_empty());

    range_vec.set(20, 100);
    range_vec.reset(20);
    range_vec.reset(20);
    assert!(range_vec.is_empty());
}

#[test]
fn test_display() {
    let mut range_vec = RangeVec::<u8>::new();
    assert_eq!(range_vec.to_display_string(|v| format!("{}", v)), "RangeVec { <empty> }");
    range_vec.set(5, 1);
    range_vec.set(7, 2);
    range_vec.set(9, 3);
    assert_eq!(
        range_vec.to_display_string(|v| format!("{}", v)),
        "RangeVec { range: 5..10, data: [1, 0, 2, 0, 3] }"
    );
}

#[test]
fn test_mutate_many() {
    let mut range_vec = RangeVec::<i32>::new();
    range_vec.set(5, -1);
    range_vec.set(7, 1);
    range_vec.mutate_many(5..9, |_, value| value + 1);
    assert_eq!(range_vec.range(), Some(6..9));
    assert_eq!(collect_range(&range_vec, 6, 9), vec![1, 2, 1]);
}

#[test]
fn test_mutate_non_default() {
    let mut range_vec = RangeVec::<i32>::new();
    range_vec.set(5, -1);
    range_vec.set(7, 1);
    range_vec.mutate_non_default(|_, value| value + 1);
    assert_eq!(range_vec.range(), Some(7..8));
    assert_eq!(range_vec[7], 2);
}

#[test]
fn test_truncate() {
    let mut range_vec = RangeVec::<u8>::new();
    range_vec.set(5, 5);
    range_vec.set(6, 6);
    range_vec.set(7, 7);
    range_vec.set(8, 8);
    range_vec.set(9, 9);
    range_vec.truncate(6..9);
    assert_eq!(range_vec.range(), Some(6..9));

    range_vec.truncate(10..15);
    assert!(range_vec.is_empty());
}

#[test]
fn test_as_mut_slices_with() {
    let mut range_vec = RangeVec::<i32>::new();
    range_vec.set(6, 6);
    range_vec.set(7, 7);
    range_vec.set(8, 8);
    range_vec.set(9, -1);
    range_vec.set(5, 5);
    range_vec.as_mut_slices_with(3..10, |left, right| {
        for item in left.iter_mut().chain(right.iter_mut()) {
            *item += 1;
        }
    });
    assert_eq!(range_vec.range(), Some(3..9));
    assert_eq!(collect_range(&range_vec, 3, 9), vec![1, 1, 6, 7, 8, 9]);
}

#[test]
fn test_make_contiguous_with() {
    let mut range_vec = RangeVec::<i32>::new();
    range_vec.set(6, 6);
    range_vec.set(7, 7);
    range_vec.set(8, 8);
    range_vec.set(9, -1);
    range_vec.set(5, 5);
    range_vec.make_contiguous_with(3..10, |slice| {
        for item in slice {
            *item += 1;
        }
    });
    assert_eq!(range_vec.range(), Some(3..9));
    assert_eq!(collect_range(&range_vec, 3, 9), vec![1, 1, 6, 7, 8, 9]);
}

#[test]
fn test_get_after_set_and_reset() {
    let mut v = RangeVec::<i32>::new();
    v.set(12, 42);
    assert_eq!(v.get(12), &42);
    v.reset(12);
    assert_eq!(v.get(12), &0);
    v.set(12, 42);
    v.set(12, 0);
    assert_eq!(v.get(12), &0);
    assert!(v.is_empty());
}

#[test]
fn test_reset_twice_observably_equal() {
    let mut v = RangeVec::<u8>::new();
    v.set(5, 1);
    v.set(7, 2);
    v.reset(5);
    let once_range = v.range();
    let once_values = collect_range_u8(&v, 0, 12);
    v.reset(5);
    assert_eq!(v.range(), once_range);
    assert_eq!(collect_range_u8(&v, 0, 12), once_values);
}

#[test]
fn test_range_none_iff_all_default() {
    let mut v = RangeVec::<u8>::new();
    assert_eq!(v.range(), None);
    assert_eq!(v.range_size(), 0);
    v.set(3, 0);
    assert_eq!(v.range(), None);
    v.set(3, 9);
    assert_eq!(v.range(), Some(3..4));
    assert_eq!(v.range_size(), 1);
    v.set(3, 0);
    assert_eq!(v.range(), None);
}

#[test]
fn test_interior_defaults_are_stored() {
    let mut v = RangeVec::<u8>::new();
    v.set(5, 1);
    v.set(7, 2);
    v.set(9, 3);
    assert_eq!(v.range(), Some(5..10));
    assert_eq!(collect_range_u8(&v, 5, 10), vec![1, 0, 2, 0, 3]);
    assert_eq!(v.range_size(), 5);
}

#[test]
fn test_clear_resets_everything() {
    let mut v = RangeVec::<i32>::new();
    v.set(2, 7);
    v.set(4, -7);
    v.clear();
    assert!(v.is_empty());
    assert_eq!(v.get(2), &0);
    assert_eq!(v.get(4), &0);
}

#[test]
fn test_get_mut_with_returns_closure_result() {
    let mut v = RangeVec::<i32>::new();
    v.set(3, 30);
    let seen = v.get_mut_with(3, |x| {
        let was = *x;
        *x = 31;
        was
    });
    assert_eq!(seen, 30);
    assert_eq!(v.get(3), &31);
    let absent = v.get_mut_with(50, |x| *x);
    assert_eq!(absent, 0);
    assert_eq!(v.range(), Some(3..4));
}

#[test]
fn test_mutate_many_empty_and_reversed_span() {
    let mut v = RangeVec::<i32>::new();
    v.set(5, 5);
    v.mutate_many(7..7, |_, x| x + 1);
    assert_eq!(v.range(), Some(5..6));
    v.mutate_many(9..2, |_, x| x + 1);
    assert_eq!(v.range(), Some(5..6));
    assert_eq!(v.get(5), &5);
}

#[test]
fn test_mutate_non_default_skips_holes() {
    let mut v = RangeVec::<i32>::new();
    v.set(1, 10);
    v.set(3, 30);
    let mut visited = Vec::new();
    v.mutate_non_default(|i, x| {
        visited.push(i);
        x
    });
    assert_eq!(visited, vec![1, 3]);
}

#[test]
fn test_truncate_empty_span_clears() {
    let mut v = RangeVec::<u8>::new();
    v.set(4, 4);
    v.set(6, 6);
    v.truncate(5..5);
    assert!(v.is_empty());
}

#[test]
fn test_set_at_zero_and_far_apart() {
    let mut v = RangeVec::<u8>::new();
    v.set(0, 1);
    assert_eq!(v.range(), Some(0..1));
    v.set(100, 2);
    assert_eq!(v.range(), Some(0..101));
    assert_eq!(v.range_size(), 101);
    assert_eq!(v.get(50), &0);
}

#[test]
fn test_segment_and_contiguous_observe_same_contents() {
    let mut a = RangeVec::<i32>::new();
    a.set(5, 1);
    a.set(7, 2);
    let mut b = a.clone();
    let seen_segments = a.as_mut_slices_with(4..9, |left, right| {
        let mut c: Vec<i32> = left.to_vec();
        c.extend_from_slice(right);
        c
    });
    let seen_contiguous = b.make_contiguous_with(4..9, |slice| slice.to_vec());
    assert_eq!(seen_segments, seen_contiguous);
    assert_eq!(seen_segments, vec![0, 1, 0, 2, 0]);
    assert_eq!(a.range(), b.range());
}

#[test]
fn test_slice_access_can_empty_the_store() {
    let mut v = RangeVec::<i32>::new();
    v.set(5, 1);
    v.set(6, 2);
    v.make_contiguous_with(5..7, |slice| {
        for item in slice {
            *item = 0;
        }
    });
    assert!(v.is_empty());
}

#[test]
fn test_default_trait_matches_new() {
    let v: RangeVec<u8> = Default::default();
    assert!(v.is_empty());
    assert_eq!(v.get(17), &0);
}
