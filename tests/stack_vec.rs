use collect_me::vec::StackVec;

fn items<const N: usize>(v: &StackVec<i32, N>) -> Vec<i32> {
    (0..v.len()).map(|i| v[i]).collect()
}

#[test]
fn stack_vec_empty() {
    let v = StackVec::<i32, 32>::new();
    assert_eq!(v.len(), 0);
}

#[test]
fn small() {
    let mut v = StackVec::<i32, 4>::new();
    v.push(0);
    v.push(1);
    v.push(2);
    v.push(3);

    assert_eq!(v.len(), 4);
    assert!(matches!(v, StackVec::Unallocated(_)));
    assert_eq!(v[0], 0);
    assert_eq!(v[1], 1);
    assert_eq!(v[2], 2);
    assert_eq!(v[3], 3);
}

#[test]
fn stack_to_heap() {
    let mut v = StackVec::<i32, 4>::new();
    v.push(0);
    v.push(1);
    v.push(2);
    v.push(3);

    assert_eq!(v.len(), 4);
    assert!(matches!(v, StackVec::Unallocated(_)));
    assert_eq!(v[0], 0);
    assert_eq!(v[1], 1);
    assert_eq!(v[2], 2);
    assert_eq!(v[3], 3);

    v.push(4);
    assert_eq!(v.len(), 5);
    assert!(matches!(v, StackVec::Allocated(_)));
    assert_eq!(v[0], 0);
    assert_eq!(v[1], 1);
    assert_eq!(v[2], 2);
    assert_eq!(v[3], 3);
    assert_eq!(v[4], 4);
}

#[test]
fn stack_to_heap_plus_one() {
    let mut v = StackVec::<i32, 4>::new();
    v.push(0);
    v.push(1);
    v.push(2);
    v.push(3);

    assert_eq!(v.len(), 4);
    assert!(matches!(v, StackVec::Unallocated(_)));
    assert_eq!(v[0], 0);
    assert_eq!(v[1], 1);
    assert_eq!(v[2], 2);
    assert_eq!(v[3], 3);

    v.push(4);
    v.push(5);
    v.push(6);
    assert_eq!(v.len(), 7);
    assert!(matches!(v, StackVec::Allocated(_)));

    assert_eq!(v[0], 0);
    assert_eq!(v[1], 1);
    assert_eq!(v[2], 2);
    assert_eq!(v[3], 3);
    assert_eq!(v[4], 4);
    assert_eq!(v[5], 5);
    assert_eq!(v[6], 6);
    assert_eq!(v.capacity(), 10);
}

#[test]
fn pop_small() {
    let mut v = StackVec::<i32, 8>::new();
    v.push(32);
    assert_eq!(v.pop(), Some(32));
    assert_eq!(v.len(), 0);

    for i in 0..8 {
        v.push(i);
        assert_eq!(v.len(), i as usize + 1);
        assert_eq!(v.capacity(), 8);
    }

    for i in (0..8).rev() {
        assert_eq!(v.pop(), Some(i));
        assert_eq!(v.capacity(), 8);
    }
}

#[test]
fn pop_large() {
    let mut v = StackVec::<i32, 2>::new();
    for i in 0..100 {
        v.push(i);
        assert_eq!(v.len(), i as usize + 1);
    }

    for i in (0..100).rev() {
        assert_eq!(v.pop(), Some(i));
        assert_eq!(v.len(), i as usize);
    }
}

#[test]
fn small_slice() {
    let mut v = StackVec::<i32, 8>::new();

    v.push(0);
    v.push(1);
    v.push(2);
    v.push(3);

    assert_eq!(&items(&v)[..], &[0, 1, 2, 3]);
}

#[test]
fn large_slice() {
    let mut v = StackVec::<i32, 2>::new();

    v.push(0);
    v.push(1);
    v.push(2);
    v.push(3);

    assert_eq!(&items(&v)[..], &[0, 1, 2, 3]);
}

#[test]
fn swap_remove_small() {
    let mut v = StackVec::<_, 8>::new();
    v.push(1);
    v.push(2);
    v.push(3);
    v.push(4);
    v.push(5);

    assert_eq!(v.swap_remove(2), Some(3));
    assert_eq!(v[2], 5);
}

#[test]
fn swap_remove_two() {
    let mut v = StackVec::<_, 8>::new();
    v.push(1);
    v.push(2);

    assert_eq!(v.swap_remove(0), Some(1));
    assert_eq!(v[0], 2);
}

#[test]
fn swap_remove_large() {
    let mut v = StackVec::<_, 2>::new();

    v.push(1);
    v.push(2);
    v.push(3);
    v.push(4);
    v.push(5);

    assert!(matches!(v, StackVec::Allocated(_)));
    assert_eq!(v.swap_remove(2), Some(3));
    assert_eq!(v[2], 5);
}

#[test]
fn pushes_up_to_inline_capacity_stay_inline() {
    let mut v = StackVec::<u8, 3>::new();
    for i in 0..3u8 {
        v.push(i);
        assert!(!v.is_allocated());
        assert_eq!(v.capacity(), 3);
    }
}

#[test]
fn first_overflow_allocates_one_more_slot() {
    let mut v = StackVec::<i32, 3>::new();
    for i in 0..4 {
        v.push(i * 10);
    }
    assert!(v.is_allocated());
    assert_eq!(v.capacity(), 4);
    assert_eq!(items(&v), vec![0, 10, 20, 30]);
}

#[test]
fn capacity_follows_doubling_sequence() {
    let mut v = StackVec::<i32, 2>::new();
    let expected = [2usize, 2, 2, 3, 6, 6, 6, 12, 12, 12, 12, 12, 12, 24];
    for (m, cap) in expected.iter().enumerate().skip(1) {
        v.push(m as i32);
        assert_eq!(v.len(), m);
        assert_eq!(v.capacity(), *cap);
    }
}

#[test]
fn inline_size_four_scenario() {
    let mut v = StackVec::<i32, 4>::new();
    for i in 0..4 {
        v.push(i);
    }
    assert!(!v.is_allocated());
    assert_eq!(v.len(), 4);
    assert_eq!(items(&v), vec![0, 1, 2, 3]);
    v.push(4);
    assert!(v.is_allocated());
    assert_eq!(v.len(), 5);
    assert_eq!(v.capacity(), 5);
    assert_eq!(items(&v), vec![0, 1, 2, 3, 4]);
    v.push(5);
    v.push(6);
    assert!(v.is_allocated());
    assert_eq!(v.len(), 7);
    assert_eq!(v.capacity(), 10);
}

#[test]
fn swap_remove_scenario() {
    let mut v = StackVec::<i32, 8>::new();
    for i in 1..=5 {
        v.push(i);
    }
    assert_eq!(v.swap_remove(2), Some(3));
    assert_eq!(items(&v), vec![1, 2, 5, 4]);
}

#[test]
fn swap_remove_last_or_out_of_range_changes_nothing() {
    let mut v = StackVec::<i32, 4>::new();
    assert_eq!(v.swap_remove(0), None);
    v.push(7);
    assert_eq!(v.swap_remove(0), None);
    assert_eq!(items(&v), vec![7]);
    v.push(8);
    v.push(9);
    assert_eq!(v.swap_remove(2), None);
    assert_eq!(v.swap_remove(3), None);
    assert_eq!(v.swap_remove(usize::MAX), None);
    assert_eq!(items(&v), vec![7, 8, 9]);
}

#[test]
fn swap_remove_on_heap_keeps_other_positions() {
    let mut v = StackVec::<i32, 1>::new();
    for i in 0..6 {
        v.push(i);
    }
    let cap = v.capacity();
    assert_eq!(v.swap_remove(1), Some(1));
    assert_eq!(items(&v), vec![0, 5, 2, 3, 4]);
    assert_eq!(v.capacity(), cap);
    assert!(v.is_allocated());
}

#[test]
fn clear_keeps_heap_capacity() {
    let mut v = StackVec::<i32, 2>::new();
    for i in 0..5 {
        v.push(i);
    }
    assert_eq!(v.capacity(), 6);
    v.clear();
    assert_eq!(v.len(), 0);
    assert!(v.is_empty());
    assert!(v.is_allocated());
    assert_eq!(v.capacity(), 6);
    v.push(9);
    assert_eq!(items(&v), vec![9]);
}

#[test]
fn clear_inline() {
    let mut v = StackVec::<String, 4>::new();
    v.push(String::from("a"));
    v.push(String::from("b"));
    v.clear();
    assert_eq!(v.len(), 0);
    assert!(!v.is_allocated());
    assert_eq!(v.capacity(), 4);
    v.push(String::from("c"));
    assert_eq!(v[0], "c");
}

#[test]
fn pop_empty_yields_nothing() {
    let mut v = StackVec::<i32, 2>::new();
    assert_eq!(v.pop(), None);
    assert_eq!(v.len(), 0);
    v.push(1);
    assert_eq!(v.pop(), Some(1));
    assert_eq!(v.pop(), None);
}

#[test]
fn push_pop_round_trip() {
    let mut v = StackVec::<i32, 3>::new();
    for i in 0..9 {
        v.push(i);
    }
    let mut out = Vec::new();
    for _ in 0..9 {
        out.push(v.pop().unwrap());
    }
    assert_eq!(out, vec![8, 7, 6, 5, 4, 3, 2, 1, 0]);
    assert_eq!(v.len(), 0);
}

#[test]
fn len_after_pushes_and_pops() {
    let mut v = StackVec::<i32, 2>::new();
    for i in 0..7 {
        v.push(i);
    }
    for _ in 0..3 {
        assert!(v.pop().is_some());
    }
    assert_eq!(v.len(), 4);
}

#[test]
fn get_mut_writes_in_place() {
    let mut v = StackVec::<i32, 2>::new();
    v.push(1);
    *v.get_mut(0) = 5;
    assert_eq!(v[0], 5);
    v.push(2);
    v.push(3);
    *v.get_mut(2) = 30;
    assert_eq!(items(&v), vec![5, 2, 30]);
    assert_eq!(*v.get(1), 2);
}
