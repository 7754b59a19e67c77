use collect_me::tree::BinaryTree;

#[test]
fn binary_tree_empty() {
    let tree: BinaryTree<i32, i32> = BinaryTree::new();
    assert_eq!(tree.get(&0), None);
    assert_eq!(tree.len(), 0);
    assert!(tree.is_empty());
}

#[test]
fn one_key() {
    let mut tree = BinaryTree::new();
    tree.insert(3, "Hello");
    assert_eq!(tree.get(&3), Some(&"Hello"));
    assert_eq!(tree.insert(3, "World"), Some("Hello"));
    assert_eq!(tree.get(&3), Some(&"World"));
}

#[test]
fn three_keys() {
    let mut tree = BinaryTree::new();
    tree.insert(1, 'A');
    tree.insert(0, 'B');
    tree.insert(2, 'C');

    assert_eq!(tree.get(&1), Some(&'A'));
    assert_eq!(tree.get(&0), Some(&'B'));
    assert_eq!(tree.get(&2), Some(&'C'));
    assert_eq!(tree.get(&-1), None);
}

#[test]
fn get_mut() {
    let mut tree = BinaryTree::new();
    tree.insert(1, 'A');
    tree.insert(2, 'B');
    tree.insert(0, 'C');

    assert_eq!(tree.get(&0), Some(&'C'));

    let val = tree.get_mut(&1).expect("Failed to mutably reference value");
    *val = 'X';

    let val = tree.get_mut(&2).expect("Failed to mutably reference value");
    *val = 'Y';

    let val = tree.get_mut(&0).expect("Failed to mutably reference value");
    *val = 'Z';

    assert_eq!(tree.get(&1), Some(&'X'));
    assert_eq!(tree.get(&2), Some(&'Y'));
    assert_eq!(tree.get(&0), Some(&'Z'));
}

#[test]
fn index() {
    let mut tree = BinaryTree::new();
    tree.insert(0, 'A');
    assert_eq!(tree[&0], 'A');
}

#[test]
#[should_panic]
fn index_nonexistent() {
    let mut tree = BinaryTree::new();
    tree.insert(0, 'A');
    let _ = tree[&1];
}

#[test]
fn len_counts_distinct_keys() {
    let mut tree: BinaryTree<u64, u8> = BinaryTree::new();
    assert_eq!(tree.insert(5, 1), None);
    assert_eq!(tree.insert(3, 2), None);
    assert_eq!(tree.insert(8, 3), None);
    assert_eq!(tree.insert(3, 4), Some(2));
    assert_eq!(tree.len(), 3);
    assert!(!tree.is_empty());
    assert_eq!(tree.get(&3), Some(&4));
    assert_eq!(tree.get(&7), None);
}

#[test]
fn get_mut_missing_key() {
    let mut tree: BinaryTree<i64, i64> = BinaryTree::new();
    assert!(tree.get_mut(&1).is_none());
    tree.insert(1, 10);
    assert!(tree.get_mut(&2).is_none());
    assert_eq!(tree.get(&1), Some(&10));
    assert_eq!(tree.len(), 1);
}

#[test]
fn keys_in_any_order() {
    let mut tree: BinaryTree<usize, usize> = BinaryTree::new();
    let keys = [50usize, 20, 70, 10, 30, 60, 80, 25, 65];
    for k in keys {
        assert_eq!(tree.insert(k, k * 2), None);
    }
    assert_eq!(tree.len(), keys.len());
    for k in keys {
        assert_eq!(tree.get(&k), Some(&(k * 2)));
    }
    assert_eq!(tree.get(&0), None);
    assert_eq!(tree.get(&90), None);
}
