mod binary_tree;

pub use binary_tree::{BinaryTree, TreeKey};
