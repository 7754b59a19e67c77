//! Extra data structures for data lookup: a binary search tree, a skip list
//! and a vector that keeps small contents inline before moving to the heap.

/// List-like data structures
pub mod list;
/// Tree-like data structures
pub mod tree;
/// Vectors with a different storage strategy
pub mod vec;
