use vstd::prelude::*;
use vstd::set_lib::lemma_set_disjoint_lens;

verus! {

/// A key that can be ordered: each key has a rank, and keys of equal rank are
/// equal.
pub trait TreeKey: Sized {
    /// Where the key stands in the order of keys.
    spec fn rank(&self) -> int;

    /// Keys of equal rank are the same key.
    proof fn lemma_rank_determines(a: &Self, b: &Self)
        requires
            a.rank() == b.rank(),
        ensures
            *a == *b,
    ;

    /// Compares two keys by rank.
    fn compare(&self, other: &Self) -> (r: core::cmp::Ordering)
        ensures
            (r == core::cmp::Ordering::Less) == (self.rank() < other.rank()),
            (r == core::cmp::Ordering::Equal) == (self.rank() == other.rank()),
            (r == core::cmp::Ordering::Greater) == (self.rank() > other.rank()),
    ;
}

impl TreeKey for i8 {
    open spec fn rank(&self) -> int {
        *self as int
    }

    proof fn lemma_rank_determines(a: &Self, b: &Self) {
    }

    fn compare(&self, other: &Self) -> (r: core::cmp::Ordering) {
        if *self < *other {
            core::cmp::Ordering::Less
        } else if *self == *other {
            core::cmp::Ordering::Equal
        } else {
            core::cmp::Ordering::Greater
        }
    }
}

impl TreeKey for i16 {
    open spec fn rank(&self) -> int {
        *self as int
    }

    proof fn lemma_rank_determines(a: &Self, b: &Self) {
    }

    fn compare(&self, other: &Self) -> (r: core::cmp::Ordering) {
        if *self < *other {
            core::cmp::Ordering::Less
        } else if *self == *other {
            core::cmp::Ordering::Equal
        } else {
            core::cmp::Ordering::Greater
        }
    }
}

impl TreeKey for i32 {
    open spec fn rank(&self) -> int {
        *self as int
    }

    proof fn lemma_rank_determines(a: &Self, b: &Self) {
    }

    fn compare(&self, other: &Self) -> (r: core::cmp::Ordering) {
        if *self < *other {
            core::cmp::Ordering::Less
        } else if *self == *other {
            core::cmp::Ordering::Equal
        } else {
            core::cmp::Ordering::Greater
        }
    }
}

impl TreeKey for i64 {
    open spec fn rank(&self) -> int {
        *self as int
    }

    proof fn lemma_rank_determines(a: &Self, b: &Self) {
    }

    fn compare(&self, other: &Self) -> (r: core::cmp::Ordering) {
        if *self < *other {
            core::cmp::Ordering::Less
        } else if *self == *other {
            core::cmp::Ordering::Equal
        } else {
            core::cmp::Ordering::Greater
        }
    }
}

impl TreeKey for isize {
    open spec fn rank(&self) -> int {
        *self as int
    }

    proof fn lemma_rank_determines(a: &Self, b: &Self) {
    }

    fn compare(&self, other: &Self) -> (r: core::cmp::Ordering) {
        if *self < *other {
            core::cmp::Ordering::Less
        } else if *self == *other {
            core::cmp::Ordering::Equal
        } else {
            core::cmp::Ordering::Greater
        }
    }
}

impl TreeKey for u8 {
    open spec fn rank(&self) -> int {
        *self as int
    }

    proof fn lemma_rank_determines(a: &Self, b: &Self) {
    }

    fn compare(&self, other: &Self) -> (r: core::cmp::Ordering) {
        if *self < *other {
            core::cmp::Ordering::Less
        } else if *self == *other {
            core::cmp::Ordering::Equal
        } else {
            core::cmp::Ordering::Greater
        }
    }
}

impl TreeKey for u16 {
    open spec fn rank(&self) -> int {
        *self as int
    }

    proof fn lemma_rank_determines(a: &Self, b: &Self) {
    }

    fn compare(&self, other: &Self) -> (r: core::cmp::Ordering) {
        if *self < *other {
            core::cmp::Ordering::Less
        } else if *self == *other {
            core::cmp::Ordering::Equal
        } else {
            core::cmp::Ordering::Greater
        }
    }
}

impl TreeKey for u32 {
    open spec fn rank(&self) -> int {
        *self as int
    }

    proof fn lemma_rank_determines(a: &Self, b: &Self) {
    }

    fn compare(&self, other: &Self) -> (r: core::cmp::Ordering) {
        if *self < *other {
            core::cmp::Ordering::Less
        } else if *self == *other {
            core::cmp::Ordering::Equal
        } else {
            core::cmp::Ordering::Greater
        }
    }
}

impl TreeKey for u64 {
    open spec fn rank(&self) -> int {
        *self as int
    }

    proof fn lemma_rank_determines(a: &Self, b: &Self) {
    }

    fn compare(&self, other: &Self) -> (r: core::cmp::Ordering) {
        if *self < *other {
            core::cmp::Ordering::Less
        } else if *self == *other {
            core::cmp::Ordering::Equal
        } else {
            core::cmp::Ordering::Greater
        }
    }
}

impl TreeKey for usize {
    open spec fn rank(&self) -> int {
        *self as int
    }

    proof fn lemma_rank_determines(a: &Self, b: &Self) {
    }

    fn compare(&self, other: &Self) -> (r: core::cmp::Ordering) {
        if *self < *other {
            core::cmp::Ordering::Less
        } else if *self == *other {
            core::cmp::Ordering::Equal
        } else {
            core::cmp::Ordering::Greater
        }
    }
}

/// A binary search tree containing key-value pairs where the keys can be
/// ordered.
///
/// The tree keeps a count of its entries, so that `len` and `is_empty` take
/// constant time.
#[derive(Debug)]
pub struct BinaryTree<K, V> {
    root: Option<BinaryTreeNode<K, V>>,
    len: usize,
}

#[derive(Debug)]
struct BinaryTreeNode<K, V> {
    key: K,
    value: V,
    left: Option<Box<BinaryTreeNode<K, V>>>,
    right: Option<Box<BinaryTreeNode<K, V>>>,
}

impl<K: TreeKey, V> BinaryTreeNode<K, V> {
    /// The entries of the subtree rooted here.
    closed spec fn as_map(self) -> Map<K, V>
        decreases self,
    {
        let l = match self.left {
            Some(n) => n.as_map(),
            None => Map::empty(),
        };
        let r = match self.right {
            Some(n) => n.as_map(),
            None => Map::empty(),
        };
        l.union_prefer_right(r).insert(self.key, self.value)
    }

    /// The number of nodes of the subtree rooted here.
    closed spec fn size(self) -> nat
        decreases self,
    {
        let l = match self.left {
            Some(n) => n.size(),
            None => 0,
        };
        let r = match self.right {
            Some(n) => n.size(),
            None => 0,
        };
        l + r + 1
    }

    /// Keys on the left rank below this node's key, keys on the right above,
    /// all the way down.
    closed spec fn well_formed(self) -> bool
        decreases self,
    {
        &&& match self.left {
            Some(n) => {
                &&& n.well_formed()
                &&& forall|k: K| #[trigger] n.as_map().contains_key(k) ==> k.rank() < self.key.rank()
            },
            None => true,
        }
        &&& match self.right {
            Some(n) => {
                &&& n.well_formed()
                &&& forall|k: K| #[trigger] n.as_map().contains_key(k) ==> k.rank() > self.key.rank()
            },
            None => true,
        }
    }

    closed spec fn opt_map(n: Option<Box<Self>>) -> Map<K, V> {
        match n {
            Some(n) => n.as_map(),
            None => Map::empty(),
        }
    }

    /// A well-formed subtree has as many entries as nodes.
    proof fn lemma_len_is_size(self)
        requires
            self.well_formed(),
        ensures
            self.as_map().dom().finite(),
            self.as_map().dom().len() == self.size(),
        decreases self,
    {
        let l = Self::opt_map(self.left);
        let r = Self::opt_map(self.right);
        match self.left {
            Some(n) => n.lemma_len_is_size(),
            None => {},
        }
        match self.right {
            Some(n) => n.lemma_len_is_size(),
            None => {},
        }
        assert(l.dom().disjoint(r.dom())) by {
            assert forall|k: K| l.dom().contains(k) implies !r.dom().contains(k) by {
                if r.dom().contains(k) {
                    assert(k.rank() < self.key.rank());
                }
            }
        }
        lemma_set_disjoint_lens(l.dom(), r.dom());
        assert(l.union_prefer_right(r).dom() =~= l.dom() + r.dom());
        assert(!l.union_prefer_right(r).dom().contains(self.key));
    }

    fn get(&self, key: &K) -> (r: Option<&V>)
        requires
            self.well_formed(),
        ensures
            r is Some == self.as_map().contains_key(*key),
            r is Some ==> *r->0 == self.as_map()[*key],
        decreases self,
    {
        match key.compare(&self.key) {
            core::cmp::Ordering::Equal => {
                proof {
                    K::lemma_rank_determines(key, &self.key);
                }
                Some(&self.value)
            },
            core::cmp::Ordering::Less => {
                assert(!Self::opt_map(self.right).contains_key(*key));
                match &self.left {
                    Some(child) => child.get(key),
                    None => None,
                }
            },
            core::cmp::Ordering::Greater => {
                assert(!Self::opt_map(self.left).contains_key(*key));
                match &self.right {
                    Some(child) => child.get(key),
                    None => None,
                }
            },
        }
    }

    fn leaf(key: K, value: V) -> (r: Box<Self>)
        ensures
            r.well_formed(),
            r.as_map() == Map::<K, V>::empty().insert(key, value),
    {
        let r = Box::new(BinaryTreeNode { key, value, left: None, right: None });
        assert(r.as_map() =~= Map::<K, V>::empty().insert(key, value));
        r
    }

    /// Inserts the pair, or replaces the value of an equal key and returns
    /// the value it had.
    fn insert(&mut self, key: K, value: V) -> (r: Option<V>)
        requires
            old(self).well_formed(),
        ensures
            final(self).well_formed(),
            final(self).as_map() == old(self).as_map().insert(key, value),
            r is Some == old(self).as_map().contains_key(key),
            r is Some ==> r->0 == old(self).as_map()[key],
        decreases old(self).size(),
    {
        match key.compare(&self.key) {
            core::cmp::Ordering::Equal => {
                proof {
                    K::lemma_rank_determines(&key, &self.key);
                }
                let mut v = value;
                core::mem::swap(&mut self.value, &mut v);
                assert(self.as_map() =~= old(self).as_map().insert(key, value));
                Some(v)
            },
            core::cmp::Ordering::Less => {
                assert(!Self::opt_map(self.right).contains_key(key));
                let r = match &mut self.left {
                    Some(child) => child.insert(key, value),
                    None => {
                        self.left = Some(Self::leaf(key, value));
                        None
                    },
                };
                assert(self.as_map() =~= old(self).as_map().insert(key, value));
                r
            },
            core::cmp::Ordering::Greater => {
                assert(!Self::opt_map(self.left).contains_key(key));
                let r = match &mut self.right {
                    Some(child) => child.insert(key, value),
                    None => {
                        self.right = Some(Self::leaf(key, value));
                        None
                    },
                };
                assert(self.as_map() =~= old(self).as_map().insert(key, value));
                r
            },
        }
    }

    fn get_mut(&mut self, key: &K) -> (r: Option<&mut V>)
        requires
            old(self).well_formed(),
        ensures
            r is Some == old(self).as_map().contains_key(*key),
            r is None ==> *final(self) == *old(self),
            r matches Some(m) ==> *m == old(self).as_map()[*key] && final(self).well_formed()
                && final(self).size() == old(self).size()
                && final(self).as_map() == old(self).as_map().insert(*key, *final(m)),
        decreases old(self).size(),
    {
        match key.compare(&self.key) {
            core::cmp::Ordering::Equal => {
                proof {
                    K::lemma_rank_determines(key, &self.key);
                }
                Some(&mut self.value)
            },
            core::cmp::Ordering::Less => {
                assert(!Self::opt_map(self.right).contains_key(*key));
                match &mut self.left {
                    Some(child) => child.get_mut(key),
                    None => None,
                }
            },
            core::cmp::Ordering::Greater => {
                assert(!Self::opt_map(self.left).contains_key(*key));
                match &mut self.right {
                    Some(child) => child.get_mut(key),
                    None => None,
                }
            },
        }
    }
}

impl<K: TreeKey, V> View for BinaryTree<K, V> {
    type V = Map<K, V>;

    /// The entries of the tree.
    closed spec fn view(&self) -> Map<K, V> {
        match self.root {
            Some(n) => n.as_map(),
            None => Map::empty(),
        }
    }
}

impl<K: TreeKey, V> BinaryTree<K, V> {
    /// Constructs an empty tree.
    pub fn new() -> (r: Self)
        ensures
            r.well_formed(),
            r@ == Map::<K, V>::empty(),
    {
        BinaryTree { root: None, len: 0 }
    }

    /// The nodes are ordered by key and counted by `len`.
    pub closed spec fn well_formed(&self) -> bool {
        match self.root {
            Some(n) => n.well_formed() && self.len == n.size(),
            None => self.len == 0,
        }
    }

    proof fn lemma_len(&self)
        requires
            self.well_formed(),
        ensures
            self@.dom().finite(),
            self@.len() == self.len,
    {
        match self.root {
            Some(n) => n.lemma_len_is_size(),
            None => {},
        }
    }

    /// Inserts a key-value pair into the tree.
    ///
    /// Returns `None` if the key was not present; otherwise replaces the value
    /// and returns the old one. Like a `HashMap`, the key itself is not
    /// replaced.
    pub fn insert(&mut self, key: K, value: V) -> (r: Option<V>)
        requires
            old(self).well_formed(),
            old(self)@.len() < usize::MAX,
        ensures
            final(self).well_formed(),
            final(self)@ == old(self)@.insert(key, value),
            r is Some == old(self)@.contains_key(key),
            r is Some ==> r->0 == old(self)@[key],
    {
        proof {
            self.lemma_len();
        }
        let r = match &mut self.root {
            Some(root) => root.insert(key, value),
            None => {
                let leaf = BinaryTreeNode::leaf(key, value);
                self.root = Some(*leaf);
                None
            },
        };
        if r.is_none() {
            self.len = self.len + 1;
        }
        proof {
            let n = self.root->0;
            n.lemma_len_is_size();
            old(self).lemma_len();
            if r is None {
                assert(n.as_map().dom() =~= old(self)@.dom().insert(key));
            } else {
                assert(n.as_map().dom() =~= old(self)@.dom());
            }
        }
        r
    }

    /// Returns a reference to the value of `key`, or `None` if the key is not
    /// present.
    pub fn get(&self, key: &K) -> (r: Option<&V>)
        requires
            self.well_formed(),
        ensures
            r is Some == self@.contains_key(*key),
            r is Some ==> *r->0 == self@[*key],
    {
        match &self.root {
            Some(root) => root.get(key),
            None => None,
        }
    }

    /// Returns a mutable reference to the value of `key`, or `None` if the
    /// key is not present.
    pub fn get_mut(&mut self, key: &K) -> (r: Option<&mut V>)
        requires
            old(self).well_formed(),
        ensures
            r is Some == old(self)@.contains_key(*key),
            r is None ==> *final(self) == *old(self),
            r matches Some(m) ==> *m == old(self)@[*key] && final(self).well_formed()
                && final(self)@ == old(self)@.insert(*key, *final(m)),
    {
        match &mut self.root {
            Some(root) => root.get_mut(key),
            None => None,
        }
    }

    /// Returns the number of entries in the tree, in constant time.
    pub fn len(&self) -> (r: usize)
        requires
            self.well_formed(),
        ensures
            r == self@.len(),
    {
        proof {
            self.lemma_len();
        }
        self.len
    }

    /// Returns `true` if the tree is empty.
    pub fn is_empty(&self) -> (r: bool)
        requires
            self.well_formed(),
        ensures
            r == (self@.len() == 0),
    {
        proof {
            self.lemma_len();
        }
        self.len == 0
    }
}

impl<K: TreeKey, V> Default for BinaryTree<K, V> {
    fn default() -> (r: Self)
        ensures
            r.well_formed(),
            r@ == Map::<K, V>::empty(),
    {
        Self::new()
    }
}

impl<'a, K: TreeKey, V> core::ops::Index<&'a K> for BinaryTree<K, V> {
    type Output = V;

    /// Returns a reference to the value of a key that is present.
    fn index(&self, key: &'a K) -> (r: &V)
        ensures
            *r == self@[*key],
    {
        self.get(key).unwrap()
    }
}

impl<'a, K: TreeKey, V> vstd::std_specs::core::IndexSpecImpl<&'a K> for BinaryTree<K, V> {
    /// Indexing asks for a well-formed tree that holds the key.
    open spec fn index_req(&self, key: &&'a K) -> bool {
        self.well_formed() && self@.contains_key(**key)
    }
}

} // verus!
