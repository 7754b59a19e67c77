use vstd::prelude::*;

verus! {

/// A linked list with several levels of links, laid out in a probabilistic
/// fashion so that lookups take `O(log(n))` steps on average.
///
/// Nodes live in an arena and link to each other by their position in it.
#[derive(Debug)]
pub struct SkipList<T, const L: usize> {
    head: [Option<usize>; L],
    len: usize,
    nodes: Vec<SkipListNode<T, L>>,
}

#[derive(Debug)]
struct SkipListNode<T, const L: usize> {
    value: T,
    level: usize,
    next: [Option<usize>; L],
}

/// Relies on rand::random for a `bool`: a fair coin from the thread-local
/// generator. Nothing is known of the outcome.
#[verifier::external_body]
fn coin_flip() -> (r: bool) {
    rand::random::<bool>()
}

/// Draws a level for a new node: one more for each coin that comes up heads,
/// up to one above the top level `L`.
fn draw_level<const L: usize>() -> (r: usize)
    requires
        L < usize::MAX,
    ensures
        r <= L + 1,
{
    let mut level: usize = 0;
    loop
        invariant
            L < usize::MAX,
            level <= L + 1,
        decreases L + 1 - level,
    {
        if !coin_flip() || level > L {
            break;
        }
        level = level + 1;
    }
    level
}

impl<T, const L: usize> SkipList<T, L> {
    /// The number of elements linked into the list.
    pub closed spec fn spec_len(&self) -> nat {
        self.len as nat
    }

    /// The nodes that have been allocated, as (value, level) pairs, in the
    /// order of allocation.
    pub closed spec fn nodes(&self) -> Seq<(T, nat)> {
        self.nodes@.map_values(|n: SkipListNode<T, L>| (n.value, n.level as nat))
    }

    /// Whether a level starts with a node.
    pub closed spec fn level_is_empty(&self, level: int) -> bool {
        self.head@[level] is None
    }

    /// Creates a new empty skip list.
    pub fn new() -> (r: Self)
        ensures
            r.spec_len() == 0,
            r.nodes() == Seq::<(T, nat)>::empty(),
            forall|i: int| 0 <= i < L ==> #[trigger] r.level_is_empty(i),
    {
        let r = SkipList { head: [None; L], len: 0, nodes: Vec::new() };
        assert(r.nodes() =~= Seq::<(T, nat)>::empty());
        r
    }

    /// Inserts a new element: draws the level of its node and allocates the
    /// node, with no links of its own. The node is not yet reachable from the
    /// heads, so the length and the levels stay as they were.
    pub fn insert(&mut self, element: T)
        requires
            L < usize::MAX,
        ensures
            final(self).spec_len() == old(self).spec_len(),
            final(self).nodes().len() == old(self).nodes().len() + 1,
            final(self).nodes().drop_last() == old(self).nodes(),
            final(self).nodes().last().0 == element,
            final(self).nodes().last().1 <= L + 1,
            forall|i: int|
                0 <= i < L ==> #[trigger] final(self).level_is_empty(i) == old(
                    self,
                ).level_is_empty(i),
    {
        let level = draw_level::<L>();
        let node = SkipListNode { value: element, level, next: [None; L] };
        self.nodes.push(node);
        assert(self.nodes().drop_last() =~= old(self).nodes());
    }
}

impl<T, const L: usize> Default for SkipList<T, L> {
    fn default() -> (r: Self)
        ensures
            r.spec_len() == 0,
            r.nodes() == Seq::<(T, nat)>::empty(),
            forall|i: int| 0 <= i < L ==> #[trigger] r.level_is_empty(i),
    {
        Self::new()
    }
}

} // verus!
