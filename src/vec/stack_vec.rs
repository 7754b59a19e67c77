use vstd::prelude::*;

verus! {

/// Storage for a vector that has not left the stack: a fixed array of `N`
/// slots, of which the first `len` hold the elements and the rest are empty.
#[derive(Debug)]
pub struct UnallocatedVec<T, const N: usize> {
    data: [Option<T>; N],
    len: usize,
}

/// Storage for a vector that lives on the heap, with the capacity that was
/// acquired for it.
#[derive(Debug)]
pub struct AllocatedVec<T> {
    data: Vec<T>,
    cap: usize,
}

/// A slot that holds nothing.
fn empty_slot<T>(_i: usize) -> (r: Option<T>)
    ensures
        r is None,
{
    None
}

/// Relies on core::array::from_fn: slot `i` of the result holds what the
/// given function returns for `i`, here always an empty slot.
#[verifier::external_body]
fn empty_slots<T, const N: usize>() -> (r: [Option<T>; N])
    ensures
        forall|i: int| 0 <= i < N ==> (#[trigger] r@[i]) is None,
{
    core::array::from_fn(empty_slot::<T>)
}

impl<T, const N: usize> UnallocatedVec<T, N> {
    /// The first `len` slots are filled, the others empty.
    pub closed spec fn well_formed(&self) -> bool {
        &&& self.len <= N
        &&& forall|i: int| 0 <= i < N ==> ((#[trigger] self.data@[i]) is Some <==> i < self.len)
    }

    pub closed spec fn view(&self) -> Seq<T> {
        Seq::new(self.len as nat, |i: int| self.data@[i]->0)
    }

    fn new() -> (r: Self)
        ensures
            r.well_formed(),
            r.view() == Seq::<T>::empty(),
    {
        let r = UnallocatedVec { data: empty_slots::<T, N>(), len: 0 };
        assert(r.view() =~= Seq::<T>::empty());
        r
    }

    /// Writes `value` into the first empty slot.
    fn push(&mut self, value: T)
        requires
            old(self).well_formed(),
            old(self).len < N,
        ensures
            final(self).well_formed(),
            final(self).view() == old(self).view().push(value),
    {
        let i = self.len;
        self.data[i] = Some(value);
        self.len = i + 1;
        assert(self.view() =~= old(self).view().push(value));
    }

    /// Empties the last filled slot and returns what it held.
    fn pop(&mut self) -> (r: Option<T>)
        requires
            old(self).well_formed(),
        ensures
            final(self).well_formed(),
            old(self).view().len() == 0 ==> r is None && final(self).view() == old(self).view(),
            old(self).view().len() > 0 ==> r == Some(old(self).view().last())
                && final(self).view() == old(self).view().drop_last(),
    {
        if self.len == 0 {
            return None;
        }
        let i = self.len - 1;
        let r = self.data[i].take();
        self.len = i;
        assert(self.view() =~= old(self).view().drop_last());
        r
    }

    /// Moves the elements, in order, into a heap buffer of exactly one slot
    /// more, and writes `value` into that slot. The slots are left empty.
    fn move_to_heap(&mut self, value: T) -> (r: AllocatedVec<T>)
        requires
            old(self).well_formed(),
            old(self).len == N,
            N < usize::MAX,
        ensures
            r.well_formed(),
            r.view() == old(self).view().push(value),
            r.spec_cap() == N + 1,
    {
        let mut data: Vec<T> = Vec::with_capacity(N + 1);
        let mut i: usize = 0;
        while i < N
            invariant
                0 <= i <= N,
                self.len == N,
                data@.len() == i,
                forall|j: int| 0 <= j < i ==> (#[trigger] data@[j]) == old(self).data@[j]->0,
                forall|j: int| i <= j < N ==> (#[trigger] self.data@[j]) == old(self).data@[j],
                forall|j: int| 0 <= j < N ==> (#[trigger] old(self).data@[j]) is Some,
            decreases N - i,
        {
            let item = self.data[i].take();
            data.push(item.unwrap());
            i = i + 1;
        }
        data.push(value);
        assert(data@ =~= old(self).view().push(value));
        AllocatedVec { data, cap: N + 1 }
    }

    /// Moves the last element into slot `index` and returns what that slot
    /// held.
    fn swap_remove(&mut self, index: usize) -> (r: T)
        requires
            old(self).well_formed(),
            index + 1 < old(self).len,
        ensures
            final(self).well_formed(),
            r == old(self).view()[index as int],
            final(self).view() == old(self).view().update(index as int, old(self).view().last()).drop_last(),
    {
        let last = self.len - 1;
        let back = self.data[last].take();
        self.len = last;
        let r = self.data[index].take();
        self.data[index] = back;
        assert(self.view() =~= old(self).view().update(index as int, old(self).view().last()).drop_last());
        r.unwrap()
    }

    /// Empties the filled slots, first to last.
    fn clear(&mut self)
        requires
            old(self).well_formed(),
        ensures
            final(self).well_formed(),
            final(self).view() == Seq::<T>::empty(),
    {
        let mut i: usize = 0;
        while i < self.len
            invariant
                self.len == old(self).len,
                old(self).well_formed(),
                0 <= i <= self.len,
                forall|j: int| 0 <= j < i ==> (#[trigger] self.data@[j]) is None,
                forall|j: int| i <= j < N ==> (#[trigger] self.data@[j]) == old(self).data@[j],
            decreases self.len - i,
        {
            self.data[i] = None;
            i = i + 1;
        }
        self.len = 0;
        assert(self.view() =~= Seq::<T>::empty());
    }

    fn get(&self, index: usize) -> (r: &T)
        requires
            self.well_formed(),
            index < self.len,
        ensures
            *r == self.view()[index as int],
    {
        self.data[index].as_ref().unwrap()
    }

    fn get_mut(&mut self, index: usize) -> (r: &mut T)
        requires
            old(self).well_formed(),
            index < old(self).len,
        ensures
            *r == old(self).view()[index as int],
            final(self).well_formed(),
            final(self).view() == old(self).view().update(index as int, *final(r)),
    {
        self.data[index].as_mut().unwrap()
    }
}

impl<T> AllocatedVec<T> {
    /// The elements fit in the acquired capacity, which is never zero.
    pub closed spec fn well_formed(&self) -> bool {
        &&& self.data@.len() <= self.cap
        &&& self.cap > 0
    }

    pub closed spec fn view(&self) -> Seq<T> {
        self.data@
    }

    pub closed spec fn spec_cap(&self) -> nat {
        self.cap as nat
    }

    /// Doubles the capacity, keeping the elements where they are.
    fn grow(&mut self)
        requires
            old(self).well_formed(),
            old(self).cap <= isize::MAX,
        ensures
            final(self).well_formed(),
            final(self).view() == old(self).view(),
            final(self).cap == 2 * old(self).cap,
    {
        self.data.reserve(self.cap);
        self.cap = self.cap * 2;
    }

    /// Appends `value`, doubling the capacity first if it is used up.
    fn push(&mut self, value: T)
        requires
            old(self).well_formed(),
            old(self).data@.len() < isize::MAX,
        ensures
            final(self).well_formed(),
            final(self).view() == old(self).view().push(value),
            final(self).cap == (if old(self).data@.len() < old(self).cap {
                old(self).cap as int
            } else {
                2 * old(self).cap
            }),
    {
        if self.data.len() == self.cap {
            self.grow();
        }
        self.data.push(value);
    }
}

/// The capacity after one element is pushed onto a vector of `len` elements
/// with capacity `cap`: unchanged while there is room; one more when inline
/// storage overflows onto the heap; doubled when a heap buffer is full.
pub open spec fn grown_capacity(allocated: bool, cap: nat, len: nat) -> nat {
    if len < cap {
        cap
    } else if !allocated {
        cap + 1
    } else {
        2 * cap
    }
}

/// A vector that starts off with its elements on the stack, but as it grows
/// might get moved to the heap.
#[derive(Debug)]
pub enum StackVec<T, const N: usize> {
    /// Not yet heap-allocated
    Unallocated(UnallocatedVec<T, N>),
    /// Heap-allocated vector
    Allocated(AllocatedVec<T>),
}

impl<T, const N: usize> View for StackVec<T, N> {
    type V = Seq<T>;

    /// The elements, in order.
    closed spec fn view(&self) -> Seq<T> {
        match self {
            StackVec::Unallocated(v) => v.view(),
            StackVec::Allocated(v) => v.view(),
        }
    }
}

impl<T, const N: usize> StackVec<T, N> {
    /// The storage that is active agrees with its own bookkeeping.
    pub closed spec fn well_formed(&self) -> bool {
        match self {
            StackVec::Unallocated(v) => v.well_formed(),
            StackVec::Allocated(v) => v.well_formed(),
        }
    }

    /// How many elements fit before the storage has to move or grow.
    pub closed spec fn spec_capacity(&self) -> nat {
        match self {
            StackVec::Unallocated(_) => N as nat,
            StackVec::Allocated(v) => v.spec_cap(),
        }
    }

    /// Whether the elements live on the heap.
    pub open spec fn spec_is_allocated(&self) -> bool {
        self is Allocated
    }

    /// Creates a new empty vector, with its storage inline.
    ///
    /// Elements of size zero are not supported.
    pub fn new() -> (r: Self)
        requires
            vstd::layout::size_of::<T>() > 0,
        ensures
            r.well_formed(),
            r@ == Seq::<T>::empty(),
            !r.spec_is_allocated(),
            r.spec_capacity() == N,
    {
        StackVec::Unallocated(UnallocatedVec::new())
    }

    /// Returns the number of elements in the vector.
    pub fn len(&self) -> (r: usize)
        requires
            self.well_formed(),
        ensures
            r == self@.len(),
    {
        match self {
            StackVec::Unallocated(v) => v.len,
            StackVec::Allocated(v) => v.data.len(),
        }
    }

    /// Returns `true` if the vector is empty.
    pub fn is_empty(&self) -> (r: bool)
        requires
            self.well_formed(),
        ensures
            r == (self@.len() == 0),
    {
        self.len() == 0
    }

    /// Returns the number of elements the vector can hold without moving or
    /// reallocating.
    pub fn capacity(&self) -> (r: usize)
        ensures
            r == self.spec_capacity(),
    {
        match self {
            StackVec::Unallocated(_) => N,
            StackVec::Allocated(v) => v.cap,
        }
    }

    /// Returns `true` if the vector is on the heap.
    pub fn is_allocated(&self) -> (r: bool)
        ensures
            r == self.spec_is_allocated(),
    {
        match self {
            StackVec::Unallocated(_) => false,
            StackVec::Allocated(_) => true,
        }
    }

    /// Inserts an element at the back of the vector.
    ///
    /// Full inline storage moves to a heap buffer of exactly one slot more;
    /// a full heap buffer doubles.
    pub fn push(&mut self, value: T)
        requires
            old(self).well_formed(),
            old(self)@.len() < isize::MAX,
        ensures
            final(self).well_formed(),
            final(self)@ == old(self)@.push(value),
            final(self).spec_is_allocated() == (old(self).spec_is_allocated() || old(self)@.len()
                >= N),
            final(self).spec_capacity() == grown_capacity(
                old(self).spec_is_allocated(),
                old(self).spec_capacity(),
                old(self)@.len(),
            ),
    {
        let moved = match self {
            StackVec::Unallocated(v) => {
                if v.len < N {
                    v.push(value);
                    None
                } else {
                    Some(v.move_to_heap(value))
                }
            },
            StackVec::Allocated(v) => {
                v.push(value);
                None
            },
        };
        if let Some(heap) = moved {
            *self = StackVec::Allocated(heap);
        }
    }

    /// Removes the last element of the vector and returns it, or `None` if
    /// the vector is empty.
    pub fn pop(&mut self) -> (r: Option<T>)
        requires
            old(self).well_formed(),
        ensures
            final(self).well_formed(),
            final(self).spec_is_allocated() == old(self).spec_is_allocated(),
            final(self).spec_capacity() == old(self).spec_capacity(),
            old(self)@.len() == 0 ==> r is None && final(self)@ == old(self)@,
            old(self)@.len() > 0 ==> r == Some(old(self)@.last()) && final(self)@ == old(
                self,
            )@.drop_last(),
    {
        match self {
            StackVec::Unallocated(v) => v.pop(),
            StackVec::Allocated(v) => v.data.pop(),
        }
    }

    /// Removes the element at `index`, putting the last element in its place,
    /// and returns it.
    ///
    /// Returns `None`, and changes nothing, when `index` is out of range or
    /// names the last element: that one is removed with `pop`.
    pub fn swap_remove(&mut self, index: usize) -> (r: Option<T>)
        requires
            old(self).well_formed(),
        ensures
            final(self).well_formed(),
            final(self).spec_is_allocated() == old(self).spec_is_allocated(),
            final(self).spec_capacity() == old(self).spec_capacity(),
            index + 1 >= old(self)@.len() ==> r is None && final(self)@ == old(self)@,
            index + 1 < old(self)@.len() ==> r == Some(old(self)@[index as int]) && final(self)@
                == old(self)@.update(index as int, old(self)@.last()).drop_last(),
    {
        let len = self.len();
        if index >= len || index == len - 1 {
            return None;
        }
        match self {
            StackVec::Unallocated(v) => Some(v.swap_remove(index)),
            StackVec::Allocated(v) => {
                let r = v.data.swap_remove(index);
                assert(v.data@ =~= old(self)@.update(index as int, old(self)@.last()).drop_last());
                Some(r)
            },
        }
    }

    /// Removes all elements, first to last. A heap buffer is kept.
    pub fn clear(&mut self)
        requires
            old(self).well_formed(),
        ensures
            final(self).well_formed(),
            final(self)@ == Seq::<T>::empty(),
            final(self).spec_is_allocated() == old(self).spec_is_allocated(),
            final(self).spec_capacity() == old(self).spec_capacity(),
    {
        match self {
            StackVec::Unallocated(v) => v.clear(),
            StackVec::Allocated(v) => v.data.clear(),
        }
    }

    /// Returns a reference to the element at `index`.
    pub fn get(&self, index: usize) -> (r: &T)
        requires
            self.well_formed(),
            index < self@.len(),
        ensures
            *r == self@[index as int],
    {
        match self {
            StackVec::Unallocated(v) => v.get(index),
            StackVec::Allocated(v) => &v.data[index],
        }
    }

    /// Returns a mutable reference to the element at `index`.
    pub fn get_mut(&mut self, index: usize) -> (r: &mut T)
        requires
            old(self).well_formed(),
            index < old(self)@.len(),
        ensures
            *r == old(self)@[index as int],
            final(self).well_formed(),
            final(self).spec_is_allocated() == old(self).spec_is_allocated(),
            final(self).spec_capacity() == old(self).spec_capacity(),
            final(self)@ == old(self)@.update(index as int, *final(r)),
    {
        match self {
            StackVec::Unallocated(v) => v.get_mut(index),
            StackVec::Allocated(v) => &mut v.data[index],
        }
    }
}

impl<T, const N: usize> core::ops::Index<usize> for StackVec<T, N> {
    type Output = T;

    /// Returns a reference to the element at `index`.
    fn index(&self, index: usize) -> (r: &T)
        ensures
            *r == self@[index as int],
    {
        self.get(index)
    }
}

impl<T, const N: usize> vstd::std_specs::core::IndexSpecImpl<usize> for StackVec<T, N> {
    /// Indexing asks for a well-formed vector and an index below its length.
    open spec fn index_req(&self, index: &usize) -> bool {
        self.well_formed() && *index < self@.len()
    }
}

} // verus!
