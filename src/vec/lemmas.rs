use vstd::prelude::*;

use super::stack_vec::grown_capacity;

verus! {

/// The storage of a new vector with `n` inline slots after `m` pushes:
/// whether it is on the heap, and its capacity, as `StackVec::push` states
/// them step by step.
pub open spec fn pushed_storage(n: nat, m: nat) -> (bool, nat)
    decreases m,
{
    if m == 0 {
        (false, n)
    } else {
        let prev = pushed_storage(n, (m - 1) as nat);
        (prev.0 || m - 1 >= n, grown_capacity(prev.0, prev.1, (m - 1) as nat))
    }
}

/// `base` doubled `k` times.
pub open spec fn doubled(base: nat, k: nat) -> nat
    decreases k,
{
    if k == 0 {
        base
    } else {
        2 * doubled(base, (k - 1) as nat)
    }
}

/// What `j` successive pops of a vector holding `s` return, in order, and
/// what is left, as `StackVec::pop` states them step by step.
pub open spec fn pop_times<T>(s: Seq<T>, j: nat) -> (Seq<T>, Seq<Option<T>>)
    decreases j,
{
    if j == 0 {
        (s, Seq::empty())
    } else {
        let prev = pop_times(s, (j - 1) as nat);
        if prev.0.len() == 0 {
            (prev.0, prev.1.push(None))
        } else {
            (prev.0.drop_last(), prev.1.push(Some(prev.0.last())))
        }
    }
}

/// As long as at most `n` elements have been pushed, the vector stays inline
/// and its capacity is `n`.
pub proof fn lemma_inline_until_full(n: nat, m: nat)
    requires
        m <= n,
    ensures
        pushed_storage(n, m) == (false, n),
    decreases m,
{
    if m > 0 {
        lemma_inline_until_full(n, (m - 1) as nat);
    }
}

/// The push of element `n + 1` moves the vector to the heap with a capacity
/// of exactly `n + 1`.
pub proof fn lemma_first_move_to_heap(n: nat)
    ensures
        pushed_storage(n, n + 1) == (true, n + 1),
{
    lemma_inline_until_full(n, n);
}

/// After `m > n` pushes the vector is on the heap, and its capacity is the
/// first of `n + 1`, `2(n + 1)`, `4(n + 1)`, ... that is at least `m`; the
/// result is how many times `n + 1` was doubled.
pub proof fn lemma_capacity_growth(n: nat, m: nat) -> (k: nat)
    requires
        m > n,
    ensures
        pushed_storage(n, m).0,
        pushed_storage(n, m).1 == doubled(n + 1, k),
        m <= doubled(n + 1, k),
        forall|j: nat| j < k ==> #[trigger] doubled(n + 1, j) < m,
    decreases m,
{
    if m == n + 1 {
        lemma_first_move_to_heap(n);
        0
    } else {
        let k0 = lemma_capacity_growth(n, (m - 1) as nat);
        let cap = pushed_storage(n, (m - 1) as nat).1;
        if m - 1 < cap {
            k0
        } else {
            assert(doubled(n + 1, k0 + 1) == 2 * doubled(n + 1, k0));
            k0 + 1
        }
    }
}

/// Popping from an empty vector yields nothing and leaves it empty.
pub proof fn lemma_pop_empty<T>()
    ensures
        pop_times(Seq::<T>::empty(), 1) == (Seq::<T>::empty(), seq![None::<T>]),
{
    let prev = pop_times(Seq::<T>::empty(), 0);
    assert(prev == (Seq::<T>::empty(), Seq::<Option<T>>::empty()));
    assert(prev.1.push(None) =~= seq![None::<T>]);
}

/// After `k` pushes onto a new vector it holds the `k` pushed elements,
/// `items`; popping `j <= k` times then leaves `k - j` elements, and each of
/// those pops yields an element.
pub proof fn lemma_len_after_pushes_and_pops<T>(items: Seq<T>, j: nat)
    requires
        j <= items.len(),
    ensures
        pop_times(items, j).0.len() == items.len() - j,
        pop_times(items, j).1.len() == j,
        forall|i: int| 0 <= i < j ==> (#[trigger] pop_times(items, j).1[i]) is Some,
    decreases j,
{
    if j > 0 {
        lemma_len_after_pushes_and_pops(items, (j - 1) as nat);
        let prev = pop_times(items, (j - 1) as nat);
        assert forall|i: int| 0 <= i < j implies (#[trigger] pop_times(items, j).1[i]) is Some by {
            if i < j - 1 {
                assert(pop_times(items, j).1[i] == prev.1[i]);
            }
        }
    }
}

/// Pushing the elements of `items` onto an empty vector and then popping as
/// many times yields them in reverse order and leaves the vector empty.
pub proof fn lemma_push_pop_round_trip<T>(items: Seq<T>)
    ensures
        pop_times(items, items.len()).0 == Seq::<T>::empty(),
        pop_times(items, items.len()).1 == items.reverse().map_values(|x: T| Some(x)),
{
    lemma_pops_take_suffix(items, items.len());
    assert(pop_times(items, items.len()).0 =~= Seq::<T>::empty());
    assert(pop_times(items, items.len()).1 =~= items.reverse().map_values(|x: T| Some(x)));
}

/// After `j` pops the first `len - j` elements remain, and pop `i` returned
/// the element at `len - 1 - i`.
proof fn lemma_pops_take_suffix<T>(items: Seq<T>, j: nat)
    requires
        j <= items.len(),
    ensures
        pop_times(items, j).0 == items.subrange(0, items.len() - j),
        pop_times(items, j).1.len() == j,
        forall|i: int|
            0 <= i < j ==> #[trigger] pop_times(items, j).1[i] == Some(items[items.len() - 1 - i]),
    decreases j,
{
    if j == 0 {
        assert(items.subrange(0, items.len() as int) =~= items);
    } else {
        lemma_pops_take_suffix(items, (j - 1) as nat);
        let prev = pop_times(items, (j - 1) as nat);
        assert(prev.0.drop_last() =~= items.subrange(0, items.len() - j));
        assert forall|i: int| 0 <= i < j implies #[trigger] pop_times(items, j).1[i] == Some(
            items[items.len() - 1 - i],
        ) by {
            if i < j - 1 {
                assert(pop_times(items, j).1[i] == prev.1[i]);
            }
        }
    }
}

} // verus!
