mod lemmas;
mod stack_vec;

pub use lemmas::{
    doubled, lemma_capacity_growth, lemma_first_move_to_heap, lemma_inline_until_full,
    lemma_len_after_pushes_and_pops, lemma_pop_empty, lemma_push_pop_round_trip, pop_times,
    pushed_storage,
};
pub use stack_vec::{grown_capacity, AllocatedVec, StackVec, UnallocatedVec};
