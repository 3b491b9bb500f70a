use vstd::prelude::*;

pub mod bottom_up;
pub mod merge_sort;
pub mod stack;
pub mod top_down;

verus! {

} // verus!
