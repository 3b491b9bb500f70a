use vstd::prelude::*;

verus! {

broadcast use vstd::seq_lib::group_to_multiset_ensures;

/// `s` is in non-decreasing order.
pub open spec fn sorted(s: Seq<i32>) -> bool {
    forall|i: int, j: int| 0 <= i < j < s.len() ==> s[i] <= s[j]
}

/// `a` and `b` hold the same values, each as often.
pub open spec fn permutation(a: Seq<i32>, b: Seq<i32>) -> bool {
    a.to_multiset() == b.to_multiset()
}

/// Copies `arr[lo..hi]` into a new vector.
fn copy_range(arr: &[i32], lo: usize, hi: usize) -> (v: Vec<i32>)
    requires
        lo <= hi <= arr@.len(),
    ensures
        v@ == arr@.subrange(lo as int, hi as int),
{
    let mut v: Vec<i32> = Vec::new();
    let mut i: usize = lo;
    while i < hi
        invariant
            lo <= i <= hi <= arr@.len(),
            v@ == arr@.subrange(lo as int, i as int),
        decreases hi - i,
    {
        v.push(arr[i]);
        i += 1;
    }
    v
}

/// Sorts `arr` in non-decreasing order: it splits the slice in two halves,
/// sorts each, and merges them back.
pub fn merge_sort(arr: &mut [i32])
    ensures
        final(arr)@.len() == old(arr)@.len(),
        sorted(final(arr)@),
        permutation(final(arr)@, old(arr)@),
    decreases old(arr)@.len(),
{
    let len = arr.len();
    if len < 2 {
        return;
    }
    let mid = len / 2;
    let mut left = copy_range(arr, 0, mid);
    let mut right = copy_range(arr, mid, len);
    proof {
        assert(old(arr)@ =~= left@ + right@);
        vstd::seq_lib::lemma_multiset_commutative(left@, right@);
    }
    let ghost left0 = left@;
    let ghost right0 = right@;
    merge_sort(left.as_mut_slice());
    merge_sort(right.as_mut_slice());
    let mut i: usize = 0;
    let mut j: usize = 0;
    let mut k: usize = 0;
    while k < len
        invariant
            arr@.len() == len,
            left@.len() + right@.len() == len,
            sorted(left@),
            sorted(right@),
            k == i + j,
            i <= left@.len(),
            j <= right@.len(),
            sorted(arr@.subrange(0, k as int)),
            k > 0 && i < left@.len() ==> arr@[k - 1] <= left@[i as int],
            k > 0 && j < right@.len() ==> arr@[k - 1] <= right@[j as int],
            arr@.subrange(0, k as int).to_multiset() == left@.subrange(0, i as int).to_multiset().add(
                right@.subrange(0, j as int).to_multiset(),
            ),
        decreases len - k,
    {
        let ghost before = arr@.subrange(0, k as int);
        let ghost prev = arr@;
        let take_left = j >= right.len() || (i < left.len() && left[i] < right[j]);
        let x = if take_left {
            left[i]
        } else {
            right[j]
        };
        arr[k] = x;
        proof {
            assert(arr@.subrange(0, k + 1) =~= before.push(x));
            assert forall|p: int| 0 <= p < k implies before[p] <= x by {
                assert(before[k - 1] == prev[k - 1]);
                if p < k - 1 {
                    assert(before[p] <= before[k - 1]);
                }
            }
            if take_left {
                assert(left@.subrange(0, i + 1) =~= left@.subrange(0, i as int).push(x));
            } else {
                assert(right@.subrange(0, j + 1) =~= right@.subrange(0, j as int).push(x));
            }
        }
        if take_left {
            i += 1;
        } else {
            j += 1;
        }
        k += 1;
    }
    proof {
        assert(arr@.subrange(0, len as int) =~= arr@);
        assert(left@.subrange(0, left@.len() as int) =~= left@);
        assert(right@.subrange(0, right@.len() as int) =~= right@);
        assert(left@.to_multiset() == left0.to_multiset());
        assert(right@.to_multiset() == right0.to_multiset());
    }
}

} // verus!
