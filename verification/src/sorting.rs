//! In-place sorting with a full contract: the result is ordered and is a
//! permutation (equal multiset) of the input.
use vstd::prelude::*;

verus! {

/// Non-decreasing order.
pub open spec fn sorted_usize(s: Seq<usize>) -> bool {
    forall|i: int, j: int| 0 <= i <= j < s.len() ==> s[i] <= s[j]
}

/// Non-decreasing order.
pub open spec fn sorted_i32(s: Seq<i32>) -> bool {
    forall|i: int, j: int| 0 <= i <= j < s.len() ==> s[i] <= s[j]
}

/// Updating one position exchanges its old element for the new one in the
/// multiset.
pub proof fn lemma_update_to_multiset<A>(s: Seq<A>, i: int, x: A)
    requires
        0 <= i < s.len(),
    ensures
        s.update(i, x).to_multiset() =~= s.to_multiset().remove(s[i]).insert(x),
{
    broadcast use vstd::seq_lib::group_to_multiset_ensures;

    let a = s.update(i, x);
    assert(a.remove(i) =~= s.remove(i));
    assert(a.remove(i).to_multiset() =~= a.to_multiset().remove(a[i]));
    assert(s.remove(i).to_multiset() =~= s.to_multiset().remove(s[i]));
    assert(a.contains(x)) by {
        assert(a[i] == x);
    }
    assert(a.to_multiset().count(x) > 0);
    assert(a.to_multiset() =~= a.to_multiset().remove(x).insert(x));
}

/// Swapping two positions leaves the multiset unchanged.
pub proof fn lemma_swap_to_multiset<A>(s: Seq<A>, i: int, j: int)
    requires
        0 <= i < j < s.len(),
    ensures
        s.update(i, s[j]).update(j, s[i]).to_multiset() =~= s.to_multiset(),
{
    broadcast use vstd::seq_lib::group_to_multiset_ensures;

    let m = s.to_multiset();
    let a = s.update(i, s[j]);
    lemma_update_to_multiset(s, i, s[j]);
    assert(a[j] == s[j]);
    lemma_update_to_multiset(a, j, s[i]);
    assert(a.update(j, s[i]).to_multiset() =~= m.remove(s[i]).insert(s[j]).remove(s[j]).insert(
        s[i],
    ));
    assert(s.contains(s[i])) by {
        assert(s[i] == s[i]);
    }
    assert(m.count(s[i]) > 0);
    assert(m.remove(s[i]).insert(s[j]).remove(s[j]).insert(s[i]) =~= m);
}

/// Bubble sort.
pub fn bubble_sort_usizes(v: &mut Vec<usize>)
    ensures
        sorted_usize(final(v)@),
        final(v)@.to_multiset() == old(v)@.to_multiset(),
{
    let n = v.len();
    if n == 0 {
        return ;
    }
    let mut i: usize = 0;
    while i < n
        invariant
            0 <= i <= n,
            n == v@.len(),
            v@.to_multiset() == old(v)@.to_multiset(),
            // the last i elements are in their final, sorted positions
            forall|a: int, b: int| n - i <= a <= b < n ==> v@[a] <= v@[b],
            forall|a: int, b: int| 0 <= a < n - i <= b < n ==> v@[a] <= v@[b],
        decreases n - i,
    {
        let mut j: usize = 0;
        while j + 1 < n - i
            invariant
                0 <= i < n,
                0 <= j <= n - i - 1,
                n == v@.len(),
                v@.to_multiset() == old(v)@.to_multiset(),
                forall|a: int, b: int| n - i <= a <= b < n ==> v@[a] <= v@[b],
                forall|a: int, b: int| 0 <= a < n - i <= b < n ==> v@[a] <= v@[b],
                forall|a: int| 0 <= a < j ==> v@[a] <= v@[j as int],
            decreases n - i - j,
        {
            if v[j] > v[j + 1] {
                let ghost prev = v@;
                let x = v[j];
                let y = v[j + 1];
                v.set(j, y);
                v.set(j + 1, x);
                proof {
                    lemma_swap_to_multiset(prev, j as int, j + 1);
                    assert(v@ =~= prev.update(j as int, prev[j + 1]).update(j + 1, prev[j as int]));
                }
            }
            j = j + 1;
        }
        i = i + 1;
    }
}

/// Bubble sort.
pub fn bubble_sort_i32s(v: &mut Vec<i32>)
    ensures
        sorted_i32(final(v)@),
        final(v)@.to_multiset() == old(v)@.to_multiset(),
{
    let n = v.len();
    if n == 0 {
        return ;
    }
    let mut i: usize = 0;
    while i < n
        invariant
            0 <= i <= n,
            n == v@.len(),
            v@.to_multiset() == old(v)@.to_multiset(),
            forall|a: int, b: int| n - i <= a <= b < n ==> v@[a] <= v@[b],
            forall|a: int, b: int| 0 <= a < n - i <= b < n ==> v@[a] <= v@[b],
        decreases n - i,
    {
        let mut j: usize = 0;
        while j + 1 < n - i
            invariant
                0 <= i < n,
                0 <= j <= n - i - 1,
                n == v@.len(),
                v@.to_multiset() == old(v)@.to_multiset(),
                forall|a: int, b: int| n - i <= a <= b < n ==> v@[a] <= v@[b],
                forall|a: int, b: int| 0 <= a < n - i <= b < n ==> v@[a] <= v@[b],
                forall|a: int| 0 <= a < j ==> v@[a] <= v@[j as int],
            decreases n - i - j,
        {
            if v[j] > v[j + 1] {
                let ghost prev = v@;
                let x = v[j];
                let y = v[j + 1];
                v.set(j, y);
                v.set(j + 1, x);
                proof {
                    lemma_swap_to_multiset(prev, j as int, j + 1);
                    assert(v@ =~= prev.update(j as int, prev[j + 1]).update(j + 1, prev[j as int]));
                }
            }
            j = j + 1;
        }
        i = i + 1;
    }
}

} // verus!
