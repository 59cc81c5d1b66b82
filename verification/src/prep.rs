//! Per-request preparation: numbering of private runtime directories (the
//! compute half of setting up a fresh rootfs directory) and the per-request
//! network attachment.
use vstd::prelude::*;
use crate::net::{prep_network_stack, NetOutcome, NetStackReport};
use crate::numtext::{parse_usize, spec_parse_usize};
use crate::sorting::{bubble_sort_usizes, sorted_usize};

verus! {

/// The directory numbers among a listing's entry names: every name that
/// reads as a decimal `usize`, in listing order.
pub open spec fn spec_dir_numbers(names: Seq<String>) -> Seq<usize>
    decreases names.len(),
{
    if names.len() == 0 {
        Seq::empty()
    } else {
        spec_dir_numbers(names.drop_last()) + (match spec_parse_usize(
            vstd::utf8::encode_utf8(names.last()@),
        ) {
            Option::Some(v) => seq![v],
            Option::None => Seq::empty(),
        })
    }
}

/// Collect the directory numbers out of a runtime directory's entry names.
pub fn dir_numbers(names: &Vec<String>) -> (r: Vec<usize>)
    ensures
        r@ == spec_dir_numbers(names@),
{
    let mut out: Vec<usize> = Vec::new();
    let n = names.len();
    let mut i: usize = 0;
    proof {
        assert(names@.take(0) =~= Seq::<String>::empty());
    }
    while i < n
        invariant
            0 <= i <= n,
            n == names@.len(),
            out@ == spec_dir_numbers(names@.take(i as int)),
        decreases n - i,
    {
        let name: &String = &names[i];
        match parse_usize(name.as_str().as_bytes()) {
            Some(v) => {
                out.push(v);
            },
            None => {},
        }
        proof {
            assert(names@.take(i + 1).drop_last() =~= names@.take(i as int));
            assert(names@.take(i + 1).last() == names@[i as int]);
            assert(out@ =~= spec_dir_numbers(names@.take(i + 1)));
        }
        i = i + 1;
    }
    proof {
        assert(names@.take(n as int) =~= names@);
    }
    out
}

/// The number for the next request's runtime directory: the smallest
/// positive integer that none of the existing entries uses, so gaps left by
/// finished requests are reused first. Concurrent requests each compute
/// this under the runtime directory's lock, after the previous one's
/// directory exists, and so obtain distinct numbers.
pub fn next_dir_num(names: &Vec<String>) -> (r: usize)
    requires
        names@.len() < usize::MAX,
    ensures
        is_next_free(spec_dir_numbers(names@), r),
{
    broadcast use vstd::seq_lib::group_to_multiset_ensures;

    let mut nums = dir_numbers(names);
    let ghost orig = nums@;
    proof {
        lemma_dir_numbers_len(names@);
    }
    bubble_sort_usizes(&mut nums);
    let ghost sorted = nums@;
    proof {
        // same multiset, hence the same members
        assert forall|k: usize| #[trigger] sorted.contains(k) == orig.contains(k) by {
            assert(sorted.contains(k) <==> sorted.to_multiset().count(k) > 0);
            assert(orig.contains(k) <==> orig.to_multiset().count(k) > 0);
        }
    }
    let n = nums.len();
    proof {
        assert(sorted.len() == sorted.to_multiset().len());
        assert(orig.len() == orig.to_multiset().len());
    }
    let mut c: usize = 1;
    let mut i: usize = 0;
    while i < n
        invariant
            0 <= i <= n,
            n == nums@.len(),
            nums@ == sorted,
            sorted_usize(sorted),
            n < usize::MAX,
            1 <= c <= i + 1,
            forall|k: usize| 1 <= k < c ==> sorted.contains(k),
            forall|j: int| 0 <= j < i ==> sorted[j] != c,
        decreases n - i,
    {
        let x = nums[i];
        if x == c {
            proof {
                assert(sorted.contains(c)) by {
                    assert(sorted[i as int] == c);
                }
                assert forall|j: int| 0 <= j < i + 1 implies sorted[j] != c + 1 by {
                    assert(sorted[j] <= sorted[i as int]);
                }
            }
            c = c + 1;
        }
        i = i + 1;
    }
    proof {
        assert(!sorted.contains(c)) by {
            if sorted.contains(c) {
                let w = choose|w: int| 0 <= w < sorted.len() && sorted[w] == c;
                assert(sorted[w] != c);
            }
        }
        assert forall|k: usize| 1 <= k < c implies orig.contains(k) by {
            assert(sorted.contains(k));
        }
    }
    c
}

/// `r` is the number the next request must use given the taken numbers
/// `used`: positive, not taken, and every smaller positive number taken.
pub open spec fn is_next_free(used: Seq<usize>, r: usize) -> bool {
    &&& r >= 1
    &&& !used.contains(r)
    &&& forall|k: usize| 1 <= k < r ==> used.contains(k)
}

/// Requests that number their directories one after the other get distinct
/// numbers: the second request's listing already contains the first one's
/// directory, and a request never receives a number its listing contains.
pub proof fn lemma_distinct_dir_numbers(used2: Seq<usize>, r1: usize, r2: usize)
    requires
        used2.contains(r1),
        is_next_free(used2, r2),
    ensures
        r1 != r2,
{
}

/// The numbers are no more numerous than the names.
proof fn lemma_dir_numbers_len(names: Seq<String>)
    ensures
        spec_dir_numbers(names).len() <= names.len(),
    decreases names.len(),
{
    if names.len() > 0 {
        lemma_dir_numbers_len(names.drop_last());
    }
}

/// Provision the network attachment for one request: the veth pair named
/// after the request, its outer end on the bridge, its inner end in the
/// worker's network namespace.
pub fn net_prep(veth_name: &str, pid: u32, bridge: &str) -> (r: NetStackReport)
    ensures
        r.inner_name@ == veth_name@ + "-in"@,
        r.create != NetOutcome::BadAddress,
        r.create != NetOutcome::NoSuchLink,
        r.outer_up != NetOutcome::BadAddress,
        r.attach != NetOutcome::BadAddress,
        r.move_inner != NetOutcome::BadAddress,
{
    prep_network_stack(veth_name, pid, bridge)
}

} // verus!
