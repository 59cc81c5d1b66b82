//! Association lists of owned string pairs, read as maps from key to value:
//! the shared shape of the bind-mount configuration and of response
//! headers. Insertion keeps first-come order and replaces the value of a
//! key already present, as a map insert does.
use vstd::prelude::*;

verus! {

/// No key occurs twice.
pub open spec fn unique_keys(pairs: Seq<(String, String)>) -> bool {
    forall|i: int, j: int|
        0 <= i < j < pairs.len() ==> (#[trigger] pairs[i]).0@ != (#[trigger] pairs[j]).0@
}

/// The list read as a map: later pairs win, though with unique keys none
/// ever repeats.
pub open spec fn spec_pair_map(pairs: Seq<(String, String)>) -> Map<Seq<char>, Seq<char>>
    decreases pairs.len(),
{
    if pairs.len() == 0 {
        Map::empty()
    } else {
        spec_pair_map(pairs.drop_last()).insert(pairs.last().0@, pairs.last().1@)
    }
}

/// Replacing the pair at `i` (same key) updates that key's map entry.
proof fn lemma_pair_map_update(pairs: Seq<(String, String)>, i: int, p: (String, String))
    requires
        0 <= i < pairs.len(),
        pairs[i].0@ == p.0@,
        unique_keys(pairs),
    ensures
        spec_pair_map(pairs.update(i, p)) =~= spec_pair_map(pairs).insert(p.0@, p.1@),
    decreases pairs.len(),
{
    if i == pairs.len() - 1 {
        assert(pairs.update(i, p).drop_last() =~= pairs.drop_last());
        assert(pairs.update(i, p).last() == p);
    } else {
        lemma_pair_map_update(pairs.drop_last(), i, p);
        assert(pairs.update(i, p).drop_last() =~= pairs.drop_last().update(i, p));
        assert(pairs.update(i, p).last() == pairs.last());
        assert(pairs.last().0@ != p.0@) by {
            assert(pairs[i].0@ != pairs[pairs.len() - 1].0@);
        }
        assert(spec_pair_map(pairs.update(i, p)) =~= spec_pair_map(
            pairs.drop_last().update(i, p),
        ).insert(pairs.last().0@, pairs.last().1@));
    }
}

/// Appending a pair inserts its key's map entry.
proof fn lemma_pair_map_push(pairs: Seq<(String, String)>, p: (String, String))
    ensures
        spec_pair_map(pairs.push(p)) =~= spec_pair_map(pairs).insert(p.0@, p.1@),
{
    assert(pairs.push(p).drop_last() =~= pairs);
    assert(pairs.push(p).last() == p);
}

/// Relies on `str` equality (`PartialEq::eq`): two string slices are equal
/// exactly when they hold the same characters.
#[verifier::external_body]
pub(crate) fn str_eq(a: &str, b: &str) -> (r: bool)
    ensures
        r == (a@ == b@),
{
    a == b
}

/// Insert `key -> value`: a pair whose key is already present has its value
/// replaced in place; a new key is appended.
pub fn upsert(pairs: Vec<(String, String)>, key: &str, value: &str) -> (r: Vec<(String, String)>)
    requires
        unique_keys(pairs@),
    ensures
        unique_keys(r@),
        r@.len() >= 1,
        spec_pair_map(r@) =~= spec_pair_map(pairs@).insert(key@, value@),
        (forall|i: int| 0 <= i < pairs@.len() ==> (#[trigger] pairs@[i]).0@ != key@)
            ==> r.deep_view() == pairs.deep_view().push((key@, value@)),
{
    let mut out = pairs;
    let n = out.len();
    let mut i: usize = 0;
    while i < n
        invariant
            0 <= i <= n,
            n == out@.len(),
            out@ == pairs@,
            unique_keys(out@),
            forall|j: int| 0 <= j < i ==> (#[trigger] out@[j]).0@ != key@,
        decreases n - i,
    {
        if str_eq(out[i].0.as_str(), key) {
            let ghost before = out@;
            let pair = (key.to_owned(), value.to_owned());
            let ghost gp = pair;
            out.set(i, pair);
            proof {
                lemma_pair_map_update(before, i as int, gp);
                assert forall|a: int, b: int|
                    0 <= a < b < out@.len() implies (#[trigger] out@[a]).0@ != (
                #[trigger] out@[b]).0@ by {
                    assert(before[a].0@ != before[b].0@);
                }
            }
            return out;
        }
        i = i + 1;
    }
    let ghost before = out@;
    let pair = (key.to_owned(), value.to_owned());
    let ghost gp = pair;
    out.push(pair);
    proof {
        lemma_pair_map_push(before, gp);
        assert forall|a: int, b: int|
            0 <= a < b < out@.len() implies (#[trigger] out@[a]).0@ != (
        #[trigger] out@[b]).0@ by {
            if b < before.len() {
                assert(before[a].0@ != before[b].0@);
            } else {
                assert(before[a].0@ != key@);
            }
        }
        assert(out.deep_view() =~~= pairs.deep_view().push((key@, value@)));
    }
    out
}

} // verus!
